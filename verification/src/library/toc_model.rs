//! The records of an NCX table of contents (`toc.ncx`).

use vstd::prelude::*;

use crate::text::opt_view;

verus! {

/// An NCX document: its namespace, its title and its navigation map.
pub struct Ncx {
    pub xmlns: String,
    pub text: Option<String>,
    pub head: Head,
    pub doc_title: DocTitle,
    pub nav_map: NavMap,
}

/// The (empty) `head` element of an NCX document.
pub struct Head {}

/// The `docTitle` element: the book's title.
pub struct DocTitle {
    pub text: String,
}

/// The `navMap` element: the entries of the table, in order.
pub struct NavMap {
    pub nav_point: Vec<NavPoint>,
}

/// A `navPoint` element: one entry of the table.
pub struct NavPoint {
    pub id: String,
    pub play_order: String,
    pub text: Option<String>,
    pub nav_label: NavLabel,
    pub content: Content,
}

/// The `navLabel` element: the text shown for an entry.
pub struct NavLabel {
    pub text: String,
}

/// The `content` element: the document an entry points at.
pub struct Content {
    pub src: String,
}

/// What a `navPoint` holds.
pub struct NavPointView {
    pub id: Seq<char>,
    pub play_order: Seq<char>,
    pub text: Option<Seq<char>>,
    pub label: Seq<char>,
    pub src: Seq<char>,
}

impl View for NavPoint {
    type V = NavPointView;

    open spec fn view(&self) -> NavPointView {
        NavPointView {
            id: self.id@,
            play_order: self.play_order@,
            text: opt_view(self.text),
            label: self.nav_label.text@,
            src: self.content.src@,
        }
    }
}

/// What an NCX document holds.
pub struct NcxView {
    pub xmlns: Seq<char>,
    pub text: Option<Seq<char>>,
    pub title: Seq<char>,
    pub points: Seq<NavPointView>,
}

impl View for Ncx {
    type V = NcxView;

    open spec fn view(&self) -> NcxView {
        NcxView {
            xmlns: self.xmlns@,
            text: opt_view(self.text),
            title: self.doc_title.text@,
            points: self.nav_map.nav_point@.map_values(|p: NavPoint| p@),
        }
    }
}

} // verus!
