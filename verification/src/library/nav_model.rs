//! The records of an EPUB3 navigation document as the repair tools read it.

use vstd::prelude::*;

use crate::text::opt_view;

verus! {

/// An XHTML navigation document.
pub struct Html {
    pub xmlns: String,
    pub xmlns_epub: String,
    pub text: Option<String>,
    pub head: Head,
    pub body: Body,
}

/// The `head` element: the document title.
pub struct Head {
    pub title: Option<String>,
}

/// The `body` element: its `nav` elements, in order.
pub struct Body {
    pub nav: Vec<Nav>,
}

/// A `nav` element: its `epub:type`, whether it is hidden, its heading and
/// its list.
pub struct Nav {
    pub epub_type: String,
    pub hidden: Option<String>,
    pub h1: Option<String>,
    pub h2: Option<String>,
    pub ol: Ol,
}

/// An ordered list of entries.
pub struct Ol {
    pub li: Vec<Li>,
}

/// A list entry: its link, when it has one.
pub struct Li {
    pub a: Option<A>,
}

/// A link: its target, its `epub:type` and its text.
pub struct A {
    pub href: String,
    pub epub_type: Option<String>,
    pub text: Option<String>,
}

/// What a list entry's link holds: target and text (absent when the entry has
/// no link).
pub struct LinkView {
    pub href: Seq<char>,
    pub text: Option<Seq<char>>,
}

impl View for Li {
    type V = Option<LinkView>;

    open spec fn view(&self) -> Option<LinkView> {
        match self.a {
            Some(a) => Some(LinkView { href: a.href@, text: opt_view(a.text) }),
            None => None,
        }
    }
}

} // verus!
