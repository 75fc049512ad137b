//! The records of a package document as the repair tools read it.

use vstd::prelude::*;

verus! {

/// A package document: version, namespace, metadata, manifest and spine.
pub struct Package {
    pub version: String,
    pub xmlns: String,
    pub text: Option<String>,
    pub metadata: Metadata,
    pub manifest: Manifest,
    pub spine: Spine,
}

/// The metadata of a package: its title.
pub struct Metadata {
    pub text: Option<String>,
    pub title: String,
}

/// The manifest of a package: its items, in order.
pub struct Manifest {
    pub text: Option<String>,
    pub item: Vec<Item>,
}

/// A manifest item.
pub struct Item {
    pub id: String,
    pub href: String,
    pub media_type: String,
}

/// The spine of a package: the id of its NCX item and its itemrefs, in order.
pub struct Spine {
    pub toc: String,
    pub text: Option<String>,
    pub itemref: Vec<Itemref>,
}

/// A spine itemref.
pub struct Itemref {
    pub idref: String,
}

/// What a manifest item holds.
pub struct ItemView {
    pub id: Seq<char>,
    pub href: Seq<char>,
    pub media_type: Seq<char>,
}

impl View for Item {
    type V = ItemView;

    open spec fn view(&self) -> ItemView {
        ItemView { id: self.id@, href: self.href@, media_type: self.media_type@ }
    }
}

/// What a package holds that the repair tools read.
pub struct PackageView {
    pub title: Seq<char>,
    pub items: Seq<ItemView>,
    pub toc: Seq<char>,
    pub idrefs: Seq<Seq<char>>,
}

impl View for Package {
    type V = PackageView;

    open spec fn view(&self) -> PackageView {
        PackageView {
            title: self.metadata.title@,
            items: self.manifest.item@.map_values(|i: Item| i@),
            toc: self.spine.toc@,
            idrefs: self.spine.itemref@.map_values(|r: Itemref| r.idref@),
        }
    }
}

} // verus!
