//! Phase 3a: the package document (OPF), read into the validator's records.

use vstd::prelude::*;

use crate::base::result::ValidationResult;
use crate::base::types::{
    ErrorCode, LocationView, ManifestItem, ManifestItemView, OpfMetadata, OpfPackage, SpineItem,
    SpineItemView, ValidationError, ValidationLocation,
};
use crate::epub::manifest::manifest_views;
use crate::epub::spine::{single_error, spine_views};
use crate::text::{split_words, words};

verus! {

/// A manifest `item` element as written in the package document.
pub struct RawManifestItem {
    pub id: String,
    pub href: String,
    pub media_type: String,
    pub properties: Option<String>,
}

/// A spine `itemref` element as written in the package document.
pub struct RawSpineItem {
    pub idref: String,
    pub linear: Option<String>,
    pub properties: Option<String>,
}

/// The parts of a package document that validation reads.
pub struct RawOpf {
    pub metadata: OpfMetadata,
    pub manifest_items: Vec<RawManifestItem>,
    pub spine_items: Vec<RawSpineItem>,
}

/// The properties of an element: the words of its `properties` attribute.
pub open spec fn property_list(p: Option<String>) -> Seq<Seq<char>> {
    match p {
        Some(s) => words(s@),
        None => Seq::empty(),
    }
}

/// The value of an absent `linear` attribute.
pub fn default_linear() -> (s: String)
    ensures
        s@ == "yes"@,
{
    String::from_str("yes")
}

/// The manifest item that a raw `item` element describes.
pub open spec fn manifest_item_of(raw: RawManifestItem) -> ManifestItemView {
    ManifestItemView {
        id: raw.id@,
        href: raw.href@,
        media_type: raw.media_type@,
        properties: property_list(raw.properties),
    }
}

/// The spine item that a raw `itemref` element describes; `linear` is "yes"
/// when absent.
pub open spec fn spine_item_of(raw: RawSpineItem) -> SpineItemView {
    SpineItemView {
        idref: raw.idref@,
        linear: match raw.linear {
            Some(l) => l@,
            None => "yes"@,
        },
        properties: property_list(raw.properties),
    }
}

fn properties_of(p: &Option<String>) -> (r: Vec<String>)
    ensures
        r.deep_view() == property_list(*p),
{
    match p {
        Some(s) => split_words(s.as_str()),
        None => {
            let r: Vec<String> = Vec::new();
            assert(r.deep_view() =~= Seq::<Seq<char>>::empty());
            r
        },
    }
}

/// What converting a package document gives: the invalid-XML error when it
/// could not be decoded, otherwise the package with every manifest and spine
/// entry converted.
pub open spec fn package_outcome(document: Option<RawOpf>, r: Result<OpfPackage, ValidationResult>) -> bool {
    &&& document is None ==> (r matches Err(res) && single_error(res@, ErrorCode::InvalidOpfXml, LocationView::Opf(Seq::empty())))
    &&& document matches Some(doc) ==> (r matches Ok(pkg) && {
        &&& pkg.path@ == Seq::<char>::empty()
        &&& pkg.root_file_path@ == Seq::<char>::empty()
        &&& pkg.metadata == doc.metadata
        &&& manifest_views(pkg.manifest_items@) == raw_manifest_views(doc.manifest_items@)
        &&& spine_views(pkg.spine_items@) == raw_spine_views(doc.spine_items@)
    })
}

/// The manifest items that raw `item` elements describe.
pub open spec fn raw_manifest_views(items: Seq<RawManifestItem>) -> Seq<ManifestItemView> {
    items.map_values(|x: RawManifestItem| manifest_item_of(x))
}

/// The spine items that raw `itemref` elements describe.
pub open spec fn raw_spine_views(items: Seq<RawSpineItem>) -> Seq<SpineItemView> {
    items.map_values(|x: RawSpineItem| spine_item_of(x))
}

/// Converts a decoded package document into the validator's records; a
/// document that could not be decoded is reported as invalid XML.
///
/// Missing manifest or spine entries are not rejected here: the spine and
/// manifest phases report them.
pub fn build_opf_package(document: Option<RawOpf>) -> (r: Result<OpfPackage, ValidationResult>)
    ensures
        package_outcome(document, r),
{
    let doc = match document {
        None => {
            let mut result = ValidationResult::new();
            result.add_error(ValidationError::new(
                ErrorCode::InvalidOpfXml,
                ValidationLocation::Opf { path: String::new() },
            ));
            return Err(result);
        },
        Some(doc) => doc,
    };
    let mut manifest_items: Vec<ManifestItem> = Vec::new();
    let mut i: usize = 0;
    while i < doc.manifest_items.len()
        invariant
            i <= doc.manifest_items@.len(),
            manifest_items@.len() == i,
            forall|k: int| 0 <= k < i ==> #[trigger] manifest_items@[k]@ == manifest_item_of(doc.manifest_items@[k]),
        decreases doc.manifest_items@.len() - i,
    {
        let raw = &doc.manifest_items[i];
        let item = ManifestItem {
            id: raw.id.clone(),
            href: raw.href.clone(),
            media_type: raw.media_type.clone(),
            properties: properties_of(&raw.properties),
        };
        manifest_items.push(item);
        i = i + 1;
    }
    let mut spine_items: Vec<SpineItem> = Vec::new();
    let mut j: usize = 0;
    while j < doc.spine_items.len()
        invariant
            j <= doc.spine_items@.len(),
            spine_items@.len() == j,
            forall|k: int| 0 <= k < j ==> #[trigger] spine_items@[k]@ == spine_item_of(doc.spine_items@[k]),
        decreases doc.spine_items@.len() - j,
    {
        let raw = &doc.spine_items[j];
        let linear = match &raw.linear {
            Some(l) => l.clone(),
            None => default_linear(),
        };
        let item = SpineItem {
            idref: raw.idref.clone(),
            linear,
            properties: properties_of(&raw.properties),
        };
        spine_items.push(item);
        j = j + 1;
    }
    assert(manifest_views(manifest_items@) =~= raw_manifest_views(doc.manifest_items@));
    assert(spine_views(spine_items@) =~= raw_spine_views(doc.spine_items@));
    Ok(OpfPackage {
        path: String::new(),
        root_file_path: String::new(),
        metadata: doc.metadata,
        manifest_items,
        spine_items,
    })
}

} // verus!
