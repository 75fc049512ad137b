//! Phase 5: navigation documents. An EPUB3 navigation document is preferred;
//! an EPUB2 NCX is the fall-back. Either yields the table of contents.

use vstd::prelude::*;

use crate::base::result::{ResultView, ValidationResult};
use crate::base::types::{
    ErrorCode, LocationView, ManifestInfo, ManifestItemView, NavInfo, OpfPackage, Severity,
    TocEntry, ValidationError, ValidationLocation, index_contents, index_get, reports,
};
use crate::epub::manifest::manifest_views;
use crate::epub::spine::single_error;
use crate::text::{opt_view, contains_text, nonempty_not_starting_with, same_text};

verus! {

/// How reading and decoding a document of the archive ended.
pub enum DocumentLoad<T> {
    /// The entry could not be read.
    Unreadable,
    /// The entry's bytes are not UTF-8.
    NotUtf8,
    /// The text is not a document of the expected shape.
    Malformed,
    /// The document, decoded.
    Loaded(T),
}

/// A link of an EPUB3 navigation list item.
pub struct NavLink {
    pub href: String,
    pub title: Option<String>,
}

/// An item of an EPUB3 navigation list: its links and an optional sub-list.
pub struct NavItem {
    pub links: Vec<NavLink>,
    pub subitems: Option<NavList>,
}

/// An ordered list of an EPUB3 navigation document.
pub struct NavList {
    pub list_items: Vec<NavItem>,
}

/// The `nav` element of an EPUB3 navigation document.
pub struct NavElement {
    pub ordered_list: Option<NavList>,
}

/// An EPUB3 navigation document.
pub struct NavDocument {
    pub nav_element: NavElement,
}

/// The label of an NCX navigation point.
pub struct NcxNavLabel {
    pub text: String,
}

/// The target of an NCX navigation point.
pub struct NcxContent {
    pub src: String,
}

/// An NCX navigation point and the points nested in it.
pub struct NcxNavPoint {
    pub id: String,
    pub nav_label: NcxNavLabel,
    pub content: NcxContent,
    pub children: Vec<NcxNavPoint>,
}

/// The navigation map of an NCX document.
pub struct NcxNavMap {
    pub nav_points: Vec<NcxNavPoint>,
}

/// An EPUB2 NCX document.
pub struct NcxDocument {
    pub namespace: String,
    pub nav_map: NcxNavMap,
}

/// The mathematical model of a table of contents entry.
pub struct TocView {
    pub title: Seq<char>,
    pub href: Seq<char>,
    pub children: Seq<TocView>,
}

/// The model of a table of contents entry and everything below it.
pub open spec fn toc_view(e: TocEntry) -> TocView
    decreases e, 1nat,
{
    TocView { title: e.title@, href: e.href@, children: toc_views(e.children@) }
}

/// The models of a sequence of table of contents entries.
pub open spec fn toc_views(es: Seq<TocEntry>) -> Seq<TocView>
    decreases es, 0nat,
{
    if es.len() == 0 {
        Seq::empty()
    } else {
        toc_views(es.drop_last()).push(toc_view(es.last()))
    }
}

/// A link target that a table of contents can use: not empty and not a
/// fragment of the navigation document itself.
pub open spec fn usable_href(h: Seq<char>) -> bool {
    h.len() > 0 && h[0] != '#'
}

/// The title of a link, empty when it has none.
pub open spec fn link_title(t: Option<String>) -> Seq<char> {
    match t {
        Some(s) => s@,
        None => Seq::empty(),
    }
}

/// The entries of a nested navigation list: the first link of each item,
/// when usable, without deeper nesting.
pub open spec fn nested_entries(items: Seq<NavItem>) -> Seq<TocView>
    decreases items.len(),
{
    if items.len() == 0 {
        Seq::empty()
    } else {
        let rest = nested_entries(items.drop_last());
        let item = items.last();
        if item.links@.len() > 0 && usable_href(item.links@[0].href@) {
            rest.push(TocView { title: link_title(item.links@[0].title), href: item.links@[0].href@, children: Seq::empty() })
        } else {
            rest
        }
    }
}

/// The entries nested below a navigation item.
pub open spec fn item_children(item: NavItem) -> Seq<TocView> {
    match item.subitems {
        Some(list) => nested_entries(list.list_items@),
        None => Seq::empty(),
    }
}

/// The table of contents of an EPUB3 navigation list: one entry for each item
/// whose first link is usable, with the usable links of its sub-list below it.
pub open spec fn nav_entries(items: Seq<NavItem>) -> Seq<TocView>
    decreases items.len(),
{
    if items.len() == 0 {
        Seq::empty()
    } else {
        let rest = nav_entries(items.drop_last());
        let item = items.last();
        if item.links@.len() > 0 && usable_href(item.links@[0].href@) {
            rest.push(TocView {
                title: link_title(item.links@[0].title),
                href: item.links@[0].href@,
                children: item_children(item),
            })
        } else {
            rest
        }
    }
}

/// The positions of the items whose first link has an empty target.
pub open spec fn empty_link_positions(items: Seq<NavItem>) -> Seq<nat>
    decreases items.len(),
{
    if items.len() == 0 {
        Seq::empty()
    } else {
        let rest = empty_link_positions(items.drop_last());
        let item = items.last();
        if item.links@.len() > 0 && item.links@[0].href@.len() == 0 {
            rest.push((items.len() - 1) as nat)
        } else {
            rest
        }
    }
}

/// The items of a navigation document's list; none when it has no list.
pub open spec fn nav_list_items(doc: NavDocument) -> Seq<NavItem> {
    match doc.nav_element.ordered_list {
        Some(list) => list.list_items@,
        None => Seq::empty(),
    }
}

/// The errors of a loaded EPUB3 navigation document: each item with an empty
/// link target, then an empty table of contents.
pub open spec fn nav_document_errors(r: ResultView, doc: NavDocument, path: Seq<char>) -> bool {
    let bad = empty_link_positions(nav_list_items(doc));
    let empty = nav_entries(nav_list_items(doc)).len() == 0;
    &&& r.warnings.len() == 0
    &&& !r.passed
    &&& r.errors.len() == bad.len() + (if empty { 1int } else { 0int })
    &&& forall|k: int| 0 <= k < bad.len() ==> reports(
        #[trigger] r.errors[k],
        ErrorCode::InvalidTocEntry,
        LocationView::TocEntry(bad[k]),
        Severity::Error,
    )
    &&& empty ==> reports(r.errors.last(), ErrorCode::EmptyToc, LocationView::Navigation(path), Severity::Error)
}

proof fn lemma_toc_views_push(s: Seq<TocEntry>, x: TocEntry)
    ensures
        toc_views(s.push(x)) == toc_views(s).push(toc_view(x)),
{
    assert(s.push(x).drop_last() =~= s);
}

/// What validating an EPUB3 navigation document at `nav_path` gives, for
/// each way its loading ended.
pub open spec fn epub3_nav_outcome(nav_path: Seq<char>, load: DocumentLoad<NavDocument>, r: Result<NavInfo, ValidationResult>) -> bool {
    &&& load is Unreadable ==> (r matches Err(res) && single_error(res@, ErrorCode::MissingNavDocument, LocationView::Navigation(nav_path)))
    &&& (load is NotUtf8 || load is Malformed) ==> (r matches Err(res) && single_error(res@, ErrorCode::InvalidNavXml, LocationView::Navigation(nav_path)))
    &&& load matches DocumentLoad::Loaded(doc) ==> {
            let items = nav_list_items(doc);
            &&& (r is Ok <==> empty_link_positions(items).len() == 0 && nav_entries(items).len() > 0)
            &&& r matches Ok(info) ==> {
                &&& info.nav_path matches Some(p) && p@ == nav_path
                &&& info.ncx_path is None
                &&& toc_views(info.toc_entries@) == nav_entries(items)
            }
            &&& r matches Err(res) ==> nav_document_errors(res@, doc, nav_path)
        }
}

/// Copies a link as a leaf entry of the table of contents.
fn leaf_entry(link: &NavLink) -> (e: TocEntry)
    ensures
        toc_view(e) == (TocView { title: link_title(link.title), href: link.href@, children: Seq::empty() }),
{
    let title = match &link.title {
        Some(t) => t.clone(),
        None => String::new(),
    };
    let e = TocEntry { title, href: link.href.clone(), children: Vec::new() };
    assert(toc_views(e.children@) =~= Seq::<TocView>::empty());
    e
}

/// The usable links of a nested list, as leaf entries.
fn nested_toc(list: &NavList) -> (es: Vec<TocEntry>)
    ensures
        toc_views(es@) == nested_entries(list.list_items@),
{
    let items = &list.list_items;
    let mut es: Vec<TocEntry> = Vec::new();
    let mut i: usize = 0;
    while i < items.len()
        invariant
            i <= items@.len(),
            toc_views(es@) == nested_entries(items@.take(i as int)),
        decreases items@.len() - i,
    {
        let item = &items[i];
        proof {
            assert(items@.take(i + 1).drop_last() =~= items@.take(i as int));
        }
        if item.links.len() > 0 && nonempty_not_starting_with(item.links[0].href.as_str(), '#') {
            let e = leaf_entry(&item.links[0]);
            proof { lemma_toc_views_push(es@, e); }
            es.push(e);
        }
        i = i + 1;
    }
    assert(items@.take(items@.len() as int) =~= items@);
    es
}

/// Validates a loaded EPUB3 navigation document found at `nav_path` and
/// collects its table of contents.
///
/// A document that cannot be read is reported as missing; one that is not
/// UTF-8 or not well formed as invalid. In a loaded document, an item whose
/// first link has an empty target is an error, and so is a table of contents
/// without usable entries; fragment-only links are skipped.
pub fn validate_epub3_nav(nav_path: &str, load: DocumentLoad<NavDocument>) -> (r: Result<NavInfo, ValidationResult>)
    ensures
        epub3_nav_outcome(nav_path@, load, r),
{
    let mut result = ValidationResult::new();
    let doc = match load {
        DocumentLoad::Unreadable => {
            result.add_error(ValidationError::new(
                ErrorCode::MissingNavDocument,
                ValidationLocation::Navigation { path: nav_path.to_owned() },
            ));
            return Err(result);
        },
        DocumentLoad::NotUtf8 | DocumentLoad::Malformed => {
            result.add_error(ValidationError::new(
                ErrorCode::InvalidNavXml,
                ValidationLocation::Navigation { path: nav_path.to_owned() },
            ));
            return Err(result);
        },
        DocumentLoad::Loaded(doc) => doc,
    };
    let ghost items_all = nav_list_items(doc);
    let mut toc_entries: Vec<TocEntry> = Vec::new();
    match &doc.nav_element.ordered_list {
        None => {},
        Some(list) => {
            let items = &list.list_items;
            let mut index: usize = 0;
            while index < items.len()
                invariant
                    items@ == items_all,
                    index <= items@.len(),
                    toc_views(toc_entries@) == nav_entries(items@.take(index as int)),
                    result@.warnings.len() == 0,
                    result@.passed == (result@.errors.len() == 0),
                    result@.errors.len() == empty_link_positions(items@.take(index as int)).len(),
                    forall|k: int| 0 <= k < result@.errors.len() ==> reports(
                        #[trigger] result@.errors[k],
                        ErrorCode::InvalidTocEntry,
                        LocationView::TocEntry(empty_link_positions(items@.take(index as int))[k]),
                        Severity::Error,
                    ),
                decreases items@.len() - index,
            {
                let item = &items[index];
                proof {
                    assert(items@.take(index + 1).drop_last() =~= items@.take(index as int));
                    assert(items@.take(index + 1).last() == *item);
                }
                if item.links.len() > 0 {
                    let link = &item.links[0];
                    if link.href.as_str().is_empty() {
                        result.add_error(ValidationError::new(
                            ErrorCode::InvalidTocEntry,
                            ValidationLocation::TocEntry { index },
                        ));
                    } else if nonempty_not_starting_with(link.href.as_str(), '#') {
                        let mut entry = leaf_entry(link);
                        match &item.subitems {
                            Some(sublist) => {
                                entry.children = nested_toc(sublist);
                            },
                            None => {},
                        }
                        proof {
                            assert(toc_view(entry).children == item_children(*item));
                            lemma_toc_views_push(toc_entries@, entry);
                        }
                        toc_entries.push(entry);
                    }
                }
                index = index + 1;
            }
            assert(items@.take(items@.len() as int) =~= items@);
        },
    }
    if toc_entries.len() == 0 {
        result.add_error(ValidationError::new(
            ErrorCode::EmptyToc,
            ValidationLocation::Navigation { path: nav_path.to_owned() },
        ));
    }
    if result.has_errors() {
        return Err(result);
    }
    Ok(NavInfo { nav_path: Some(nav_path.to_owned()), ncx_path: None, toc_entries })
}

/// The table of contents of NCX navigation points: each point with a usable
/// target becomes an entry, with the entries of its nested points below it.
pub open spec fn ncx_entries(points: Seq<NcxNavPoint>) -> Seq<TocView>
    decreases points, 0nat,
{
    if points.len() == 0 {
        Seq::empty()
    } else {
        let rest = ncx_entries(points.drop_last());
        let p = points.last();
        if usable_href(p.content.src@) {
            rest.push(ncx_entry(p))
        } else {
            rest
        }
    }
}

/// The entry of one NCX navigation point.
pub open spec fn ncx_entry(p: NcxNavPoint) -> TocView
    decreases p, 1nat,
{
    TocView { title: p.nav_label.text@, href: p.content.src@, children: ncx_entries(p.children@) }
}

/// Extracts the table of contents from NCX navigation points, recursively,
/// skipping points that target a fragment only or nothing.
pub fn extract_toc_entries(nav_points: &[NcxNavPoint]) -> (es: Vec<TocEntry>)
    ensures
        toc_views(es@) == ncx_entries(nav_points@),
    decreases nav_points@,
{
    let mut es: Vec<TocEntry> = Vec::new();
    let mut i: usize = 0;
    while i < nav_points.len()
        invariant
            i <= nav_points@.len(),
            toc_views(es@) == ncx_entries(nav_points@.take(i as int)),
        decreases nav_points@.len() - i,
    {
        let point = &nav_points[i];
        proof {
            assert(nav_points@.take(i + 1).drop_last() =~= nav_points@.take(i as int));
            assert(nav_points@.take(i + 1).last() == *point);
        }
        if nonempty_not_starting_with(point.content.src.as_str(), '#') {
            proof {
                assert(decreases_to!(nav_points@ => point.children@));
            }
            let children = extract_toc_entries(point.children.as_slice());
            let e = TocEntry {
                title: point.nav_label.text.clone(),
                href: point.content.src.clone(),
                children,
            };
            proof {
                lemma_toc_views_push(es@, e);
                assert(toc_view(e) == ncx_entry(*point));
                assert(usable_href(point.content.src@));
            }
            es.push(e);
        } else {
            assert(!usable_href(point.content.src@));
        }
        i = i + 1;
    }
    assert(nav_points@.take(nav_points@.len() as int) =~= nav_points@);
    es
}

/// What validating an NCX document at `ncx_path` gives, for each way its
/// loading ended.
pub open spec fn ncx_outcome(ncx_path: Seq<char>, load: DocumentLoad<NcxDocument>, r: Result<NavInfo, ValidationResult>) -> bool {
    &&& load is Unreadable ==> (r matches Err(res) && single_error(res@, ErrorCode::MissingNavDocument, LocationView::Navigation(ncx_path)))
    &&& (load is NotUtf8 || load is Malformed) ==> (r matches Err(res) && single_error(res@, ErrorCode::InvalidNcxXml, LocationView::Ncx(ncx_path)))
    &&& load matches DocumentLoad::Loaded(doc) ==> {
        let entries = ncx_entries(doc.nav_map.nav_points@);
        &&& (r is Ok <==> entries.len() > 0)
        &&& r matches Ok(info) ==> {
            &&& info.nav_path is None
            &&& info.ncx_path matches Some(p) && p@ == ncx_path
            &&& toc_views(info.toc_entries@) == entries
        }
        &&& r matches Err(res) ==> single_error(res@, ErrorCode::EmptyToc, LocationView::Ncx(ncx_path))
    }
}

/// Validates a loaded EPUB2 NCX document found at `ncx_path` and collects its
/// table of contents, which must not be empty.
pub fn validate_ncx(ncx_path: &str, load: DocumentLoad<NcxDocument>) -> (r: Result<NavInfo, ValidationResult>)
    ensures
        ncx_outcome(ncx_path@, load, r),
{
    let mut result = ValidationResult::new();
    let doc = match load {
        DocumentLoad::Unreadable => {
            result.add_error(ValidationError::new(
                ErrorCode::MissingNavDocument,
                ValidationLocation::Navigation { path: ncx_path.to_owned() },
            ));
            return Err(result);
        },
        DocumentLoad::NotUtf8 | DocumentLoad::Malformed => {
            result.add_error(ValidationError::new(
                ErrorCode::InvalidNcxXml,
                ValidationLocation::Ncx { path: ncx_path.to_owned() },
            ));
            return Err(result);
        },
        DocumentLoad::Loaded(doc) => doc,
    };
    let toc_entries = extract_toc_entries(doc.nav_map.nav_points.as_slice());
    if toc_entries.len() == 0 {
        result.add_error(ValidationError::new(
            ErrorCode::EmptyToc,
            ValidationLocation::Ncx { path: ncx_path.to_owned() },
        ));
        return Err(result);
    }
    Ok(NavInfo { nav_path: None, ncx_path: Some(ncx_path.to_owned()), toc_entries })
}

proof fn lemma_deep_view_contains(v: Vec<String>, t: Seq<char>)
    ensures
        (exists|i: int| 0 <= i < v@.len() && #[trigger] v@[i]@ == t)
            == (exists|k: int| 0 <= k < v.deep_view().len() && #[trigger] v.deep_view()[k] == t),
{
    if exists|i: int| 0 <= i < v@.len() && #[trigger] v@[i]@ == t {
        let i = choose|i: int| 0 <= i < v@.len() && #[trigger] v@[i]@ == t;
        assert(v.deep_view()[i] == t);
    }
    if exists|k: int| 0 <= k < v.deep_view().len() && #[trigger] v.deep_view()[k] == t {
        let k = choose|k: int| 0 <= k < v.deep_view().len() && #[trigger] v.deep_view()[k] == t;
        assert(v@[k]@ == t);
    }
}

/// The manifest item has the property `property`.
pub open spec fn has_property(item: ManifestItemView, property: Seq<char>) -> bool {
    exists|k: int| 0 <= k < item.properties.len() && #[trigger] item.properties[k] == property
}

/// A manifest item that is an EPUB3 navigation document.
pub open spec fn is_nav_item(v: ManifestItemView) -> bool {
    has_property(v, "nav"@)
}

/// The media type of NCX documents.
pub open spec fn ncx_media_type() -> Seq<char> {
    "application/x-dtbncx+xml"@
}

/// A manifest item that is an NCX document.
pub open spec fn is_ncx_item(v: ManifestItemView) -> bool {
    v.media_type == ncx_media_type()
}

/// `r` is the href of the first navigation document among `items`, or `None`
/// when there is none.
pub open spec fn first_nav_href(items: Seq<ManifestItemView>, r: Option<Seq<char>>) -> bool {
    match r {
        Some(h) => exists|i: int| {
            &&& 0 <= i < items.len()
            &&& #[trigger] is_nav_item(items[i])
            &&& items[i].href == h
            &&& forall|j: int| 0 <= j < i ==> !is_nav_item(#[trigger] items[j])
        },
        None => forall|i: int| 0 <= i < items.len() ==> !is_nav_item(#[trigger] items[i]),
    }
}

/// `r` is the href of the first NCX document among `items`, or `None` when
/// there is none.
pub open spec fn first_ncx_href(items: Seq<ManifestItemView>, r: Option<Seq<char>>) -> bool {
    match r {
        Some(h) => exists|i: int| {
            &&& 0 <= i < items.len()
            &&& #[trigger] is_ncx_item(items[i])
            &&& items[i].href == h
            &&& forall|j: int| 0 <= j < i ==> !is_ncx_item(#[trigger] items[j])
        },
        None => forall|i: int| 0 <= i < items.len() ==> !is_ncx_item(#[trigger] items[i]),
    }
}

/// Finds the EPUB3 navigation document: the first manifest item with the
/// `nav` property.
pub fn find_nav_document(manifest_info: &ManifestInfo) -> (r: Option<String>)
    ensures
        first_nav_href(manifest_views(manifest_info.items@), opt_view(r)),
{
    let items = &manifest_info.items;
    let ghost views = manifest_views(items@);
    let mut i: usize = 0;
    while i < items.len()
        invariant
            i <= items@.len(),
            views == manifest_views(items@),
            items@ == manifest_info.items@,
            forall|j: int| 0 <= j < i ==> !is_nav_item(#[trigger] views[j]),
        decreases items@.len() - i,
    {
        let item = &items[i];
        let found = contains_text(&item.properties, "nav");
        proof {
            assert(views[i as int] == item@);
            lemma_deep_view_contains(item.properties, "nav"@);
            assert(found == has_property(item@, "nav"@));
        }
        if found {
            let h = item.href.clone();
            proof {
                assert(is_nav_item(views[i as int]));
                assert(views[i as int].href == h@);
                assert(first_nav_href(views, Some(h@)));
                assert(opt_view(Some(h)) == Some(h@));
            }
            return Some(h);
        }
        i = i + 1;
    }
    None
}

/// Where the NCX document is found when no manifest item has the NCX media
/// type: through the first spine item, when it has the `nav` property and its
/// idref names a manifest item.
pub open spec fn spine_ncx_href(opf: OpfPackage, manifest_info: ManifestInfo) -> Option<Seq<char>> {
    if opf.spine_items@.len() > 0 && opf.spine_items@[0]@.properties.contains("nav"@)
        && index_contents(manifest_info.id_to_item).contains_key(opf.spine_items@[0].idref@) {
        Some(index_contents(manifest_info.id_to_item)[opf.spine_items@[0].idref@].href@)
    } else {
        None
    }
}

/// Finds the EPUB2 NCX document: the first manifest item with the NCX media
/// type, or else the item that the first spine item names, when that spine
/// item has the `nav` property.
pub fn find_ncx_document(opf: &OpfPackage, manifest_info: &ManifestInfo) -> (r: Option<String>)
    ensures
        (exists|i: int| 0 <= i < manifest_info.items@.len() && #[trigger] is_ncx_item(manifest_views(manifest_info.items@)[i]))
            ==> first_ncx_href(manifest_views(manifest_info.items@), opt_view(r)),
        !(exists|i: int| 0 <= i < manifest_info.items@.len() && #[trigger] is_ncx_item(manifest_views(manifest_info.items@)[i]))
            ==> opt_view(r) == spine_ncx_href(*opf, *manifest_info),
{
    let items = &manifest_info.items;
    let ghost views = manifest_views(items@);
    let mut i: usize = 0;
    while i < items.len()
        invariant
            i <= items@.len(),
            views == manifest_views(items@),
            items@ == manifest_info.items@,
            forall|j: int| 0 <= j < i ==> !is_ncx_item(#[trigger] views[j]),
        decreases items@.len() - i,
    {
        let item = &items[i];
        proof {
            assert(views[i as int] == item@);
        }
        if same_text(item.media_type.as_str(), "application/x-dtbncx+xml") {
            let h = item.href.clone();
            proof {
                assert(is_ncx_item(views[i as int]));
                assert(is_ncx_item(manifest_views(manifest_info.items@)[i as int]));
                assert(views[i as int].href == h@);
                assert(first_ncx_href(views, Some(h@)));
                assert(opt_view(Some(h)) == Some(h@));
            }
            return Some(h);
        }
        i = i + 1;
    }
    if opf.spine_items.len() > 0 {
        let first = &opf.spine_items[0];
        let has_nav = contains_text(&first.properties, "nav");
        proof {
            assert(first@.properties.contains("nav"@) == has_nav) by {
                if has_nav {
                    let k = choose|k: int| 0 <= k < first.properties@.len() && #[trigger] first.properties@[k]@ == "nav"@;
                    assert(first@.properties[k] == "nav"@);
                }
                if first@.properties.contains("nav"@) {
                    let k = choose|k: int| 0 <= k < first@.properties.len() && first@.properties[k] == "nav"@;
                    assert(first.properties@[k]@ == "nav"@);
                }
            }
        }
        if has_nav {
            match index_get(&manifest_info.id_to_item, first.idref.as_str()) {
                Some(item) => {
                    return Some(item.href.clone());
                },
                None => {},
            }
        }
    }
    None
}

/// The leaf entry of a navigation item whose first link is usable: that
/// link's title and target, nothing below.
pub open spec fn first_link_leaf(item: NavItem) -> TocView {
    TocView { title: link_title(item.links@[0].title), href: item.links@[0].href@, children: Seq::empty() }
}

/// The first link of `item` exists and has a usable target.
pub open spec fn has_usable_first_link(item: NavItem) -> bool {
    item.links@.len() > 0 && usable_href(item.links@[0].href@)
}

/// The entries of a nested list made of one item: the item's first link as a
/// leaf when its target is usable, nothing otherwise.
pub proof fn law_nested_entries_single(item: NavItem)
    ensures
        has_usable_first_link(item) ==> nested_entries(seq![item]) == seq![first_link_leaf(item)],
        !has_usable_first_link(item) ==> nested_entries(seq![item]) == Seq::<TocView>::empty(),
{
    assert(seq![item].drop_last() =~= Seq::<NavItem>::empty());
    assert(nested_entries(Seq::<NavItem>::empty()) == Seq::<TocView>::empty());
    assert(Seq::<TocView>::empty().push(first_link_leaf(item)) =~= seq![first_link_leaf(item)]);
}

/// The entries of a nested list are those of its first part followed by
/// those of the rest: each item contributes on its own, whatever came before.
pub proof fn law_nested_entries_append(a: Seq<NavItem>, b: Seq<NavItem>)
    ensures
        nested_entries(a + b) == nested_entries(a) + nested_entries(b),
    decreases b.len(),
{
    if b.len() == 0 {
        assert(a + b =~= a);
        assert(nested_entries(a) + Seq::<TocView>::empty() =~= nested_entries(a));
    } else {
        law_nested_entries_append(a, b.drop_last());
        assert((a + b).drop_last() =~= a + b.drop_last());
        assert((a + b).last() == b.last());
        if has_usable_first_link(b.last()) {
            assert((nested_entries(a) + nested_entries(b.drop_last())).push(first_link_leaf(b.last()))
                =~= nested_entries(a) + nested_entries(b.drop_last()).push(first_link_leaf(b.last())));
        }
    }
}

/// The table of contents of a navigation list made of one item: when its
/// first link is usable, one entry with that link's title and target whose
/// children are the leaf entries of its sub-list (one per sub-list item with
/// a usable first link, in order); nothing otherwise.
pub proof fn law_nav_entries_single(item: NavItem)
    ensures
        has_usable_first_link(item) ==> nav_entries(seq![item]) == seq![TocView {
            title: link_title(item.links@[0].title),
            href: item.links@[0].href@,
            children: match item.subitems {
                Some(list) => nested_entries(list.list_items@),
                None => Seq::empty(),
            },
        }],
        !has_usable_first_link(item) ==> nav_entries(seq![item]) == Seq::<TocView>::empty(),
{
    assert(seq![item].drop_last() =~= Seq::<NavItem>::empty());
    assert(nav_entries(Seq::<NavItem>::empty()) == Seq::<TocView>::empty());
    let e = TocView { title: link_title(item.links@[0].title), href: item.links@[0].href@, children: item_children(item) };
    assert(Seq::<TocView>::empty().push(e) =~= seq![e]);
}

/// The table of contents of a navigation list is that of its first part
/// followed by that of the rest.
pub proof fn law_nav_entries_append(a: Seq<NavItem>, b: Seq<NavItem>)
    ensures
        nav_entries(a + b) == nav_entries(a) + nav_entries(b),
    decreases b.len(),
{
    if b.len() == 0 {
        assert(a + b =~= a);
        assert(nav_entries(a) + Seq::<TocView>::empty() =~= nav_entries(a));
    } else {
        law_nav_entries_append(a, b.drop_last());
        assert((a + b).drop_last() =~= a + b.drop_last());
        assert((a + b).last() == b.last());
        let item = b.last();
        if has_usable_first_link(item) {
            let e = TocView { title: link_title(item.links@[0].title), href: item.links@[0].href@, children: item_children(item) };
            assert((nav_entries(a) + nav_entries(b.drop_last())).push(e) =~= nav_entries(a) + nav_entries(b.drop_last()).push(e));
        }
    }
}

/// The number of entries of a nested list is the number of its items whose
/// first link is usable, and entry `k` is the leaf of the `k`-th such item.
pub proof fn law_nested_entries_count(items: Seq<NavItem>)
    ensures
        nested_entries(items).len() == items.filter(|it: NavItem| has_usable_first_link(it)).len(),
        forall|k: int| 0 <= k < nested_entries(items).len() ==> #[trigger] nested_entries(items)[k]
            == first_link_leaf(items.filter(|it: NavItem| has_usable_first_link(it))[k]),
    decreases items.len(),
{
    reveal(Seq::filter);
    if items.len() > 0 {
        law_nested_entries_count(items.drop_last());
    }
}

/// The entries of NCX points made of one point: when its target is usable,
/// one entry with its label and target whose children are the entries of
/// its nested points; nothing otherwise.
pub proof fn law_ncx_entries_single(p: NcxNavPoint)
    ensures
        usable_href(p.content.src@) ==> ncx_entries(seq![p]) == seq![TocView {
            title: p.nav_label.text@,
            href: p.content.src@,
            children: ncx_entries(p.children@),
        }],
        !usable_href(p.content.src@) ==> ncx_entries(seq![p]) == Seq::<TocView>::empty(),
{
    assert(seq![p].drop_last() =~= Seq::<NcxNavPoint>::empty());
    assert(ncx_entries(Seq::<NcxNavPoint>::empty()) == Seq::<TocView>::empty());
    assert(Seq::<TocView>::empty().push(ncx_entry(p)) =~= seq![ncx_entry(p)]);
}

/// The entries of NCX points are those of the first points followed by
/// those of the rest.
pub proof fn law_ncx_entries_append(a: Seq<NcxNavPoint>, b: Seq<NcxNavPoint>)
    ensures
        ncx_entries(a + b) == ncx_entries(a) + ncx_entries(b),
    decreases b.len(),
{
    if b.len() == 0 {
        assert(a + b =~= a);
        assert(ncx_entries(a) + Seq::<TocView>::empty() =~= ncx_entries(a));
    } else {
        law_ncx_entries_append(a, b.drop_last());
        assert((a + b).drop_last() =~= a + b.drop_last());
        assert((a + b).last() == b.last());
        if usable_href(b.last().content.src@) {
            let e = ncx_entry(b.last());
            assert((ncx_entries(a) + ncx_entries(b.drop_last())).push(e) =~= ncx_entries(a) + ncx_entries(b.drop_last()).push(e));
        }
    }
}

} // verus!
