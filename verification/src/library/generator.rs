//! Regenerates an NCX table of contents from an EPUB3 navigation document or,
//! when the book has none, from its spine.

use vstd::prelude::*;

use crate::library::nav_model::{Html, LinkView, Nav};
use crate::library::opf_model::{Item, ItemView, Package, PackageView};
use crate::library::toc_model::{Content, DocTitle, Head, NavLabel, NavMap, NavPoint, NavPointView, Ncx, NcxView};
use crate::library::xml_steps::{
    pair_view, pairs_view, document_steps, pushed_attribute, raw_attributes, raw_attributes_of, raw_view, read_steps, step_text, tag_named, well_formed_xml_steps,
    with_attribute, write_step, xml_step_views, XmlStep, XmlStepView,
};
use crate::text::{
    decimal, lemma_position_of, text_result, position_of, push_str, same_text, text_contains, trim, trimmed,
    usize_to_decimal,
};

verus! {

/// The namespace of NCX documents.
pub open spec fn ncx_namespace() -> Seq<char> {
    "http://www.daisy.org/z3986/2005/ncx/"@
}

/// An NCX document titled `title` with the entries `points`.
pub open spec fn ncx_of(title: Seq<char>, points: Seq<NavPointView>) -> NcxView {
    NcxView { xmlns: ncx_namespace(), text: None, title, points }
}

/// The entry numbered `n` (its id is `navPoint-n`, its play order `n`).
pub open spec fn numbered_point(n: nat, label: Seq<char>, src: Seq<char>) -> NavPointView {
    NavPointView { id: "navPoint-"@ + decimal(n), play_order: decimal(n), text: None, label, src }
}

fn make_point(n: usize, label: String, src: String) -> (p: NavPoint)
    ensures
        p@ == numbered_point(n as nat, label@, src@),
{
    let num = usize_to_decimal(n);
    let mut id = String::from_str("navPoint-");
    push_str(&mut id, num.as_str());
    NavPoint { id, play_order: num, text: None, nav_label: NavLabel { text: label }, content: Content { src } }
}

fn make_ncx_doc(title: String, points: Vec<NavPoint>) -> (n: Ncx)
    ensures
        n@ == ncx_of(title@, points@.map_values(|p: NavPoint| p@)),
{
    Ncx {
        xmlns: String::from_str("http://www.daisy.org/z3986/2005/ncx/"),
        text: None,
        head: Head {},
        doc_title: DocTitle { text: title },
        nav_map: NavMap { nav_point: points },
    }
}

/// The ids of manifest items, in order.
pub open spec fn item_ids(items: Seq<ItemView>) -> Seq<Seq<char>> {
    items.map_values(|i: ItemView| i.id)
}

/// The position of the first manifest item whose id is `id`.
pub fn item_position(items: &[Item], id: &str) -> (r: Option<usize>)
    ensures
        match r {
            Some(i) => i < items@.len() && position_of(item_ids(items@.map_values(|t: Item| t@)), id@) == Some(i as int),
            None => position_of(item_ids(items@.map_values(|t: Item| t@)), id@) is None,
        },
{
    let ghost s = item_ids(items@.map_values(|t: Item| t@));
    let mut i: usize = 0;
    while i < items.len()
        invariant
            i <= items@.len(),
            s == item_ids(items@.map_values(|t: Item| t@)),
            forall|k: int| 0 <= k < i ==> s[k] != id@,
        decreases items@.len() - i,
    {
        if same_text(items[i].id.as_str(), id) {
            proof {
                lemma_position_of(s, id@, i as int);
            }
            return Some(i);
        }
        i = i + 1;
    }
    proof {
        lemma_position_of(s, id@, i as int);
    }
    None
}

/// Some spine itemref names no manifest item.
pub open spec fn spine_has_dangling_ref(pkg: PackageView) -> bool {
    exists|k: int| 0 <= k < pkg.idrefs.len() && position_of(item_ids(pkg.items), #[trigger] pkg.idrefs[k]) is None
}

/// The entry made for spine position `k`: chapter `k + 1`, pointing at the
/// manifest item the itemref names.
pub open spec fn spine_point(pkg: PackageView, k: int) -> NavPointView {
    let n = (k + 1) as nat;
    let item = pkg.items[position_of(item_ids(pkg.items), pkg.idrefs[k])->0];
    numbered_point(n, "Chapter "@ + decimal(n), item.href)
}

/// What building an NCX table from the spine gives: an error when an itemref
/// names no manifest item or when the spine is empty, otherwise one entry
/// "Chapter n" per itemref, titled by the package title.
pub open spec fn spine_ncx(pkg: PackageView) -> Result<NcxView, Seq<char>> {
    if spine_has_dangling_ref(pkg) {
        Err("Spine references missing manifest item"@)
    } else if pkg.idrefs.len() == 0 {
        Err("Spine contains no items"@)
    } else {
        Ok(ncx_of(pkg.title, Seq::new(pkg.idrefs.len(), |k: int| spine_point(pkg, k))))
    }
}

/// Builds an NCX table from the spine: entry `n` (from 1) is labelled
/// "Chapter n" and points at the manifest item that the `n`th itemref names.
pub fn spine_to_ncx(opf: &Package) -> (r: Result<Ncx, String>)
    ensures
        match r {
            Ok(n) => spine_ncx(opf@) == Ok::<NcxView, Seq<char>>(n@),
            Err(m) => spine_ncx(opf@) == Err::<NcxView, Seq<char>>(m@),
        },
{
    let ghost pkg = opf@;
    let refs = &opf.spine.itemref;
    let items = &opf.manifest.item;
    let mut points: Vec<NavPoint> = Vec::new();
    let mut index: usize = 0;
    while index < refs.len()
        invariant
            pkg == opf@,
            refs@ == opf.spine.itemref@,
            items@ == opf.manifest.item@,
            index <= refs@.len(),
            points@.len() == index,
            forall|k: int| 0 <= k < index ==> position_of(item_ids(pkg.items), #[trigger] pkg.idrefs[k]) is Some,
            forall|k: int| 0 <= k < index ==> #[trigger] points@[k]@ == spine_point(pkg, k),
        decreases refs@.len() - index,
    {
        let idref = refs[index].idref.as_str();
        assert(idref@ == pkg.idrefs[index as int]);
        let pos = item_position(items.as_slice(), idref);
        match pos {
            None => {
                assert(position_of(item_ids(pkg.items), pkg.idrefs[index as int]) is None);
                assert(spine_has_dangling_ref(pkg));
                return Err(String::from_str("Spine references missing manifest item"));
            },
            Some(p) => {
                let n = index + 1;
                let label_num = usize_to_decimal(n);
                let mut label = String::from_str("Chapter ");
                push_str(&mut label, label_num.as_str());
                let point = make_point(n, label, items[p].href.clone());
                points.push(point);
            },
        }
        index = index + 1;
    }
    assert(!spine_has_dangling_ref(pkg));
    if points.len() == 0 {
        return Err(String::from_str("Spine contains no items"));
    }
    let ncx = make_ncx_doc(opf.metadata.title.clone(), points);
    assert(ncx@.points =~= Seq::new(pkg.idrefs.len(), |k: int| spine_point(pkg, k)));
    Ok(ncx)
}

/// `s` holds a `%`, which starts an escape.
pub open spec fn has_percent_escape(s: Seq<char>) -> bool {
    s.contains('%')
}

/// What percent-decoding `s` gives (`urlencoding::decode`): the decoded text,
/// or the message of the error when the decoded bytes are not UTF-8.
pub uninterp spec fn percent_decoded(s: Seq<char>) -> Result<Seq<char>, Seq<char>>;

/// `urlencoding::decode`: decodes `%xx` escapes; the result is named by
/// `percent_decoded`, the error turned into its message. Text without `%`
/// comes back unchanged (the source returns the input as it is when it finds
/// no `%`).
#[verifier::external_body]
fn url_decode(s: &str) -> (r: Result<String, String>)
    ensures
        text_result(r) == percent_decoded(s@),
        text_result(r) == (if has_percent_escape(s@) { percent_decoded(s@) } else { Ok::<Seq<char>, Seq<char>>(s@) }),
{
    match urlencoding::decode(s) {
        Ok(t) => Ok(t.into_owned()),
        Err(e) => Err(e.to_string()),
    }
}

/// The link target and the text of a list entry (both empty when the entry
/// has no link).
pub open spec fn link_parts(li: Option<LinkView>) -> (Seq<char>, Seq<char>) {
    match li {
        Some(l) => (l.href, match l.text {
            Some(t) => t,
            None => Seq::empty(),
        }),
        None => (Seq::empty(), Seq::empty()),
    }
}

/// The entry numbered `n` made from a list entry, or why it cannot be made:
/// the decoding error, an empty label, a label of 100 bytes or more, or an
/// empty target.
pub open spec fn nav_entry_point(li: Option<LinkView>, n: nat) -> Result<NavPointView, Seq<char>> {
    let (href, text) = link_parts(li);
    match percent_decoded(trimmed(href)) {
        Err(e) => Err(e),
        Ok(target) => {
            let label = trimmed(text);
            if label.len() == 0 {
                Err("Nav entry text is empty"@)
            } else if vstd::utf8::encode_utf8(label).len() as usize >= 100 {
                Err("Nav entry text too long"@)
            } else if target.len() == 0 {
                Err("Nav entry href is empty"@)
            } else {
                Ok(numbered_point(n, label, target))
            }
        },
    }
}

/// The entries made from `lis`, numbered from `start + 1`, or the first
/// error.
pub open spec fn nav_points_from(lis: Seq<Option<LinkView>>, start: nat) -> Result<Seq<NavPointView>, Seq<char>>
    decreases lis.len(),
{
    if lis.len() == 0 {
        Ok(Seq::empty())
    } else {
        match nav_entry_point(lis[0], start + 1) {
            Err(e) => Err(e),
            Ok(p) => match nav_points_from(lis.drop_first(), start + 1) {
                Err(e) => Err(e),
                Ok(ps) => Ok(seq![p] + ps),
            },
        }
    }
}

/// What converting a `nav` element gives: an error unless its `epub:type` is
/// "toc", the first entry error, an error when it has no entries, and
/// otherwise the NCX document titled `head`.
pub open spec fn nav_ncx(epub_type: Seq<char>, lis: Seq<Option<LinkView>>, head: Seq<char>) -> Result<NcxView, Seq<char>> {
    if epub_type != "toc"@ {
        Err("Nav is not a TOC (epub:type != toc)"@)
    } else {
        match nav_points_from(lis, 0) {
            Err(e) => Err(e),
            Ok(ps) => if ps.len() == 0 {
                Err("Nav contains no entries"@)
            } else {
                Ok(ncx_of(head, ps))
            },
        }
    }
}

fn nav_entry(li: &crate::library::nav_model::Li, n: usize) -> (r: Result<NavPoint, String>)
    ensures
        match r {
            Ok(p) => nav_entry_point(li@, n as nat) == Ok::<NavPointView, Seq<char>>(p@),
            Err(m) => nav_entry_point(li@, n as nat) == Err::<NavPointView, Seq<char>>(m@),
        },
{
    let (href, text) = match &li.a {
        Some(a) => (a.href.clone(), match &a.text {
            Some(t) => t.clone(),
            None => String::new(),
        }),
        None => (String::new(), String::new()),
    };
    assert(link_parts(li@) == (href@, text@));
    let raw = trim(href.as_str());
    let target = match url_decode(raw.as_str()) {
        Ok(t) => t,
        Err(e) => return Err(e),
    };
    let label = trim(text.as_str());
    if label.as_str().is_empty() {
        return Err(String::from_str("Nav entry text is empty"));
    }
    if label.as_str().len() >= 100 {
        return Err(String::from_str("Nav entry text too long"));
    }
    if target.as_str().is_empty() {
        return Err(String::from_str("Nav entry href is empty"));
    }
    Ok(make_point(n, label, target))
}

/// Converts the `nav` element of type "toc" of a navigation document into an
/// NCX table titled `head`: entry `n` (from 1) takes the trimmed link text as
/// label and the trimmed, percent-decoded link target as source.
pub fn nav_to_ncx(nav: &Nav, head: String) -> (r: Result<Ncx, String>)
    requires
        nav.ol.li@.len() < usize::MAX,
    ensures
        match r {
            Ok(n) => nav_ncx(nav.epub_type@, nav.ol.li@.map_values(|l: crate::library::nav_model::Li| l@), head@)
                == Ok::<NcxView, Seq<char>>(n@),
            Err(m) => nav_ncx(nav.epub_type@, nav.ol.li@.map_values(|l: crate::library::nav_model::Li| l@), head@)
                == Err::<NcxView, Seq<char>>(m@),
        },
{
    if !same_text(nav.epub_type.as_str(), "toc") {
        return Err(String::from_str("Nav is not a TOC (epub:type != toc)"));
    }
    let ghost lis = nav.ol.li@.map_values(|l: crate::library::nav_model::Li| l@);
    let lis_exec = &nav.ol.li;
    let mut points: Vec<NavPoint> = Vec::new();
    let mut index: usize = 0;
    assert(lis.subrange(0, lis.len() as int) =~= lis);
    while index < lis_exec.len()
        invariant
            lis_exec@ == nav.ol.li@,
            lis == nav.ol.li@.map_values(|l: crate::library::nav_model::Li| l@),
            lis_exec@.len() < usize::MAX,
            nav.epub_type@ == "toc"@,
            index <= lis_exec@.len(),
            nav_points_from(lis, 0) == match nav_points_from(lis.subrange(index as int, lis.len() as int), index as nat) {
                Ok(ps) => Ok(points@.map_values(|p: NavPoint| p@) + ps),
                Err(e) => Err(e),
            },
        decreases lis_exec@.len() - index,
    {
        let ghost rest = lis.subrange(index as int, lis.len() as int);
        assert(rest[0] == lis_exec@[index as int]@);
        assert(rest.drop_first() =~= lis.subrange(index + 1, lis.len() as int));
        match nav_entry(&lis_exec[index], index + 1) {
            Err(e) => {
                assert(nav_points_from(rest, index as nat) == Err::<Seq<NavPointView>, Seq<char>>(e@));
                return Err(e);
            },
            Ok(p) => {
                let ghost before = points@.map_values(|q: NavPoint| q@);
                points.push(p);
                proof {
                    assert(points@.map_values(|q: NavPoint| q@) =~= before.push(p@));
                    let tail = nav_points_from(rest.drop_first(), (index + 1) as nat);
                    if let Ok(ps) = tail {
                        assert(before + (seq![p@] + ps) =~= before.push(p@) + ps);
                    }
                }
            },
        }
        index = index + 1;
    }
    assert(lis.subrange(index as int, lis.len() as int) =~= Seq::<Option<LinkView>>::empty());
    assert(points@.map_values(|p: NavPoint| p@) + Seq::<NavPointView>::empty() =~= points@.map_values(|p: NavPoint| p@));
    if points.len() == 0 {
        return Err(String::from_str("Nav contains no entries"));
    }
    Ok(make_ncx_doc(head, points))
}

/// Finds the manifest item that the repair takes for the navigation
/// document: the first whose id contains "nav.".
pub fn find_nav_item(opf: &Package) -> (r: Option<usize>)
    ensures
        match r {
            Some(k) => k < opf@.items.len()
                && names_nav_document(opf@.items[k as int].id)
                && forall|j: int| 0 <= j < k ==> !names_nav_document(#[trigger] opf@.items[j].id),
            None => forall|j: int| 0 <= j < opf@.items.len() ==> !names_nav_document(#[trigger] opf@.items[j].id),
        },
{
    let items = &opf.manifest.item;
    let mut k: usize = 0;
    while k < items.len()
        invariant
            items@ == opf.manifest.item@,
            k <= items@.len(),
            forall|j: int| 0 <= j < k ==> !names_nav_document(#[trigger] opf@.items[j].id),
        decreases items@.len() - k,
    {
        if text_contains(items[k].id.as_str(), "nav.") {
            return Some(k);
        }
        k = k + 1;
    }
    None
}

/// The id names the navigation document: it contains "nav.".
pub open spec fn names_nav_document(id: Seq<char>) -> bool {
    crate::text::contains_seq(id, "nav."@)
}

/// Finds the `nav` element of type "toc" in a navigation document.
pub fn find_toc_nav(html: &Html) -> (r: Result<usize, String>)
    ensures
        match r {
            Ok(k) => k < html.body.nav@.len() && html.body.nav@[k as int].epub_type@ == "toc"@
                && forall|j: int| 0 <= j < k ==> (#[trigger] html.body.nav@[j]).epub_type@ != "toc"@,
            Err(m) => m@ == "No nav with epub:type='toc' found"@
                && forall|j: int| 0 <= j < html.body.nav@.len() ==> (#[trigger] html.body.nav@[j]).epub_type@ != "toc"@,
        },
{
    let navs = &html.body.nav;
    let mut k: usize = 0;
    while k < navs.len()
        invariant
            navs@ == html.body.nav@,
            k <= navs@.len(),
            forall|j: int| 0 <= j < k ==> (#[trigger] html.body.nav@[j]).epub_type@ != "toc"@,
        decreases navs@.len() - k,
    {
        if same_text(navs[k].epub_type.as_str(), "toc") {
            return Ok(k);
        }
        k = k + 1;
    }
    Err(String::from_str("No nav with epub:type='toc' found"))
}

/// What `std::path::Path::parent` gives for `p`.
pub uninterp spec fn path_parent(p: Seq<char>) -> Option<Seq<char>>;

/// `std::path::Path::parent`; named by `path_parent`.
#[verifier::external_body]
fn parent_of(p: &str) -> (r: Option<String>)
    ensures
        crate::text::opt_view(r) == path_parent(p@),
{
    std::path::Path::new(p).parent().map(|q| q.to_string_lossy().into_owned())
}

/// What `pathdiff::diff_paths(path, base)` gives: `path` relative to `base`.
pub uninterp spec fn path_difference(path: Seq<char>, base: Seq<char>) -> Option<Seq<char>>;

/// `pathdiff::diff_paths`; named by `path_difference`.
#[verifier::external_body]
fn diff_paths(path: &str, base: &str) -> (r: Option<String>)
    ensures
        crate::text::opt_view(r) == path_difference(path@, base@),
{
    pathdiff::diff_paths(path, base).map(|d| d.to_string_lossy().into_owned())
}

/// Where a regenerated NCX file goes and how the package document refers to
/// it: next to `anchor_file`, named `toc.ncx`, and relative to the package
/// document's directory.
pub open spec fn toc_placement_outcome(anchor_file: Seq<char>, opf_path: Seq<char>) -> Result<(Seq<char>, Seq<char>), Seq<char>> {
    let toc_path = crate::library::verifiers::file_name_replaced(anchor_file, "toc.ncx"@);
    match path_parent(opf_path) {
        None => Err("opf has no parent"@),
        Some(dir) => match path_difference(toc_path, dir) {
            None => Err("could not calculate the path diff"@),
            Some(rel) => Ok((toc_path, rel)),
        },
    }
}

/// Places a regenerated NCX file: `toc.ncx` next to `anchor_file`, with its
/// path relative to the directory of the package document at `opf_path`.
pub fn toc_placement(anchor_file: &str, opf_path: &str) -> (r: Result<(String, String), String>)
    ensures
        match r {
            Ok((toc, rel)) => toc_placement_outcome(anchor_file@, opf_path@) == Ok::<(Seq<char>, Seq<char>), Seq<char>>((toc@, rel@)),
            Err(m) => toc_placement_outcome(anchor_file@, opf_path@) == Err::<(Seq<char>, Seq<char>), Seq<char>>(m@),
        },
{
    let toc_path = crate::library::verifiers::with_file_name(anchor_file, "toc.ncx");
    let dir = match parent_of(opf_path) {
        Some(d) => d,
        None => return Err(String::from_str("opf has no parent")),
    };
    match diff_paths(toc_path.as_str(), dir.as_str()) {
        Some(rel) => Ok((toc_path, rel)),
        None => Err(String::from_str("could not calculate the path diff")),
    }
}

/// The entries made from a navigation list are numbered in order from
/// `start + 1`.
pub proof fn lemma_nav_points_numbered(lis: Seq<Option<LinkView>>, start: nat)
    ensures
        nav_points_from(lis, start) matches Ok(ps) ==> {
            &&& ps.len() == lis.len()
            &&& forall|k: int| 0 <= k < ps.len() ==> (#[trigger] ps[k]).play_order == decimal((start + k + 1) as nat)
        },
    decreases lis.len(),
{
    if lis.len() > 0 {
        lemma_nav_points_numbered(lis.drop_first(), start + 1);
        if let Ok(ps) = nav_points_from(lis, start) {
            if let Ok(p) = nav_entry_point(lis[0], start + 1) {
                if let Ok(rest) = nav_points_from(lis.drop_first(), start + 1) {
                    assert(ps == seq![p] + rest);
                    assert forall|k: int| 0 <= k < ps.len() implies (#[trigger] ps[k]).play_order == decimal((start + k + 1) as nat) by {
                        if k > 0 {
                            assert(ps[k] == rest[k - 1]);
                        }
                    }
                }
            }
        }
    }
}

/// Where a pass over a package document stands: inside the manifest or not,
/// and whether the manifest has shown an item with id `ncx`.
pub struct OpfPass {
    pub inside_manifest: bool,
    pub manifest_has_ncx: bool,
}

/// The pass before the first event.
pub open spec fn opf_pass_start() -> OpfPass {
    OpfPass { inside_manifest: false, manifest_has_ncx: false }
}

/// The content of the manifest item added for an NCX table at `toc_path`.
pub open spec fn ncx_item_content(toc_path: Seq<char>) -> Seq<char> {
    pushed_attribute(
        pushed_attribute(pushed_attribute("item"@, "id"@, "ncx"@), "href"@, toc_path),
        "media-type"@,
        "application/x-dtbncx+xml"@,
    )
}

/// Whether some attribute is named `key`.
pub open spec fn key_listed(attrs: Seq<(Seq<char>, Seq<char>)>, key: Seq<char>) -> bool {
    exists|k: int| 0 <= k < attrs.len() && (#[trigger] attrs[k]).0 == key
}

/// Whether some attribute is named `key` with the value `value`.
pub open spec fn pair_listed(attrs: Seq<(Seq<char>, Seq<char>)>, key: Seq<char>, value: Seq<char>) -> bool {
    exists|k: int| 0 <= k < attrs.len() && (#[trigger] attrs[k]).0 == key && attrs[k].1 == value
}

/// Whether some attribute is `id` with the value `ncx`.
pub open spec fn declares_ncx(attrs: Seq<(Seq<char>, Seq<char>)>) -> bool {
    pair_listed(attrs, "id"@, "ncx"@)
}

/// Whether some attribute is named `toc`.
pub open spec fn names_toc(attrs: Seq<(Seq<char>, Seq<char>)>) -> bool {
    key_listed(attrs, "toc"@)
}

/// Whether the pass consults a step's attributes: those of an empty `item`
/// inside the manifest, and those of the opening `spine` tag.
pub open spec fn opf_step_reads_attributes(p: OpfPass, s: XmlStepView) -> bool {
    match s {
        XmlStepView::Open(_, n) => n == "spine"@,
        XmlStepView::Empty(_, n) => p.inside_manifest && n == "item"@,
        _ => false,
    }
}

/// One step of the pass that points a package document at an NCX table at
/// `toc`, with the step's attributes as written: the opening `manifest` tag
/// enters the manifest; an empty `item` inside it with `id="ncx"` marks the
/// table as listed; the closing `manifest` tag leaves it, after an empty
/// `item` for the table where none was listed; the opening `spine` tag gets
/// `toc="ncx"`, in place of its attributes where one of them is `toc`. Every
/// step is written back as quick_xml writes its event. The result is the pass
/// after the step and the text written, or the error in reading the
/// attributes it consults.
pub open spec fn opf_step(p: OpfPass, s: XmlStepView, attrs: Result<Seq<(Seq<char>, Seq<char>)>, Seq<char>>, toc: Seq<char>) -> Result<(OpfPass, Seq<char>), Seq<char>> {
    match s {
        XmlStepView::Open(c, n) => if n == "manifest"@ {
            Ok((OpfPass { inside_manifest: true, ..p }, step_text(s)))
        } else if n == "spine"@ {
            match attrs {
                Ok(a) => Ok((p, step_text(XmlStepView::Open(pushed_attribute(if names_toc(a) { n } else { c }, "toc"@, "ncx"@), n)))),
                Err(m) => Err(m),
            }
        } else {
            Ok((p, step_text(s)))
        },
        XmlStepView::Close(n) => if n == "manifest"@ {
            let added = if p.manifest_has_ncx { Seq::empty() } else { step_text(XmlStepView::Empty(ncx_item_content(toc), "item"@)) };
            Ok((OpfPass { inside_manifest: false, ..p }, added + step_text(s)))
        } else {
            Ok((p, step_text(s)))
        },
        XmlStepView::Empty(_, n) => if p.inside_manifest && n == "item"@ {
            match attrs {
                Ok(a) => Ok((OpfPass { manifest_has_ncx: p.manifest_has_ncx || declares_ncx(a), ..p }, step_text(s))),
                Err(m) => Err(m),
            }
        } else {
            Ok((p, step_text(s)))
        },
        _ => Ok((p, step_text(s))),
    }
}

/// The attributes of a step as written (none for a step that is not a tag).
pub open spec fn step_attributes(s: XmlStepView) -> Result<Seq<(Seq<char>, Seq<char>)>, Seq<char>> {
    match s {
        XmlStepView::Open(c, n) => raw_attributes_of(c, n),
        XmlStepView::Empty(c, n) => raw_attributes_of(c, n),
        _ => Ok(Seq::empty()),
    }
}

/// The pass over `steps` from `p`, after `written`: the text written up to
/// the end of the document, or the first error (of reading or in the
/// attributes consulted).
pub open spec fn opf_pass(steps: Seq<XmlStepView>, p: OpfPass, toc: Seq<char>, written: Seq<char>) -> Result<Seq<char>, Seq<char>>
    decreases steps.len(),
{
    if steps.len() == 0 {
        Ok(written)
    } else {
        match steps[0] {
            XmlStepView::End => Ok(written),
            XmlStepView::Failed(m) => Err(m),
            s => match opf_step(p, s, step_attributes(s), toc) {
                Ok((q, t)) => opf_pass(steps.drop_first(), q, toc, written + t),
                Err(m) => Err(m),
            },
        }
    }
}

/// A package document pointed at an NCX table at `toc`.
pub open spec fn opf_updated(xml: Seq<char>, toc: Seq<char>) -> Result<Seq<char>, Seq<char>> {
    opf_pass(document_steps(xml), opf_pass_start(), toc, Seq::empty())
}

fn has_key(attrs: &Vec<(String, String)>, key: &str) -> (r: bool)
    ensures
        r == key_listed(pairs_view(attrs@), key@),
{
    let ghost av = pairs_view(attrs@);
    let mut i: usize = 0;
    while i < attrs.len()
        invariant
            i <= attrs@.len(),
            av == pairs_view(attrs@),
            forall|k: int| 0 <= k < i ==> (#[trigger] av[k]).0 != key@,
        decreases attrs@.len() - i,
    {
        assert(av[i as int] == pair_view(attrs@[i as int]));
        if same_text(attrs[i].0.as_str(), key) {
            return true;
        }
        i = i + 1;
    }
    false
}

fn has_pair(attrs: &Vec<(String, String)>, key: &str, value: &str) -> (r: bool)
    ensures
        r == pair_listed(pairs_view(attrs@), key@, value@),
{
    let ghost av = pairs_view(attrs@);
    let mut i: usize = 0;
    while i < attrs.len()
        invariant
            i <= attrs@.len(),
            av == pairs_view(attrs@),
            forall|k: int| 0 <= k < i ==> !((#[trigger] av[k]).0 == key@ && av[k].1 == value@),
        decreases attrs@.len() - i,
    {
        assert(av[i as int] == pair_view(attrs@[i as int]));
        if same_text(attrs[i].0.as_str(), key) && same_text(attrs[i].1.as_str(), value) {
            return true;
        }
        i = i + 1;
    }
    false
}

fn ncx_item(toc_path: &str) -> (r: String)
    ensures
        r@ == ncx_item_content(toc_path@),
{
    let with_id = with_attribute("item", "item", "id", "ncx");
    let with_href = with_attribute(with_id.as_str(), "item", "href", toc_path);
    with_attribute(with_href.as_str(), "item", "media-type", "application/x-dtbncx+xml")
}

/// Whether the pass consults the attributes of `s` (see `opf_step`).
pub fn opf_step_reads(pass: &OpfPass, s: &XmlStep) -> (r: bool)
    ensures
        r == opf_step_reads_attributes(*pass, s@),
{
    match s {
        XmlStep::Open(_, n) => same_text(n.as_str(), "spine"),
        XmlStep::Empty(_, n) => pass.inside_manifest && same_text(n.as_str(), "item"),
        _ => false,
    }
}

/// One step of the pass that points a package document at an NCX table at
/// `toc_path` (see `opf_step`), given the step's attributes as written: the
/// text written for the step, or the error in the attributes it consults.
pub fn opf_update_step(pass: &mut OpfPass, s: &XmlStep, attrs: &Result<Vec<(String, String)>, String>, toc_path: &str) -> (r: Result<String, String>)
    ensures
        match opf_step(*old(pass), s@, raw_view(*attrs), toc_path@) {
            Ok((q, t)) => r matches Ok(w) && w@ == t && *final(pass) == q,
            Err(m) => r matches Err(e) && e@ == m,
        },
{
    let mut out = String::new();
    match s {
        XmlStep::Open(c, n) => {
            if same_text(n.as_str(), "manifest") {
                pass.inside_manifest = true;
                write_step(&mut out, s);
            } else if same_text(n.as_str(), "spine") {
                match attrs {
                    Ok(a) => {
                        let base = if has_key(a, "toc") { n.clone() } else { c.clone() };
                        let content = with_attribute(base.as_str(), n.as_str(), "toc", "ncx");
                        write_step(&mut out, &XmlStep::Open(content, n.clone()));
                    },
                    Err(m) => {
                        return Err(m.clone());
                    },
                }
            } else {
                write_step(&mut out, s);
            }
        },
        XmlStep::Close(n) => {
            if same_text(n.as_str(), "manifest") {
                if !pass.manifest_has_ncx {
                    let item = ncx_item(toc_path);
                    write_step(&mut out, &XmlStep::Empty(item, String::from_str("item")));
                }
                pass.inside_manifest = false;
            }
            write_step(&mut out, s);
        },
        XmlStep::Empty(_, n) => {
            if pass.inside_manifest && same_text(n.as_str(), "item") {
                match attrs {
                    Ok(a) => {
                        if has_pair(a, "id", "ncx") {
                            pass.manifest_has_ncx = true;
                        }
                    },
                    Err(m) => {
                        return Err(m.clone());
                    },
                }
            }
            write_step(&mut out, s);
        },
        _ => {
            write_step(&mut out, s);
        },
    }
    Ok(out)
}

fn tag_attributes(s: &XmlStep) -> (r: Result<Vec<(String, String)>, String>)
    requires
        tag_named(s@),
    ensures
        raw_view(r) == step_attributes(s@),
{
    match s {
        XmlStep::Open(c, n) => raw_attributes(c.as_str(), n.as_str()),
        XmlStep::Empty(c, n) => raw_attributes(c.as_str(), n.as_str()),
        _ => {
            let none: Vec<(String, String)> = Vec::new();
            assert(pairs_view(none@) =~= Seq::<(Seq<char>, Seq<char>)>::empty());
            Ok(none)
        },
    }
}

proof fn lemma_unread_attributes(p: OpfPass, s: XmlStepView, a: Result<Seq<(Seq<char>, Seq<char>)>, Seq<char>>, b: Result<Seq<(Seq<char>, Seq<char>)>, Seq<char>>, toc: Seq<char>)
    requires
        !opf_step_reads_attributes(p, s),
    ensures
        opf_step(p, s, a, toc) == opf_step(p, s, b, toc),
{
}

/// Points a package document at an NCX table at `toc_path`, reading it event
/// by event and writing each event back (see `opf_step`): the manifest gets
/// an item for the table unless it lists one with id `ncx`, and the spine
/// refers to it. A read error, or an error in the attributes consulted, is
/// returned with its message.
pub fn update_opf(opf_xml: &str, toc_path: &str) -> (r: Result<String, String>)
    ensures
        text_result(r) == opf_updated(opf_xml@, toc_path@),
{
    let steps = read_steps(opf_xml);
    let ghost read = xml_step_views(steps@);
    let mut pass = OpfPass { inside_manifest: false, manifest_has_ncx: false };
    let mut out = String::new();
    let mut i: usize = 0;
    assert(read.subrange(0, read.len() as int) =~= read);
    while i < steps.len()
        invariant
            i <= steps@.len(),
            read == xml_step_views(steps@),
            well_formed_xml_steps(read),
            opf_updated(opf_xml@, toc_path@) == opf_pass(read.subrange(i as int, read.len() as int), pass, toc_path@, out@),
        decreases steps@.len() - i,
    {
        let ghost rest = read.subrange(i as int, read.len() as int);
        assert(rest[0] == steps@[i as int]@);
        assert(rest.drop_first() =~= read.subrange(i + 1, read.len() as int));
        let s = &steps[i];
        match s {
            XmlStep::End => {
                return Ok(out);
            },
            XmlStep::Failed(m) => {
                return Err(m.clone());
            },
            _ => {},
        }
        let attrs = if opf_step_reads(&pass, s) {
            tag_attributes(s)
        } else {
            Ok(Vec::new())
        };
        proof {
            if !opf_step_reads_attributes(pass, s@) {
                lemma_unread_attributes(pass, s@, raw_view(attrs), step_attributes(s@), toc_path@);
            }
        }
        match opf_update_step(&mut pass, s, &attrs, toc_path) {
            Ok(t) => {
                push_str(&mut out, t.as_str());
            },
            Err(m) => {
                return Err(m);
            },
        }
        i = i + 1;
    }
    assert(read.subrange(i as int, read.len() as int) =~= Seq::<XmlStepView>::empty());
    Ok(out)
}

} // verus!
