//! Reading a book's title, author and calibre series out of its package
//! document, event by event.

use crate::library::metadata::MetaStep::{Close, Empty, End, Failed, Open, Other, Text};
use crate::library::xml_steps::{
    attribute_view, checked_attributes, checked_attributes_of, document_steps, read_steps, tag_named,
    well_formed_xml_steps, xml_step_views, XmlStep, XmlStepView,
};
use vstd::prelude::*;

use crate::library::info_sender::ends_with;
use crate::text::{opt_view, same_text, text_ends_with};

verus! {

/// One result of reading the next event of a package document, with what the
/// metadata scan reads of it.
pub enum MetaStep {
    /// An opening tag and its name.
    Open(String),
    /// An empty-element tag, its name and its attributes (absent where an
    /// attribute could not be read or unescaped).
    Empty(String, Vec<Option<(String, String)>>),
    /// Text content.
    Text(String),
    /// A closing tag and its name.
    Close(String),
    /// Any other event.
    Other,
    /// The end of the document.
    End,
    /// A read error and its message.
    Failed(String),
}

/// What a step holds.
pub enum MetaStepView {
    Open(Seq<char>),
    Empty(Seq<char>, Seq<Option<(Seq<char>, Seq<char>)>>),
    Text(Seq<char>),
    Close(Seq<char>),
    Other,
    End,
    Failed(Seq<char>),
}

impl View for MetaStep {
    type V = MetaStepView;

    open spec fn view(&self) -> MetaStepView {
        match self {
            MetaStep::Open(n) => MetaStepView::Open(n@),
            MetaStep::Empty(n, attrs) => MetaStepView::Empty(n@, attrs@.map_values(|a: Option<(String, String)>| attribute_view(a))),
            MetaStep::Text(t) => MetaStepView::Text(t@),
            MetaStep::Close(n) => MetaStepView::Close(n@),
            MetaStep::Other => MetaStepView::Other,
            MetaStep::End => MetaStepView::End,
            MetaStep::Failed(m) => MetaStepView::Failed(m@),
        }
    }
}

/// A step that ends the reading: the end of the document or an error.
pub open spec fn is_final_step(s: MetaStepView) -> bool {
    s is End || s is Failed
}

/// What the metadata scan reads of a step of the document: the names of
/// tags, the attributes of empty tags (read with checks and unescaped), text,
/// and the end of the document or the read error; any other event alike.
pub open spec fn meta_step_of(s: XmlStepView) -> MetaStepView {
    match s {
        XmlStepView::Open(_, n) => MetaStepView::Open(n),
        XmlStepView::Empty(c, n) => MetaStepView::Empty(n, checked_attributes_of(c, n)),
        XmlStepView::Text(t) => MetaStepView::Text(t),
        XmlStepView::Close(n) => MetaStepView::Close(n),
        XmlStepView::End => MetaStepView::End,
        XmlStepView::Failed(m) => MetaStepView::Failed(m),
        _ => MetaStepView::Other,
    }
}

fn meta_step(s: &XmlStep) -> (m: MetaStep)
    requires
        tag_named(s@),
    ensures
        m@ == meta_step_of(s@),
{
    match s {
        XmlStep::Open(_, n) => Open(n.clone()),
        XmlStep::Empty(c, n) => Empty(n.clone(), checked_attributes(c.as_str(), n.as_str())),
        XmlStep::Text(t) => Text(t.clone()),
        XmlStep::Close(n) => Close(n.clone()),
        XmlStep::End => End,
        XmlStep::Failed(m) => Failed(m.clone()),
        _ => Other,
    }
}

/// What the metadata scan has found so far, and whether it is inside a title
/// or creator element.
pub struct MetaScan {
    pub title: Option<String>,
    pub author: Option<String>,
    pub series: Option<String>,
    pub series_index: Option<String>,
    pub inside_title: bool,
    pub inside_creator: bool,
}

/// What a metadata scan holds.
pub struct MetaScanView {
    pub title: Option<Seq<char>>,
    pub author: Option<Seq<char>>,
    pub series: Option<Seq<char>>,
    pub series_index: Option<Seq<char>>,
    pub inside_title: bool,
    pub inside_creator: bool,
}

impl View for MetaScan {
    type V = MetaScanView;

    open spec fn view(&self) -> MetaScanView {
        MetaScanView {
            title: opt_view(self.title),
            author: opt_view(self.author),
            series: opt_view(self.series),
            series_index: opt_view(self.series_index),
            inside_title: self.inside_title,
            inside_creator: self.inside_creator,
        }
    }
}

/// The value of the last readable attribute named `key`.
pub open spec fn last_value(attrs: Seq<Option<(Seq<char>, Seq<char>)>>, key: Seq<char>) -> Option<Seq<char>>
    decreases attrs.len(),
{
    if attrs.len() == 0 {
        None
    } else {
        match attrs.last() {
            Some((k, v)) => if k == key {
                Some(v)
            } else {
                last_value(attrs.drop_last(), key)
            },
            None => last_value(attrs.drop_last(), key),
        }
    }
}

/// The scan after one step that is not final: an opening `title` or
/// `creator` element is entered while its value is still unknown, text inside
/// it becomes that value, a closing tag leaves it, and an empty `meta`
/// element named `calibre:series` or `calibre:series_index` gives the series
/// or its index as its `content`.
pub open spec fn scan_step(st: MetaScanView, s: MetaStepView) -> MetaScanView {
    match s {
        MetaStepView::Open(name) => MetaScanView {
            inside_title: if ends_with(name, "title"@) && st.title is None { true } else { st.inside_title },
            inside_creator: if ends_with(name, "creator"@) && st.author is None { true } else { st.inside_creator },
            ..st
        },
        MetaStepView::Empty(name, attrs) => if ends_with(name, "meta"@) {
            if last_value(attrs, "name"@) == Some("calibre:series"@) {
                MetaScanView { series: last_value(attrs, "content"@), ..st }
            } else if last_value(attrs, "name"@) == Some("calibre:series_index"@) {
                MetaScanView { series_index: last_value(attrs, "content"@), ..st }
            } else {
                st
            }
        } else {
            st
        },
        MetaStepView::Text(t) => MetaScanView {
            title: if st.inside_title && st.title is None { Some(t) } else { st.title },
            author: if st.inside_creator && st.author is None { Some(t) } else { st.author },
            ..st
        },
        MetaStepView::Close(name) => MetaScanView {
            inside_title: if ends_with(name, "title"@) { false } else { st.inside_title },
            inside_creator: if ends_with(name, "creator"@) { false } else { st.inside_creator },
            ..st
        },
        _ => st,
    }
}

/// The scan over `steps` from `st`: the state at the end of the document, or
/// the first read error.
pub open spec fn scan_steps(steps: Seq<MetaStepView>, st: MetaScanView) -> Result<MetaScanView, Seq<char>>
    decreases steps.len(),
{
    if steps.len() == 0 {
        Ok(st)
    } else {
        match steps[0] {
            MetaStepView::End => Ok(st),
            MetaStepView::Failed(m) => Err(m),
            _ => scan_steps(steps.drop_first(), scan_step(st, steps[0])),
        }
    }
}

/// The scan before any step: nothing found, outside every element.
pub open spec fn empty_scan() -> MetaScanView {
    MetaScanView { title: None, author: None, series: None, series_index: None, inside_title: false, inside_creator: false }
}

fn find_last_value(attrs: &Vec<Option<(String, String)>>, key: &str) -> (r: Option<String>)
    ensures
        opt_view(r) == last_value(attrs@.map_values(|a: Option<(String, String)>| attribute_view(a)), key@),
{
    let ghost av = attrs@.map_values(|a: Option<(String, String)>| attribute_view(a));
    assert(av.take(av.len() as int) =~= av);
    let mut i: usize = attrs.len();
    while i > 0
        invariant
            i <= attrs@.len(),
            av == attrs@.map_values(|a: Option<(String, String)>| attribute_view(a)),
            last_value(av, key@) == last_value(av.take(i as int), key@),
        decreases i,
    {
        let ghost pre = av.take(i as int);
        assert(pre.drop_last() =~= av.take(i - 1));
        assert(pre.last() == attribute_view(attrs@[i - 1]));
        match &attrs[i - 1] {
            Some((k, v)) => {
                if same_text(k.as_str(), key) {
                    return Some(v.clone());
                }
            },
            None => {},
        }
        i = i - 1;
    }
    assert(av.take(0) =~= Seq::<Option<(Seq<char>, Seq<char>)>>::empty());
    None
}

fn apply_step(st: &mut MetaScan, s: &MetaStep)
    requires
        !is_final_step(s@),
    ensures
        final(st)@ == scan_step(old(st)@, s@),
{
    match s {
        MetaStep::Open(name) => {
            if text_ends_with(name.as_str(), "title") && st.title.is_none() {
                st.inside_title = true;
            }
            if text_ends_with(name.as_str(), "creator") && st.author.is_none() {
                st.inside_creator = true;
            }
        },
        MetaStep::Empty(name, attrs) => {
            if text_ends_with(name.as_str(), "meta") {
                let kind = find_last_value(attrs, "name");
                let is_series = match &kind {
                    Some(k) => same_text(k.as_str(), "calibre:series"),
                    None => false,
                };
                let is_index = match &kind {
                    Some(k) => same_text(k.as_str(), "calibre:series_index"),
                    None => false,
                };
                if is_series {
                    st.series = find_last_value(attrs, "content");
                } else if is_index {
                    st.series_index = find_last_value(attrs, "content");
                }
            }
        },
        MetaStep::Text(t) => {
            if st.inside_title && st.title.is_none() {
                st.title = Some(t.clone());
            }
            if st.inside_creator && st.author.is_none() {
                st.author = Some(t.clone());
            }
        },
        MetaStep::Close(name) => {
            if text_ends_with(name.as_str(), "title") {
                st.inside_title = false;
            }
            if text_ends_with(name.as_str(), "creator") {
                st.inside_creator = false;
            }
        },
        _ => {},
    }
}

/// The views of a sequence of steps.
pub open spec fn step_views(steps: Seq<MetaStep>) -> Seq<MetaStepView> {
    steps.map_values(|s: MetaStep| s@)
}

/// Scans the steps of a package document for its title, author, calibre
/// series and calibre series index (as written): the text of the first
/// `title` and of the first `creator` element (matched by the end of their
/// names), and the `content` of the last empty `meta` elements named
/// `calibre:series` and `calibre:series_index`. A read error ends the scan
/// with its message; the end of the document ends it with what was found.
pub fn scan_metadata(steps: &[MetaStep]) -> (r: Result<(Option<String>, Option<String>, Option<String>, Option<String>), String>)
    ensures
        match r {
            Ok((t, a, s, i)) => scan_steps(step_views(steps@), empty_scan()) matches Ok(v)
                && v.title == opt_view(t) && v.author == opt_view(a) && v.series == opt_view(s) && v.series_index == opt_view(i),
            Err(m) => scan_steps(step_views(steps@), empty_scan()) == Err::<MetaScanView, Seq<char>>(m@),
        },
{
    let ghost all = step_views(steps@);
    let mut st = MetaScan { title: None, author: None, series: None, series_index: None, inside_title: false, inside_creator: false };
    let mut i: usize = 0;
    assert(all.subrange(0, all.len() as int) =~= all);
    while i < steps.len()
        invariant
            i <= steps@.len(),
            all == step_views(steps@),
            scan_steps(all, empty_scan()) == scan_steps(all.subrange(i as int, all.len() as int), st@),
        decreases steps@.len() - i,
    {
        let ghost rest = all.subrange(i as int, all.len() as int);
        assert(rest[0] == steps@[i as int]@);
        assert(rest.drop_first() =~= all.subrange(i + 1, all.len() as int));
        match &steps[i] {
            MetaStep::End => {
                return Ok((st.title, st.author, st.series, st.series_index));
            },
            MetaStep::Failed(m) => {
                return Err(m.clone());
            },
            other => {
                apply_step(&mut st, other);
            },
        }
        i = i + 1;
    }
    assert(all.subrange(i as int, all.len() as int) =~= Seq::<MetaStepView>::empty());
    Ok((st.title, st.author, st.series, st.series_index))
}

/// The steps of a package document as the metadata scan reads them.
pub open spec fn document_meta_steps(xml: Seq<char>) -> Seq<MetaStepView> {
    document_steps(xml).map_values(|s: XmlStepView| meta_step_of(s))
}

/// Reads a package document and scans it for its title, author, calibre
/// series and calibre series index (see `scan_metadata`).
pub fn extract_title_author(opf_xml: &str) -> (r: Result<(Option<String>, Option<String>, Option<String>, Option<String>), String>)
    ensures
        match r {
            Ok((t, a, s, i)) => scan_steps(document_meta_steps(opf_xml@), empty_scan()) matches Ok(v)
                && v.title == opt_view(t) && v.author == opt_view(a) && v.series == opt_view(s) && v.series_index == opt_view(i),
            Err(m) => scan_steps(document_meta_steps(opf_xml@), empty_scan()) == Err::<MetaScanView, Seq<char>>(m@),
        },
{
    let steps = read_steps(opf_xml);
    let ghost read = xml_step_views(steps@);
    let mut metas: Vec<MetaStep> = Vec::new();
    let mut i: usize = 0;
    while i < steps.len()
        invariant
            i <= steps@.len(),
            read == xml_step_views(steps@),
            well_formed_xml_steps(read),
            step_views(metas@) == read.take(i as int).map_values(|s: XmlStepView| meta_step_of(s)),
        decreases steps@.len() - i,
    {
        assert(read[i as int] == steps@[i as int]@);
        let m = meta_step(&steps[i]);
        let ghost before = step_views(metas@);
        metas.push(m);
        proof {
            assert(step_views(metas@) =~= before.push(m@));
            assert(read.take(i + 1).map_values(|s: XmlStepView| meta_step_of(s))
                =~= read.take(i as int).map_values(|s: XmlStepView| meta_step_of(s)).push(meta_step_of(read[i as int])));
        }
        i = i + 1;
    }
    assert(read.take(i as int) =~= read);
    scan_metadata(metas.as_slice())
}

} // verus!
