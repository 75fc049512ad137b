//! Reading XML documents event by event with quick_xml, each event held as
//! the text it was written with, and the text quick_xml writes back for it.

use quick_xml::events::BytesStart;
use quick_xml::events::Event::{
    CData as CDataEvent, Comment as CommentEvent, Decl as DeclEvent, DocType as DocTypeEvent, Empty as EmptyTag,
    End as EndTag, Eof, GeneralRef, Start, Text as TextEvent, PI,
};

use crate::library::xml_steps::XmlStep::{
    CData, Close, Comment, Decl, DocType, Empty, End, Failed, Open, Pi, Reference, Text,
};
use vstd::prelude::*;

verus! {

#[verifier::external_type_specification]
#[verifier::external_body]
#[verifier::reject_recursive_types(R)]
pub struct ExXmlReader<R>(quick_xml::Reader<R>);

/// One result of reading the next event of a document: its kind and the text
/// between its delimiters, as written.
pub enum XmlStep {
    /// An opening tag: its content (name, then attributes) and its name.
    Open(String, String),
    /// An empty-element tag: its content and its name.
    Empty(String, String),
    /// A closing tag and its name.
    Close(String),
    /// Character data, still escaped.
    Text(String),
    /// The content of a CDATA section.
    CData(String),
    /// The content of a comment.
    Comment(String),
    /// The content of the XML declaration.
    Decl(String),
    /// The content of a processing instruction.
    Pi(String),
    /// The content of a document type declaration.
    DocType(String),
    /// The name of an entity or character reference.
    Reference(String),
    /// The end of the document.
    End,
    /// A read error and its message.
    Failed(String),
}

/// What a step holds.
pub enum XmlStepView {
    Open(Seq<char>, Seq<char>),
    Empty(Seq<char>, Seq<char>),
    Close(Seq<char>),
    Text(Seq<char>),
    CData(Seq<char>),
    Comment(Seq<char>),
    Decl(Seq<char>),
    Pi(Seq<char>),
    DocType(Seq<char>),
    Reference(Seq<char>),
    End,
    Failed(Seq<char>),
}

impl View for XmlStep {
    type V = XmlStepView;

    open spec fn view(&self) -> XmlStepView {
        match self {
            Open(c, n) => XmlStepView::Open(c@, n@),
            Empty(c, n) => XmlStepView::Empty(c@, n@),
            Close(n) => XmlStepView::Close(n@),
            Text(t) => XmlStepView::Text(t@),
            CData(t) => XmlStepView::CData(t@),
            Comment(t) => XmlStepView::Comment(t@),
            Decl(t) => XmlStepView::Decl(t@),
            Pi(t) => XmlStepView::Pi(t@),
            DocType(t) => XmlStepView::DocType(t@),
            Reference(t) => XmlStepView::Reference(t@),
            End => XmlStepView::End,
            Failed(m) => XmlStepView::Failed(m@),
        }
    }
}

/// The views of a sequence of steps.
pub open spec fn xml_step_views(steps: Seq<XmlStep>) -> Seq<XmlStepView> {
    steps.map_values(|s: XmlStep| s@)
}

/// A step that ends the reading: the end of the document or an error.
pub open spec fn is_last_step(s: XmlStepView) -> bool {
    s is End || s is Failed
}

/// A tag's name is the start of its content.
pub open spec fn tag_named(s: XmlStepView) -> bool {
    match s {
        XmlStepView::Open(c, n) => n.is_prefix_of(c),
        XmlStepView::Empty(c, n) => n.is_prefix_of(c),
        _ => true,
    }
}

/// A sequence of steps that ends with its only final step, each tag named by
/// the start of its content.
pub open spec fn well_formed_xml_steps(steps: Seq<XmlStepView>) -> bool {
    &&& steps.len() > 0
    &&& is_last_step(steps.last())
    &&& forall|i: int| 0 <= i < steps.len() - 1 ==> !is_last_step(#[trigger] steps[i])
    &&& forall|i: int| 0 <= i < steps.len() ==> tag_named(#[trigger] steps[i])
}

/// The steps that reading `xml` with `quick_xml` gives, up to and including
/// the end of the document or the first error.
pub uninterp spec fn document_steps(xml: Seq<char>) -> Seq<XmlStepView>;

/// The steps that a reader has still to give, up to and including the end of
/// the document or the first error.
pub uninterp spec fn pending_steps(r: quick_xml::Reader<&[u8]>) -> Seq<XmlStepView>;

/// `quick_xml::Reader::from_str`: a reader whose steps are those of the
/// document (named by `document_steps`); they end with the end of the
/// document or an error, since the reader reaches one or the other, and a
/// tag's name is the start of its content (`BytesStart::name`).
#[verifier::external_body]
fn reader_of(xml: &str) -> (r: quick_xml::Reader<&[u8]>)
    ensures
        pending_steps(r) == document_steps(xml@),
        well_formed_xml_steps(pending_steps(r)),
{
    quick_xml::Reader::from_str(xml)
}

/// `quick_xml::Reader::read_event`, the event converted to a step that holds
/// its text: the first of the reader's pending steps, which it leaves behind.
#[verifier::external_body]
fn next_step(r: &mut quick_xml::Reader<&[u8]>) -> (s: XmlStep)
    requires
        pending_steps(*old(r)).len() > 0,
    ensures
        s@ == pending_steps(*old(r))[0],
        pending_steps(*final(r)) == pending_steps(*old(r)).drop_first(),
{
    r.read_event().map_or_else(|e| Failed(e.to_string()), |ev| match ev {
        Start(e) => Open(e.to_string(), e.name().0.to_string()),
        EmptyTag(e) => Empty(e.to_string(), e.name().0.to_string()),
        EndTag(e) => Close(e.to_string()),
        TextEvent(e) => Text(e.to_string()),
        CDataEvent(e) => CData(e.to_string()),
        CommentEvent(e) => Comment(e.to_string()),
        DeclEvent(e) => Decl(e.to_string()),
        PI(e) => Pi(e.to_string()),
        DocTypeEvent(e) => DocType(e.to_string()),
        GeneralRef(e) => Reference(e.to_string()),
        Eof => End,
    })
}

/// Reads the steps of a document, up to and including the end of the
/// document or the first error.
pub(crate) fn read_steps(xml: &str) -> (v: Vec<XmlStep>)
    ensures
        xml_step_views(v@) == document_steps(xml@),
        well_formed_xml_steps(xml_step_views(v@)),
{
    let mut reader = reader_of(xml);
    let ghost all = document_steps(xml@);
    let mut v: Vec<XmlStep> = Vec::new();
    loop
        invariant
            all == document_steps(xml@),
            well_formed_xml_steps(all),
            well_formed_xml_steps(pending_steps(reader)),
            xml_step_views(v@) + pending_steps(reader) == all,
        decreases pending_steps(reader).len(),
    {
        let ghost before = pending_steps(reader);
        let step = next_step(&mut reader);
        let done = match &step {
            End | Failed(_) => true,
            _ => false,
        };
        let ghost old_views = xml_step_views(v@);
        v.push(step);
        proof {
            assert(xml_step_views(v@) =~= old_views.push(before[0]));
            assert(old_views.push(before[0]) + before.drop_first() =~= old_views + before);
            if !done {
                assert(before.len() > 1);
                let after = before.drop_first();
                assert(after.last() == before.last());
                assert forall|i: int| 0 <= i < after.len() - 1 implies !is_last_step(#[trigger] after[i]) by {
                    assert(after[i] == before[i + 1]);
                }
                assert forall|i: int| 0 <= i < after.len() implies tag_named(#[trigger] after[i]) by {
                    assert(after[i] == before[i + 1]);
                }
            } else {
                assert(before.len() == 1) by {
                    if before.len() > 1 {
                        assert(!is_last_step(before[0]));
                    }
                }
                assert(before.drop_first() =~= Seq::<XmlStepView>::empty());
                assert(xml_step_views(v@) =~= all);
            }
        }
        if done {
            return v;
        }
    }
}

/// An attribute's key and value.
pub open spec fn pair_view(a: (String, String)) -> (Seq<char>, Seq<char>) {
    (a.0@, a.1@)
}

/// The view of an attribute that could be read.
pub open spec fn attribute_view(a: Option<(String, String)>) -> Option<(Seq<char>, Seq<char>)> {
    match a {
        Some(p) => Some(pair_view(p)),
        None => None,
    }
}

/// The attributes of a tag with the given content and name, read with
/// quick_xml's checks and each value unescaped; absent where an attribute
/// could not be read or its value not unescaped.
pub uninterp spec fn checked_attributes_of(content: Seq<char>, name: Seq<char>) -> Seq<Option<(Seq<char>, Seq<char>)>>;

/// `quick_xml::events::BytesStart::attributes` on a tag's content, each
/// attribute's value unescaped (`Attribute::unescape_value`): the attributes
/// named by `checked_attributes_of`. The name must start the content, as it
/// does for every tag read (the iterator starts after it).
#[verifier::external_body]
pub(crate) fn checked_attributes(content: &str, name: &str) -> (a: Vec<Option<(String, String)>>)
    requires
        name@.is_prefix_of(content@),
    ensures
        a@.map_values(|p: Option<(String, String)>| attribute_view(p)) == checked_attributes_of(content@, name@),
{
    BytesStart::from_content(content, name.len()).attributes().map(|a| {
        let a = a.ok()?;
        Some((a.key.0.to_string(), a.unescape_value().ok()?.into_owned()))
    }).collect()
}

/// The views of attributes read as written.
pub open spec fn pairs_view(attrs: Seq<(String, String)>) -> Seq<(Seq<char>, Seq<char>)> {
    attrs.map_values(|p: (String, String)| pair_view(p))
}

/// The views of the attributes of a tag read as written, or of the error.
pub open spec fn raw_view(r: Result<Vec<(String, String)>, String>) -> Result<Seq<(Seq<char>, Seq<char>)>, Seq<char>> {
    match r {
        Ok(v) => Ok(pairs_view(v@)),
        Err(m) => Err(m@),
    }
}

/// The attributes of a tag with the given content and name, as written (no
/// check for repeated keys, values not unescaped), or the message of the
/// first that could not be read.
pub uninterp spec fn raw_attributes_of(content: Seq<char>, name: Seq<char>) -> Result<Seq<(Seq<char>, Seq<char>)>, Seq<char>>;

/// `quick_xml::events::BytesStart::attributes` with `with_checks(false)` on
/// a tag's content, keys and values as written: the attributes named by
/// `raw_attributes_of`, or the message of the first error. The name must
/// start the content.
#[verifier::external_body]
pub(crate) fn raw_attributes(content: &str, name: &str) -> (a: Result<Vec<(String, String)>, String>)
    requires
        name@.is_prefix_of(content@),
    ensures
        raw_view(a) == raw_attributes_of(content@, name@),
{
    let tag = BytesStart::from_content(content, name.len());
    let mut attrs = tag.attributes();
    attrs.with_checks(false).map(|a| a.map(|a| (a.key.0.to_string(), a.value.into_owned())).map_err(|e| e.to_string())).collect()
}

/// How quick_xml escapes one character of an attribute value.
pub open spec fn attribute_char_escaped(c: char) -> Seq<char> {
    if c == '<' {
        "&lt;"@
    } else if c == '>' {
        "&gt;"@
    } else if c == '&' {
        "&amp;"@
    } else if c == '\'' {
        "&apos;"@
    } else if c == '"' {
        "&quot;"@
    } else if c == '\t' {
        "&#9;"@
    } else if c == '\n' {
        "&#10;"@
    } else if c == '\r' {
        "&#13;"@
    } else {
        seq![c]
    }
}

/// An attribute value escaped by quick_xml, character by character.
pub open spec fn attribute_escaped(v: Seq<char>) -> Seq<char>
    decreases v.len(),
{
    if v.len() == 0 {
        Seq::empty()
    } else {
        attribute_char_escaped(v[0]) + attribute_escaped(v.drop_first())
    }
}

/// A tag's content with one more attribute: a space, the key, `="`, the
/// escaped value and `"`.
pub open spec fn pushed_attribute(content: Seq<char>, key: Seq<char>, value: Seq<char>) -> Seq<char> {
    content + " "@ + key + "=\""@ + attribute_escaped(value) + "\""@
}

/// `quick_xml::events::BytesStart::push_attribute` on a tag's content: the
/// value is escaped for an attribute (`escape_attribute`) and appended after
/// the key, as `pushed_attribute` says.
#[verifier::external_body]
pub(crate) fn with_attribute(content: &str, name: &str, key: &str, value: &str) -> (r: String)
    ensures
        r@ == pushed_attribute(content@, key@, value@),
{
    let mut tag = BytesStart::from_content(content, name.len());
    tag.push_attribute((key, value));
    (*tag).to_string()
}

/// The text that quick_xml's writer (without indentation) writes for a
/// step's event: its delimiters around its content.
pub open spec fn step_text(s: XmlStepView) -> Seq<char> {
    match s {
        XmlStepView::Open(c, _) => "<"@ + c + ">"@,
        XmlStepView::Empty(c, _) => "<"@ + c + "/>"@,
        XmlStepView::Close(n) => "</"@ + n + ">"@,
        XmlStepView::Text(t) => t,
        XmlStepView::CData(t) => "<![CDATA["@ + t + "]]>"@,
        XmlStepView::Comment(t) => "<!--"@ + t + "-->"@,
        XmlStepView::Decl(t) => "<?"@ + t + "?>"@,
        XmlStepView::Pi(t) => "<?"@ + t + "?>"@,
        XmlStepView::DocType(t) => "<!DOCTYPE "@ + t + ">"@,
        XmlStepView::Reference(t) => "&"@ + t + ";"@,
        XmlStepView::End => Seq::empty(),
        XmlStepView::Failed(_) => Seq::empty(),
    }
}

/// Appends to `out` the text quick_xml's writer gives a step's event.
pub fn write_step(out: &mut String, s: &XmlStep)
    ensures
        final(out)@ == old(out)@ + step_text(s@),
{
    let ghost start = out@;
    match s {
        Open(c, _) => {
            push_three(out, "<", c.as_str(), ">");
        },
        Empty(c, _) => {
            push_three(out, "<", c.as_str(), "/>");
        },
        Close(n) => {
            push_three(out, "</", n.as_str(), ">");
        },
        Text(t) => {
            push_three(out, "", t.as_str(), "");
        },
        CData(t) => {
            push_three(out, "<![CDATA[", t.as_str(), "]]>");
        },
        Comment(t) => {
            push_three(out, "<!--", t.as_str(), "-->");
        },
        Decl(t) => {
            push_three(out, "<?", t.as_str(), "?>");
        },
        Pi(t) => {
            push_three(out, "<?", t.as_str(), "?>");
        },
        DocType(t) => {
            push_three(out, "<!DOCTYPE ", t.as_str(), ">");
        },
        Reference(t) => {
            push_three(out, "&", t.as_str(), ";");
        },
        End => {},
        Failed(_) => {},
    }
    proof {
        reveal_strlit("");
        assert(out@ =~= start + step_text(s@));
    }
}

fn push_three(out: &mut String, before: &str, content: &str, after: &str)
    ensures
        final(out)@ == old(out)@ + before@ + content@ + after@,
{
    crate::text::push_str(out, before);
    crate::text::push_str(out, content);
    crate::text::push_str(out, after);
}

} // verus!
