//! Builds an NCX table of contents out of the chapter headings found in a
//! book's spine.

use vstd::prelude::*;

use crate::library::verify::{document_heading, extract_heading};
use crate::text::{chars_of, decimal, opt_view, push_char, push_str, usize_to_decimal};

verus! {

/// An entry of a generated table of contents: its title, the file it points
/// at and an optional anchor inside that file.
pub struct TocEntry {
    pub title: String,
    pub file: String,
    pub anchor: Option<String>,
}

/// What a generated table-of-contents entry holds.
pub struct TocEntryView {
    pub title: Seq<char>,
    pub file: Seq<char>,
    pub anchor: Option<Seq<char>>,
}

impl View for TocEntry {
    type V = TocEntryView;

    open spec fn view(&self) -> TocEntryView {
        TocEntryView { title: self.title@, file: self.file@, anchor: opt_view(self.anchor) }
    }
}

/// The views of a sequence of entries.
pub open spec fn entry_views(s: Seq<TocEntry>) -> Seq<TocEntryView> {
    s.map_values(|e: TocEntry| e@)
}

/// The characters that XML escaping replaces by an entity.
pub open spec fn is_xml_special(c: char) -> bool {
    c == '&' || c == '<' || c == '>' || c == '"' || c == '\''
}

/// How one character is written in escaped XML text.
pub open spec fn escape_char(c: char) -> Seq<char> {
    if c == '&' {
        seq!['&', 'a', 'm', 'p', ';']
    } else if c == '<' {
        seq!['&', 'l', 't', ';']
    } else if c == '>' {
        seq!['&', 'g', 't', ';']
    } else if c == '"' {
        seq!['&', 'q', 'u', 'o', 't', ';']
    } else if c == '\'' {
        seq!['&', 'a', 'p', 'o', 's', ';']
    } else {
        seq![c]
    }
}

/// `s` with each character escaped for XML, in order.
pub open spec fn escaped(s: Seq<char>) -> Seq<char>
    decreases s.len(),
{
    if s.len() == 0 {
        Seq::empty()
    } else {
        escape_char(s[0]) + escaped(s.drop_first())
    }
}

proof fn lemma_escaped_push(s: Seq<char>, c: char)
    ensures
        escaped(s.push(c)) == escaped(s) + escape_char(c),
    decreases s.len(),
{
    if s.len() == 0 {
        assert(s.push(c).drop_first() =~= Seq::<char>::empty());
        assert(s.push(c)[0] == c);
        assert(escaped(s.push(c).drop_first()) == Seq::<char>::empty());
        assert(escaped(s.push(c)) =~= escape_char(c));
    } else {
        assert(s.push(c).drop_first() =~= s.drop_first().push(c));
        assert(s.push(c)[0] == s[0]);
        lemma_escaped_push(s.drop_first(), c);
        assert(escaped(s.push(c)) =~= escaped(s) + escape_char(c));
    }
}

fn push_escaped(out: &mut String, c: char)
    ensures
        final(out)@ == old(out)@ + escape_char(c),
{
    let ghost before = out@;
    if c == '&' {
        push_char(out, '&'); push_char(out, 'a'); push_char(out, 'm'); push_char(out, 'p'); push_char(out, ';');
    } else if c == '<' {
        push_char(out, '&'); push_char(out, 'l'); push_char(out, 't'); push_char(out, ';');
    } else if c == '>' {
        push_char(out, '&'); push_char(out, 'g'); push_char(out, 't'); push_char(out, ';');
    } else if c == '"' {
        push_char(out, '&'); push_char(out, 'q'); push_char(out, 'u'); push_char(out, 'o'); push_char(out, 't'); push_char(out, ';');
    } else if c == '\'' {
        push_char(out, '&'); push_char(out, 'a'); push_char(out, 'p'); push_char(out, 'o'); push_char(out, 's'); push_char(out, ';');
    } else {
        push_char(out, c);
    }
    assert(out@ =~= before + escape_char(c));
}

/// Escapes `&`, `<`, `>`, `"` and `'` as XML entities; every other character
/// is kept.
pub fn xml_escape(input: &str) -> (r: String)
    ensures
        r@ == escaped(input@),
{
    let cs = chars_of(input);
    let mut out = String::new();
    let mut i: usize = 0;
    while i < cs.len()
        invariant
            i <= cs@.len(),
            cs@ == input@,
            out@ == escaped(cs@.take(i as int)),
        decreases cs@.len() - i,
    {
        proof {
            lemma_escaped_push(cs@.take(i as int), cs@[i as int]);
            assert(cs@.take(i + 1) =~= cs@.take(i as int).push(cs@[i as int]));
        }
        push_escaped(&mut out, cs[i]);
        i = i + 1;
    }
    assert(cs@.take(cs@.len() as int) =~= cs@);
    out
}

/// Escaped text holds no `<`, `>`, `"` or `'`: what `xml_escape` gives can
/// stand inside an element or a quoted attribute value.
pub proof fn law_escaped_has_no_markup(s: Seq<char>)
    ensures
        forall|i: int| 0 <= i < escaped(s).len() ==> {
            let c = #[trigger] escaped(s)[i];
            c != '<' && c != '>' && c != '"' && c != '\''
        },
    decreases s.len(),
{
    if s.len() > 0 {
        law_escaped_has_no_markup(s.drop_first());
        let e = escape_char(s[0]);
        let rest = escaped(s.drop_first());
        assert forall|i: int| 0 <= i < escaped(s).len() implies {
            let c = #[trigger] escaped(s)[i];
            c != '<' && c != '>' && c != '"' && c != '\''
        } by {
            if i >= e.len() {
                assert(escaped(s)[i] == rest[i - e.len()]);
            }
        }
    }
}

/// Text without any of the five special characters is left as it is.
pub proof fn law_escape_keeps_plain_text(s: Seq<char>)
    requires
        forall|i: int| 0 <= i < s.len() ==> !is_xml_special(#[trigger] s[i]),
    ensures
        escaped(s) == s,
    decreases s.len(),
{
    if s.len() > 0 {
        assert forall|i: int| 0 <= i < s.drop_first().len() implies !is_xml_special(#[trigger] s.drop_first()[i]) by {
            assert(s.drop_first()[i] == s[i + 1]);
        }
        law_escape_keeps_plain_text(s.drop_first());
        assert(escaped(s) =~= s);
    }
}

proof fn lemma_escape_char_prefix(x: char, y: char, u: Seq<char>, v: Seq<char>)
    requires
        escape_char(x) + u == escape_char(y) + v,
    ensures
        x == y,
        u == v,
{
    let ex = escape_char(x);
    let ey = escape_char(y);
    let w = ex + u;
    assert(w[0] == ex[0]);
    assert(w[0] == ey[0]);
    if ex.len() > 1 && ey.len() > 1 {
        assert(w[1] == ex[1] && w[1] == ey[1]);
        assert(w[2] == ex[2] && w[2] == ey[2]);
    }
    assert(x == y);
    assert(u =~= w.subrange(ex.len() as int, w.len() as int));
    assert(v =~= w.subrange(ey.len() as int, w.len() as int));
}

/// `t` starts with `p`.
pub open spec fn starts_with_seq(t: Seq<char>, p: Seq<char>) -> bool {
    p.len() <= t.len() && t.subrange(0, p.len() as int) == p
}

/// XML text decoded left to right: the entities `&amp;`, `&lt;`, `&gt;`,
/// `&quot;` and `&apos;` become the character they stand for; every other
/// character is kept.
pub open spec fn unescaped(t: Seq<char>) -> Seq<char>
    decreases t.len(),
{
    if t.len() == 0 {
        Seq::empty()
    } else if starts_with_seq(t, escape_char('&')) {
        seq!['&'] + unescaped(t.subrange(5, t.len() as int))
    } else if starts_with_seq(t, escape_char('<')) {
        seq!['<'] + unescaped(t.subrange(4, t.len() as int))
    } else if starts_with_seq(t, escape_char('>')) {
        seq!['>'] + unescaped(t.subrange(4, t.len() as int))
    } else if starts_with_seq(t, escape_char('"')) {
        seq!['"'] + unescaped(t.subrange(6, t.len() as int))
    } else if starts_with_seq(t, escape_char('\'')) {
        seq!['\''] + unescaped(t.subrange(6, t.len() as int))
    } else {
        seq![t[0]] + unescaped(t.drop_first())
    }
}

proof fn lemma_unescape_one(c: char, x: Seq<char>)
    ensures
        unescaped(escape_char(c) + x) == seq![c] + unescaped(x),
{
    let e = escape_char(c);
    let t = e + x;
    assert(t.subrange(e.len() as int, t.len() as int) =~= x);
    assert(t.drop_first() =~= t.subrange(1, t.len() as int));
    if c == '&' {
        assert(t.subrange(0, 5) =~= e);
    } else if c == '<' {
        assert(t[1] == 'l');
        assert(t.subrange(0, 4) =~= e);
    } else if c == '>' {
        assert(t[1] == 'g');
        assert(t.subrange(0, 4) =~= e);
    } else if c == '"' {
        assert(t[1] == 'q');
        assert(t.subrange(0, 6) =~= e);
    } else if c == '\'' {
        assert(t[1] == 'a' && t[2] == 'p');
        assert(!(t.subrange(0, 5) =~= escape_char('&'))) by {
            assert(t.subrange(0, 5)[2] == 'p');
        }
        assert(t.subrange(0, 6) =~= e);
    } else {
        assert(t[0] == c);
        assert(t.drop_first() =~= x);
        if 5 <= t.len() {
            assert(t.subrange(0, 5)[0] == c);
        }
        if 4 <= t.len() {
            assert(t.subrange(0, 4)[0] == c);
        }
        if 6 <= t.len() {
            assert(t.subrange(0, 6)[0] == c);
        }
    }
}

/// Decoding escaped text gives back the text: `xml_escape` loses nothing.
pub proof fn law_unescape_escaped(s: Seq<char>)
    ensures
        unescaped(escaped(s)) == s,
    decreases s.len(),
{
    if s.len() == 0 {
        assert(unescaped(Seq::<char>::empty()) == Seq::<char>::empty());
    } else {
        law_unescape_escaped(s.drop_first());
        lemma_unescape_one(s[0], escaped(s.drop_first()));
        assert(seq![s[0]] + s.drop_first() =~= s);
    }
}

/// Escaping loses nothing: different texts escape to different texts.
pub proof fn law_escape_injective(a: Seq<char>, b: Seq<char>)
    requires
        escaped(a) == escaped(b),
    ensures
        a == b,
    decreases a.len(),
{
    if a.len() == 0 {
        if b.len() > 0 {
            assert(escaped(b).len() > 0);
        }
        assert(a =~= b);
    } else {
        if b.len() == 0 {
            assert(escaped(a).len() > 0);
        } else {
            lemma_escape_char_prefix(a[0], b[0], escaped(a.drop_first()), escaped(b.drop_first()));
            law_escape_injective(a.drop_first(), b.drop_first());
            assert(a =~= seq![a[0]] + a.drop_first());
            assert(b =~= seq![b[0]] + b.drop_first());
        }
    }
}

/// The link a table-of-contents entry writes: its file, with `#anchor` when
/// it has an anchor.
pub open spec fn entry_src(e: TocEntryView) -> Seq<char> {
    match e.anchor {
        Some(a) => e.file + "#"@ + a,
        None => e.file,
    }
}

/// The `navPoint` element written for entry `e` at position `i`.
pub open spec fn nav_point_xml(i: nat, e: TocEntryView) -> Seq<char> {
    "<navPoint id=\"navPoint-"@ + decimal(i) + "\" playOrder=\""@ + decimal(i)
        + "\">\n    <navLabel>\n        <text>"@ + escaped(e.title)
        + "</text>\n    </navLabel>\n    <content src=\""@ + escaped(entry_src(e))
        + "\"/>\n</navPoint>\n"@
}

/// The `navPoint` elements of all entries, in order, numbered from 0.
pub open spec fn nav_points_xml(toc: Seq<TocEntryView>) -> Seq<char>
    decreases toc.len(),
{
    if toc.len() == 0 {
        Seq::empty()
    } else {
        nav_points_xml(toc.drop_last()) + nav_point_xml((toc.len() - 1) as nat, toc.last())
    }
}

/// The NCX document for `toc`, identified and titled by `book_id`.
pub open spec fn ncx_xml(toc: Seq<TocEntryView>, book_id: Seq<char>) -> Seq<char> {
    "<?xml version=\"1.0\" encoding=\"UTF-8\"?>\n<ncx xmlns=\"http://www.daisy.org/z3986/2005/ncx/\" version=\"2005-1\">\n  <head>\n    <meta name=\"dtb:uid\" content=\""@
        + book_id + "\"/>\n  </head>\n  <docTitle><text>"@ + book_id
        + "</text></docTitle>\n  <navMap>\n    "@ + nav_points_xml(toc)
        + "\n  </navMap>\n</ncx>"@
}

fn entry_link(e: &TocEntry) -> (r: String)
    ensures
        r@ == entry_src(e@),
{
    match &e.anchor {
        Some(a) => {
            let mut s = e.file.clone();
            push_str(&mut s, "#");
            push_str(&mut s, a.as_str());
            s
        },
        None => e.file.clone(),
    }
}

/// Writes the NCX document for `toc`: one `navPoint` per entry, numbered from
/// 0 in both `id` and `playOrder`, with the escaped title and link; the book
/// id goes unescaped into the `dtb:uid` meta and the document title.
pub fn make_ncx(toc: &[TocEntry], book_id: &str) -> (r: String)
    ensures
        r@ == ncx_xml(entry_views(toc@), book_id@),
{
    let ghost all = entry_views(toc@);
    let mut nav_points = String::new();
    let mut i: usize = 0;
    while i < toc.len()
        invariant
            i <= toc@.len(),
            all == entry_views(toc@),
            nav_points@ == nav_points_xml(all.take(i as int)),
        decreases toc@.len() - i,
    {
        let entry = &toc[i];
        let n = usize_to_decimal(i);
        let title = xml_escape(entry.title.as_str());
        let src = entry_link(entry);
        let src = xml_escape(src.as_str());
        let ghost before = nav_points@;
        push_str(&mut nav_points, "<navPoint id=\"navPoint-");
        push_str(&mut nav_points, n.as_str());
        push_str(&mut nav_points, "\" playOrder=\"");
        push_str(&mut nav_points, n.as_str());
        push_str(&mut nav_points, "\">\n    <navLabel>\n        <text>");
        push_str(&mut nav_points, title.as_str());
        push_str(&mut nav_points, "</text>\n    </navLabel>\n    <content src=\"");
        push_str(&mut nav_points, src.as_str());
        push_str(&mut nav_points, "\"/>\n</navPoint>\n");
        proof {
            assert(all.take(i + 1).drop_last() =~= all.take(i as int));
            assert(all.take(i + 1).last() == entry@);
            assert(nav_points@ =~= before + nav_point_xml(i as nat, entry@));
        }
        i = i + 1;
    }
    assert(all.take(toc@.len() as int) =~= all);
    let mut out = String::new();
    push_str(&mut out, "<?xml version=\"1.0\" encoding=\"UTF-8\"?>\n<ncx xmlns=\"http://www.daisy.org/z3986/2005/ncx/\" version=\"2005-1\">\n  <head>\n    <meta name=\"dtb:uid\" content=\"");
    push_str(&mut out, book_id);
    push_str(&mut out, "\"/>\n  </head>\n  <docTitle><text>");
    push_str(&mut out, book_id);
    push_str(&mut out, "</text></docTitle>\n  <navMap>\n    ");
    push_str(&mut out, nav_points.as_str());
    push_str(&mut out, "\n  </navMap>\n</ncx>");
    assert(out@ =~= ncx_xml(all, book_id@));
    out
}

/// A chapter of a book's spine: its idref and its text, absent when it could
/// not be read.
pub struct SpineChapter {
    pub idref: String,
    pub text: Option<String>,
}

/// What a spine chapter holds.
pub struct SpineChapterView {
    pub idref: Seq<char>,
    pub text: Option<Seq<char>>,
}

impl View for SpineChapter {
    type V = SpineChapterView;

    open spec fn view(&self) -> SpineChapterView {
        SpineChapterView { idref: self.idref@, text: opt_view(self.text) }
    }
}

/// The entry that a spine chapter contributes: one titled by its heading and
/// pointing at `OEBPS/<idref>`, when its text has a non-empty heading.
pub open spec fn chapter_entry(ch: SpineChapterView) -> Option<TocEntryView> {
    match ch.text {
        Some(t) => match document_heading(t) {
            Some(title) => if title.len() > 0 {
                Some(TocEntryView { title, file: "OEBPS/"@ + ch.idref, anchor: None })
            } else {
                None
            },
            None => None,
        },
        None => None,
    }
}

/// The entries of all chapters that have a heading, in spine order.
pub open spec fn spine_headings(chs: Seq<SpineChapterView>) -> Seq<TocEntryView>
    decreases chs.len(),
{
    if chs.len() == 0 {
        Seq::empty()
    } else {
        let rest = spine_headings(chs.drop_last());
        match chapter_entry(chs.last()) {
            Some(e) => rest.push(e),
            None => rest,
        }
    }
}

/// Collects a table of contents from the spine: for each chapter in order
/// whose text shows a heading, an entry with that heading as title, the file
/// `OEBPS/<idref>` and no anchor.
pub fn scan_spine_for_headings(chapters: &[SpineChapter]) -> (r: Vec<TocEntry>)
    ensures
        entry_views(r@) == spine_headings(chapters@.map_values(|c: SpineChapter| c@)),
{
    let ghost all = chapters@.map_values(|c: SpineChapter| c@);
    let mut out: Vec<TocEntry> = Vec::new();
    let mut i: usize = 0;
    while i < chapters.len()
        invariant
            i <= chapters@.len(),
            all == chapters@.map_values(|c: SpineChapter| c@),
            entry_views(out@) == spine_headings(all.take(i as int)),
        decreases chapters@.len() - i,
    {
        let ch = &chapters[i];
        proof {
            assert(all.take(i + 1).drop_last() =~= all.take(i as int));
            assert(all.take(i + 1).last() == ch@);
        }
        match &ch.text {
            Some(text) => {
                match extract_heading(text.as_str()) {
                    Some(title) => {
                        if !title.as_str().is_empty() {
                            let mut file = String::from_str("OEBPS/");
                            push_str(&mut file, ch.idref.as_str());
                            let entry = TocEntry { title, file, anchor: None };
                            let ghost before = entry_views(out@);
                            out.push(entry);
                            assert(entry_views(out@) =~= before.push(entry@));
                        }
                    },
                    None => {},
                }
            },
            None => {},
        }
        i = i + 1;
    }
    assert(all.take(chapters@.len() as int) =~= all);
    out
}

/// The chapter shows a non-empty heading.
pub open spec fn has_heading(ch: SpineChapterView) -> bool {
    ch.text matches Some(t) && document_heading(t) matches Some(title) && title.len() > 0
}

/// The heading a chapter shows (meaningful when it has one).
pub open spec fn heading_of(ch: SpineChapterView) -> Seq<char> {
    document_heading(ch.text->0)->0
}

/// A spine of one chapter gives one entry when the chapter shows a non-empty
/// heading: titled by the heading, for the file `OEBPS/` and the idref, with
/// no anchor; nothing otherwise.
pub proof fn law_spine_headings_single(ch: SpineChapterView)
    ensures
        has_heading(ch) ==> spine_headings(seq![ch])
            == seq![TocEntryView { title: heading_of(ch), file: "OEBPS/"@ + ch.idref, anchor: None }],
        !has_heading(ch) ==> spine_headings(seq![ch]) == Seq::<TocEntryView>::empty(),
{
    assert(seq![ch].drop_last() =~= Seq::<SpineChapterView>::empty());
    assert(spine_headings(Seq::<SpineChapterView>::empty()) == Seq::<TocEntryView>::empty());
    if has_heading(ch) {
        let e = TocEntryView { title: heading_of(ch), file: "OEBPS/"@ + ch.idref, anchor: None };
        assert(chapter_entry(ch) == Some(e));
        assert(Seq::<TocEntryView>::empty().push(e) =~= seq![e]);
    }
}

/// The entries of a spine are those of its first chapters followed by those
/// of the rest: each chapter contributes on its own, whatever came before.
pub proof fn law_spine_headings_append(a: Seq<SpineChapterView>, b: Seq<SpineChapterView>)
    ensures
        spine_headings(a + b) == spine_headings(a) + spine_headings(b),
    decreases b.len(),
{
    if b.len() == 0 {
        assert(a + b =~= a);
        assert(spine_headings(a) + Seq::<TocEntryView>::empty() =~= spine_headings(a));
    } else {
        law_spine_headings_append(a, b.drop_last());
        assert((a + b).drop_last() =~= a + b.drop_last());
        assert((a + b).last() == b.last());
        if let Some(e) = chapter_entry(b.last()) {
            assert((spine_headings(a) + spine_headings(b.drop_last())).push(e) =~= spine_headings(a) + spine_headings(b.drop_last()).push(e));
        }
    }
}

/// A spine gives as many entries as it has chapters with a non-empty
/// heading, and entry `k` comes from the `k`-th of them.
pub proof fn law_spine_headings_count(chs: Seq<SpineChapterView>)
    ensures
        spine_headings(chs).len() == chs.filter(|c: SpineChapterView| has_heading(c)).len(),
        forall|k: int| 0 <= k < spine_headings(chs).len() ==> {
            let c = chs.filter(|c: SpineChapterView| has_heading(c))[k];
            #[trigger] spine_headings(chs)[k] == (TocEntryView { title: heading_of(c), file: "OEBPS/"@ + c.idref, anchor: None })
        },
    decreases chs.len(),
{
    reveal(Seq::filter);
    if chs.len() > 0 {
        law_spine_headings_count(chs.drop_last());
    }
}

} // verus!
