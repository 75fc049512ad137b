//! Checks that a book's table of contents points at chapters whose headings
//! carry the entry titles.

use vstd::prelude::*;

use crate::text::{char_is_alphanumeric, is_alphanumeric, ascii_digit, chars_of, contains_seq, is_ascii_digit, join_with, joined, lowercase, opt_view, position_of, same_text, split_words, text_contains, text_starts_with, to_lower, trim, trimmed, words, find_text};

verus! {

/// An element that a CSS selector picked out of a document: its tag name and
/// the text nodes below it, in document order.
pub struct SelectedElement {
    pub tag: String,
    pub texts: Vec<String>,
}

/// What a selected element is made of.
pub struct ElementView {
    pub tag: Seq<char>,
    pub texts: Seq<Seq<char>>,
}

impl View for SelectedElement {
    type V = ElementView;

    open spec fn view(&self) -> ElementView {
        ElementView { tag: self.tag@, texts: self.texts.deep_view() }
    }
}

/// The views of a sequence of selected elements.
pub open spec fn element_views(s: Seq<SelectedElement>) -> Seq<ElementView> {
    s.map_values(|e: SelectedElement| e@)
}

/// What parsing `document` as HTML and selecting `selector` in it gives:
/// `None` when the selector does not parse.
pub uninterp spec fn selected_elements(document: Seq<char>, selector: Seq<char>) -> Option<Seq<ElementView>>;

/// `scraper::Html::parse_document` followed by `select` with
/// `scraper::Selector::parse(selector)`: each matching element, in document
/// order, with its tag name and its text nodes. The result is named by
/// `selected_elements`; `None` when the selector does not parse.
#[verifier::external_body]
fn select_elements(document: &str, selector: &str) -> (r: Option<Vec<SelectedElement>>)
    ensures
        match r {
            Some(v) => selected_elements(document@, selector@) == Some(element_views(v@)),
            None => selected_elements(document@, selector@) is None,
        },
{
    let sel = scraper::Selector::parse(selector).ok()?;
    let doc = scraper::Html::parse_document(document);
    Some(doc.select(&sel).map(|el| SelectedElement {
        tag: el.value().name().to_string(),
        texts: el.text().map(|t| t.to_string()).collect(),
    }).collect())
}

/// The trimmed, non-empty text nodes of an element, in order.
pub open spec fn clean_pieces(texts: Seq<Seq<char>>) -> Seq<Seq<char>>
    decreases texts.len(),
{
    if texts.len() == 0 {
        Seq::empty()
    } else {
        let rest = clean_pieces(texts.drop_last());
        let t = trimmed(texts.last());
        if t.len() > 0 {
            rest.push(t)
        } else {
            rest
        }
    }
}

/// The text of an element: its trimmed non-empty text nodes joined by spaces.
pub open spec fn clean_text(texts: Seq<Seq<char>>) -> Seq<char> {
    joined(clean_pieces(texts), " "@)
}

/// Joins the trimmed, non-empty text nodes of an element with single spaces.
pub fn extract_clean_text(texts: &Vec<String>) -> (r: String)
    ensures
        r@ == clean_text(texts.deep_view()),
{
    let mut pieces: Vec<String> = Vec::new();
    let mut i: usize = 0;
    while i < texts.len()
        invariant
            i <= texts@.len(),
            pieces.deep_view() == clean_pieces(texts.deep_view().take(i as int)),
        decreases texts@.len() - i,
    {
        let t = trim(texts[i].as_str());
        proof {
            assert(texts.deep_view().take(i + 1).drop_last() =~= texts.deep_view().take(i as int));
        }
        if !t.as_str().is_empty() {
            let ghost before = pieces.deep_view();
            pieces.push(t);
            assert(pieces.deep_view() =~= before.push(t@));
        }
        i = i + 1;
    }
    assert(texts.deep_view().take(texts@.len() as int) =~= texts.deep_view());
    join_with(&pieces, " ")
}

/// `p` begins `s`.
pub open spec fn starts_with(s: Seq<char>, p: Seq<char>) -> bool {
    p.len() <= s.len() && s.subrange(0, p.len() as int) == p
}

/// A text reads as a chapter heading: lower-cased it mentions "chapter" or
/// begins with "prologue", and it has at most twelve words.
pub open spec fn names_heading(text: Seq<char>) -> bool {
    let lw = lowercase(text);
    &&& contains_seq(lw, "chapter"@) || starts_with(lw, "prologue"@)
    &&& words(text).len() <= 12
}

/// The tags that frame a page rather than hold its content.
pub open spec fn is_page_frame(tag: Seq<char>) -> bool {
    tag == "body"@ || tag == "html"@ || tag == "head"@
}

/// The heading that a selected element carries, if it carries one.
pub open spec fn element_heading(e: ElementView) -> Option<Seq<char>> {
    let t = clean_text(e.texts);
    if !is_page_frame(e.tag) && t.len() > 0 && names_heading(t) {
        Some(t)
    } else {
        None
    }
}

/// The first heading among `els`, in order.
pub open spec fn first_heading(els: Seq<ElementView>) -> Option<Seq<char>>
    decreases els.len(),
{
    if els.len() == 0 {
        None
    } else {
        match element_heading(els[0]) {
            Some(t) => Some(t),
            None => first_heading(els.drop_first()),
        }
    }
}

fn heading_of(e: &SelectedElement) -> (r: Option<String>)
    ensures
        opt_view(r) == element_heading(e@),
{
    let tag = e.tag.as_str();
    if same_text(tag, "body") || same_text(tag, "html") || same_text(tag, "head") {
        return None;
    }
    let text = extract_clean_text(&e.texts);
    if text.as_str().is_empty() {
        return None;
    }
    let lw = to_lower(text.as_str());
    let mentions = text_contains(lw.as_str(), "chapter") || text_starts_with(lw.as_str(), "prologue");
    let count = split_words(text.as_str()).len();
    if mentions && count <= 12 {
        Some(text)
    } else {
        None
    }
}

/// The first of `elements`, in order, that carries a chapter heading: one that
/// is not `body`, `html` or `head`, whose text is not empty, and whose text
/// names a heading (see `names_heading`).
pub fn heading_among(elements: &[SelectedElement]) -> (r: Option<String>)
    ensures
        opt_view(r) == first_heading(element_views(elements@)),
{
    let ghost all = element_views(elements@);
    assert(all.subrange(0, all.len() as int) =~= all);
    let mut i: usize = 0;
    while i < elements.len()
        invariant
            i <= elements@.len(),
            all == element_views(elements@),
            first_heading(all) == first_heading(all.subrange(i as int, all.len() as int)),
        decreases elements@.len() - i,
    {
        let ghost rest = all.subrange(i as int, all.len() as int);
        assert(rest[0] == elements@[i as int]@);
        assert(rest.drop_first() =~= all.subrange(i + 1, all.len() as int));
        let h = heading_of(&elements[i]);
        if h.is_some() {
            return h;
        }
        i = i + 1;
    }
    assert(all.subrange(i as int, all.len() as int) =~= Seq::<ElementView>::empty());
    None
}

/// The heading a chapter document shows: the first element with a `class`
/// attribute whose text reads as a chapter heading.
pub open spec fn document_heading(xhtml: Seq<char>) -> Option<Seq<char>> {
    match selected_elements(xhtml, "[class]"@) {
        Some(els) => first_heading(els),
        None => None,
    }
}

/// Finds the chapter heading of an XHTML document: the first element with a
/// `class` attribute (other than `body`, `html` and `head`) whose text
/// mentions "chapter" or starts with "prologue", ignoring case, in at most
/// twelve words.
pub fn extract_heading(xhtml: &str) -> (r: Option<String>)
    ensures
        opt_view(r) == document_heading(xhtml@),
{
    match select_elements(xhtml, "[class]") {
        Some(elements) => heading_among(elements.as_slice()),
        None => None,
    }
}

/// The last `/`-separated segment of `s`.
pub open spec fn last_segment(s: Seq<char>) -> Seq<char>
    decreases s.len(),
{
    if s.len() == 0 {
        s
    } else if s.last() == '/' {
        Seq::empty()
    } else {
        last_segment(s.drop_last()).push(s.last())
    }
}

/// `s` up to its first `#` or `?`.
pub open spec fn before_query(s: Seq<char>) -> Seq<char>
    decreases s.len(),
{
    if s.len() == 0 {
        s
    } else if s[0] == '#' || s[0] == '?' {
        Seq::empty()
    } else {
        seq![s[0]] + before_query(s.drop_first())
    }
}

/// The file name a link points at: its last path segment, without fragment
/// or query.
pub open spec fn link_file(content: Seq<char>) -> Seq<char> {
    before_query(last_segment(content))
}

/// Reduces a link to the file name it points at: the part after the last
/// `/`, cut at the first `#` or `?`.
pub fn clean_path(content: &str) -> (r: String)
    ensures
        r@ == link_file(content@),
{
    let cs = chars_of(content);
    let n = cs.len();
    let mut start: usize = 0;
    let mut i: usize = 0;
    while i < n
        invariant
            n == cs@.len(),
            cs@ == content@,
            start <= i <= n,
            last_segment(cs@.take(i as int)) == cs@.subrange(start as int, i as int),
        decreases n - i,
    {
        proof {
            assert(cs@.take(i + 1).drop_last() =~= cs@.take(i as int));
            assert(cs@.take(i + 1).last() == cs@[i as int]);
        }
        if cs[i] == '/' {
            start = i + 1;
            assert(cs@.subrange(start as int, start as int) =~= Seq::<char>::empty());
        } else {
            assert(cs@.subrange(start as int, i + 1) =~= cs@.subrange(start as int, i as int).push(cs@[i as int]));
        }
        i = i + 1;
    }
    assert(cs@.take(n as int) =~= cs@);
    let ghost seg = cs@.subrange(start as int, n as int);
    let mut j: usize = start;
    while j < n && cs[j] != '#' && cs[j] != '?'
        invariant
            n == cs@.len(),
            start <= j <= n,
            seg == cs@.subrange(start as int, n as int),
            before_query(seg) == cs@.subrange(start as int, j as int) + before_query(cs@.subrange(j as int, n as int)),
        decreases n - j,
    {
        proof {
            let rest = cs@.subrange(j as int, n as int);
            assert(rest[0] == cs@[j as int]);
            assert(rest.drop_first() =~= cs@.subrange(j + 1, n as int));
            assert(cs@.subrange(start as int, j + 1) =~= cs@.subrange(start as int, j as int) + seq![cs@[j as int]]);
        }
        j = j + 1;
    }
    proof {
        let rest = cs@.subrange(j as int, n as int);
        if j < n {
            assert(rest[0] == cs@[j as int]);
        }
        assert(before_query(rest) =~= Seq::<char>::empty());
        assert(before_query(seg) =~= cs@.subrange(start as int, j as int));
    }
    crate::text::string_of(&cs.as_slice()[start..j])
}

/// A word of a table-of-contents title that must appear in the heading: it
/// holds a letter or digit, or is made of ASCII digits only.
pub open spec fn counts_as_title_word(w: Seq<char>) -> bool {
    (exists|i: int| 0 <= i < w.len() && is_alphanumeric(#[trigger] w[i]))
        || (forall|i: int| 0 <= i < w.len() ==> is_ascii_digit(#[trigger] w[i]))
}

/// Every counted word of `title`, lower-cased, occurs in the lower-cased heading.
pub open spec fn heading_carries_title(heading: Seq<char>, title: Seq<char>) -> bool {
    let txt = lowercase(heading);
    forall|k: int| 0 <= k < words(title).len() && counts_as_title_word(#[trigger] words(title)[k])
        ==> contains_seq(txt, lowercase(words(title)[k]))
}

/// Whether a chapter whose heading is `heading` carries `title`: false when
/// the chapter has no heading.
pub open spec fn title_matches(heading: Option<Seq<char>>, title: Seq<char>) -> bool {
    match heading {
        Some(h) => heading_carries_title(h, title),
        None => false,
    }
}

fn counts_as_title_word_exec(w: &str) -> (r: bool)
    ensures
        r == counts_as_title_word(w@),
{
    let cs = chars_of(w);
    let mut i: usize = 0;
    let mut any_alnum = false;
    let mut all_digits = true;
    while i < cs.len()
        invariant
            i <= cs@.len(),
            cs@ == w@,
            any_alnum == (exists|k: int| 0 <= k < i && is_alphanumeric(#[trigger] cs@[k])),
            all_digits == (forall|k: int| 0 <= k < i ==> is_ascii_digit(#[trigger] cs@[k])),
        decreases cs@.len() - i,
    {
        let c = cs[i];
        if char_is_alphanumeric(c) {
            any_alnum = true;
        }
        if !ascii_digit(c) {
            all_digits = false;
        }
        proof {
            if !any_alnum {
                assert forall|k: int| 0 <= k < i + 1 implies !is_alphanumeric(#[trigger] cs@[k]) by {
                    if k < i {
                        assert(!(0 <= k < i && is_alphanumeric(cs@[k])));
                    }
                }
            } else if !is_alphanumeric(c) {
                let k = choose|k: int| 0 <= k < i && is_alphanumeric(#[trigger] cs@[k]);
                assert(0 <= k < i + 1 && is_alphanumeric(cs@[k]));
            }
            if !all_digits && is_ascii_digit(c) {
                let k = choose|k: int| !(0 <= k < i ==> is_ascii_digit(#[trigger] cs@[k]));
                assert(!(0 <= k < i + 1 ==> is_ascii_digit(cs@[k])));
            }
        }
        i = i + 1;
    }
    any_alnum || all_digits
}

/// Whether `heading` carries `title`: every word of the title that holds a
/// letter or digit (or only ASCII digits), lower-cased, occurs in the
/// lower-cased heading. A missing heading carries no title.
pub fn title_in_heading(heading: &Option<String>, title: &str) -> (r: bool)
    ensures
        r == title_matches(opt_view(*heading), title@),
{
    let h = match heading {
        Some(h) => h,
        None => return false,
    };
    assert(opt_view(*heading) == Some(h@));
    let txt = to_lower(h.as_str());
    let strips = split_words(title);
    let ghost ws = words(title@);
    let mut k: usize = 0;
    while k < strips.len()
        invariant
            k <= strips@.len(),
            strips.deep_view() == ws,
            ws == words(title@),
            opt_view(*heading) == Some(h@),
            txt@ == lowercase(h@),
            forall|j: int| 0 <= j < k && counts_as_title_word(#[trigger] ws[j])
                ==> contains_seq(txt@, lowercase(ws[j])),
        decreases strips@.len() - k,
    {
        let w = strips[k].as_str();
        assert(strips.deep_view().len() == strips@.len());
        assert(w@ == ws[k as int]);
        if counts_as_title_word_exec(w) {
            let lw = to_lower(w);
            if !text_contains(txt.as_str(), lw.as_str()) {
                assert(counts_as_title_word(ws[k as int]) && !contains_seq(txt@, lowercase(ws[k as int])));
                assert(0 <= k < words(title@).len());
                assert(!heading_carries_title(h@, title@));
                return false;
            }
        }
        k = k + 1;
    }
    true
}

/// The heading of an optional chapter document.
pub open spec fn chapter_heading(chapter: Option<Seq<char>>) -> Option<Seq<char>> {
    match chapter {
        Some(t) => document_heading(t),
        None => None,
    }
}

/// Whether the chapter document `chapter` shows a heading that carries
/// `title`; false when there is no chapter text or no heading.
pub fn check_title(chapter: &Option<String>, title: &str) -> (r: bool)
    ensures
        r == title_matches(chapter_heading(opt_view(*chapter)), title@),
{
    let heading = match chapter {
        Some(text) => extract_heading(text.as_str()),
        None => None,
    };
    title_in_heading(&heading, title)
}

/// An entry of a book's table of contents: where it links to (absent when the
/// link is not valid text) and its label.
pub struct TocPoint {
    pub content: Option<String>,
    pub label: String,
}

/// What a table-of-contents entry holds.
pub struct TocPointView {
    pub content: Option<Seq<char>>,
    pub label: Seq<char>,
}

impl View for TocPoint {
    type V = TocPointView;

    open spec fn view(&self) -> TocPointView {
        TocPointView { content: opt_view(self.content), label: self.label@ }
    }
}

/// Walks the table of contents from the front: an entry without link text
/// fails; an entry whose file is in the spine must have its title in that
/// chapter's heading and becomes the starting chapter; other entries are
/// passed over. `init` is the starting chapter so far.
pub open spec fn toc_walk(
    toc: Seq<TocPointView>,
    spine: Seq<Seq<char>>,
    chapters: Seq<Option<Seq<char>>>,
    init: int,
) -> Result<int, Seq<char>>
    decreases toc.len(),
{
    if toc.len() == 0 {
        Ok(init)
    } else {
        match toc[0].content {
            None => Err("could not extract content str"@),
            Some(file) => match position_of(spine, link_file(file)) {
                None => toc_walk(toc.drop_first(), spine, chapters, init),
                Some(index) => if title_matches(chapter_heading(chapters[index]), toc[0].label) {
                    toc_walk(toc.drop_first(), spine, chapters, index)
                } else {
                    Err("Toc not Aligned"@)
                },
            },
        }
    }
}

/// The outcome of checking a table of contents against the spine: no entries
/// is an error, otherwise the walk from the first chapter.
pub open spec fn toc_outcome(
    toc: Seq<TocPointView>,
    spine: Seq<Seq<char>>,
    chapters: Seq<Option<Seq<char>>>,
) -> Result<int, Seq<char>> {
    if toc.len() == 0 {
        Err("no toc found"@)
    } else {
        toc_walk(toc, spine, chapters, 0)
    }
}

/// Checks a book's table of contents against its spine. `spine` holds the
/// spine's idrefs and `chapters[i]` the text of spine chapter `i` (absent
/// when it cannot be read). Each entry whose file names a spine item must
/// lead to a chapter whose heading carries the entry's label; the result is
/// the spine index of the last such entry (0 when there is none).
pub fn verify_toc(toc: &[TocPoint], spine: &[String], chapters: &[Option<String>]) -> (r: Result<u32, String>)
    requires
        chapters@.len() == spine@.len(),
    ensures
        match r {
            Ok(n) => toc_outcome(toc@.map_values(|t: TocPoint| t@), spine@.map_values(|s: String| s@),
                chapters@.map_values(|c: Option<String>| opt_view(c))) matches Ok(k) && n == k as u32,
            Err(m) => toc_outcome(toc@.map_values(|t: TocPoint| t@), spine@.map_values(|s: String| s@),
                chapters@.map_values(|c: Option<String>| opt_view(c))) == Err::<int, Seq<char>>(m@),
        },
{
    let ghost tv = toc@.map_values(|t: TocPoint| t@);
    let ghost sv = spine@.map_values(|s: String| s@);
    let ghost cv = chapters@.map_values(|c: Option<String>| opt_view(c));
    if toc.len() == 0 {
        return Err(String::from_str("no toc found"));
    }
    let mut init: usize = 0;
    let mut i: usize = 0;
    assert(tv.subrange(0, tv.len() as int) =~= tv);
    while i < toc.len()
        invariant
            i <= toc@.len(),
            tv == toc@.map_values(|t: TocPoint| t@),
            sv == spine@.map_values(|s: String| s@),
            cv == chapters@.map_values(|c: Option<String>| opt_view(c)),
            chapters@.len() == spine@.len(),
            init < spine@.len() || init == 0,
            toc_walk(tv, sv, cv, 0) == toc_walk(tv.subrange(i as int, tv.len() as int), sv, cv, init as int),
        decreases toc@.len() - i,
    {
        let ghost rest = tv.subrange(i as int, tv.len() as int);
        assert(rest[0] == toc@[i as int]@);
        assert(rest.drop_first() =~= tv.subrange(i + 1, tv.len() as int));
        let entry = &toc[i];
        match &entry.content {
            None => {
                return Err(String::from_str("could not extract content str"));
            },
            Some(file) => {
                let name = clean_path(file.as_str());
                match find_text(spine, name.as_str()) {
                    None => {},
                    Some(index) => {
                        if !check_title(&chapters[index], entry.label.as_str()) {
                            return Err(String::from_str("Toc not Aligned"));
                        }
                        init = index;
                    },
                }
            },
        }
        i = i + 1;
    }
    assert(tv.subrange(i as int, tv.len() as int) =~= Seq::<TocPointView>::empty());
    Ok(init as u32)
}

} // verus!
