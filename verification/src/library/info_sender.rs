//! Names and records for books entering the library: slugs for authors and
//! books, cleaned titles and file-system-safe path components.

use std::hash::{Hash, Hasher};

use vstd::prelude::*;

use crate::text::{
    all_ascii, ascii_alnum, ascii_alpha, ascii_lower, char_is_whitespace, chars_of, is_ascii_alnum,
    is_ascii_alpha, is_white_space, joined, join_with, push_char, push_str, string_of, to_lower,
    trim, trimmed, lowercase, opt_view, text_ends_with, trim_end, trim_end_text,
};
use vstd::utf8::{decode_utf8, encode_utf8, encode_utf8_decode_utf8, is_char_boundary};

verus! {

/// What is known of a book: author, title, series and position in the series.
pub struct BookData {
    pub author: String,
    pub title: String,
    pub series: String,
    pub pos: u32,
}

impl BookData {
    /// An empty record: no author, title or series, position 0.
    pub fn new() -> (b: BookData)
        ensures
            b.author@ == Seq::<char>::empty(),
            b.title@ == Seq::<char>::empty(),
            b.series@ == Seq::<char>::empty(),
            b.pos == 0,
    {
        BookData { author: String::new(), title: String::new(), series: String::new(), pos: 0 }
    }
}

/// The characters that cannot stand in a file or directory name.
pub open spec fn is_invalid_path_char(c: char) -> bool {
    c == '<' || c == '>' || c == ':' || c == '"' || c == '/' || c == '\\' || c == '|' || c == '?' || c == '*'
}

/// The characters of `s` that may stand in a path component, in order.
pub open spec fn path_safe_chars(s: Seq<char>) -> Seq<char>
    decreases s.len(),
{
    if s.len() == 0 {
        s
    } else if is_invalid_path_char(s.last()) {
        path_safe_chars(s.drop_last())
    } else {
        path_safe_chars(s.drop_last()).push(s.last())
    }
}

/// Makes `input` usable as a file or directory name: drops the characters
/// `<>:"/\|?*` and trims surrounding whitespace.
pub fn sanitize_component(input: &str) -> (r: String)
    ensures
        r@ == trimmed(path_safe_chars(input@)),
{
    let cs = chars_of(input);
    let mut kept: Vec<char> = Vec::new();
    let mut i: usize = 0;
    while i < cs.len()
        invariant
            i <= cs@.len(),
            cs@ == input@,
            kept@ == path_safe_chars(cs@.take(i as int)),
        decreases cs@.len() - i,
    {
        let c = cs[i];
        proof {
            assert(cs@.take(i + 1).drop_last() =~= cs@.take(i as int));
            assert(cs@.take(i + 1).last() == c);
        }
        if !(c == '<' || c == '>' || c == ':' || c == '"' || c == '/' || c == '\\' || c == '|' || c == '?' || c == '*') {
            kept.push(c);
        }
        i = i + 1;
    }
    assert(cs@.take(cs@.len() as int) =~= cs@);
    let s = string_of(kept.as_slice());
    trim(s.as_str())
}

/// The ASCII letters of `s`, in order.
pub open spec fn ascii_letters(s: Seq<char>) -> Seq<char>
    decreases s.len(),
{
    if s.len() == 0 {
        s
    } else if is_ascii_alpha(s.last()) && !is_white_space(s.last()) {
        ascii_letters(s.drop_last()).push(s.last())
    } else {
        ascii_letters(s.drop_last())
    }
}

proof fn lemma_ascii_letters_ascii(s: Seq<char>)
    ensures
        all_ascii(ascii_letters(s)),
        forall|i: int| 0 <= i < ascii_letters(s).len() ==> is_ascii_alpha(#[trigger] ascii_letters(s)[i]),
    decreases s.len(),
{
    if s.len() > 0 {
        lemma_ascii_letters_ascii(s.drop_last());
    }
}

/// The lower-cased ASCII letters of `s`.
pub open spec fn letters_id(s: Seq<char>) -> Seq<char> {
    ascii_letters(s).map_values(|c: char| ascii_lower(c))
}

/// Keeps only the ASCII letters of `s` and lower-cases them.
pub fn remove_whitespace(s: &String) -> (r: String)
    ensures
        r@ == letters_id(s@),
{
    let cs = chars_of(s.as_str());
    let mut kept: Vec<char> = Vec::new();
    let mut i: usize = 0;
    while i < cs.len()
        invariant
            i <= cs@.len(),
            cs@ == s@,
            kept@ == ascii_letters(cs@.take(i as int)),
        decreases cs@.len() - i,
    {
        let c = cs[i];
        proof {
            assert(cs@.take(i + 1).drop_last() =~= cs@.take(i as int));
            assert(cs@.take(i + 1).last() == c);
        }
        if ascii_alpha(c) && !char_is_whitespace(c) {
            kept.push(c);
        }
        i = i + 1;
    }
    assert(cs@.take(cs@.len() as int) =~= cs@);
    proof {
        lemma_ascii_letters_ascii(s@);
    }
    let edit = string_of(kept.as_slice());
    to_lower(edit.as_str())
}

/// The maximal runs of ASCII letters and digits of `s` scanned so far: the
/// completed runs and the run being read.
pub open spec fn runs_scan(s: Seq<char>) -> (Seq<Seq<char>>, Seq<char>)
    decreases s.len(),
{
    if s.len() == 0 {
        (Seq::empty(), Seq::empty())
    } else {
        let (done, cur) = runs_scan(s.drop_last());
        let c = s.last();
        if is_ascii_alnum(c) {
            (done, cur.push(c))
        } else if cur.len() > 0 {
            (done.push(cur), Seq::empty())
        } else {
            (done, cur)
        }
    }
}

/// The maximal runs of ASCII letters and digits of `s`, in order.
pub open spec fn alnum_runs(s: Seq<char>) -> Seq<Seq<char>> {
    let (done, cur) = runs_scan(s);
    if cur.len() > 0 {
        done.push(cur)
    } else {
        done
    }
}

/// The slug of `s` before the fallback: its runs of ASCII letters and digits
/// joined by `-`, lower-cased.
pub open spec fn slug_text(s: Seq<char>) -> Seq<char> {
    joined(alnum_runs(s), "-"@).map_values(|c: char| ascii_lower(c))
}

proof fn lemma_runs_alnum(s: Seq<char>)
    ensures
        forall|k: int| 0 <= k < runs_scan(s).0.len() ==> #[trigger] runs_scan(s).0[k].len() > 0,
        forall|k: int, j: int| 0 <= k < runs_scan(s).0.len() && 0 <= j < runs_scan(s).0[k].len()
            ==> is_ascii_alnum(#[trigger] runs_scan(s).0[k][j]),
        forall|j: int| 0 <= j < runs_scan(s).1.len() ==> is_ascii_alnum(#[trigger] runs_scan(s).1[j]),
    decreases s.len(),
{
    if s.len() > 0 {
        lemma_runs_alnum(s.drop_last());
        let (done, cur) = runs_scan(s.drop_last());
        let c = s.last();
        if !is_ascii_alnum(c) && cur.len() > 0 {
            let nd = done.push(cur);
            assert(runs_scan(s).0 == nd);
            assert forall|k: int| 0 <= k < nd.len() implies #[trigger] nd[k].len() > 0 by {
                if k < done.len() {
                    assert(nd[k] == done[k]);
                }
            }
            assert forall|k: int, j: int| 0 <= k < nd.len() && 0 <= j < nd[k].len()
                implies is_ascii_alnum(#[trigger] nd[k][j]) by {
                if k < done.len() {
                    assert(nd[k] == done[k]);
                } else {
                    assert(nd[k] == cur);
                }
            }
        }
    }
}

proof fn lemma_joined_ascii(parts: Seq<Seq<char>>)
    requires
        forall|k: int, j: int| 0 <= k < parts.len() && 0 <= j < parts[k].len() ==> is_ascii_alnum(#[trigger] parts[k][j]),
    ensures
        forall|i: int| 0 <= i < joined(parts, "-"@).len() ==> {
            let c = #[trigger] joined(parts, "-"@)[i];
            is_ascii_alnum(c) || c == '-'
        },
    decreases parts.len(),
{
    reveal_strlit("-");
    if parts.len() > 1 {
        lemma_joined_ascii(parts.drop_last());
        let a = joined(parts.drop_last(), "-"@);
        let last = parts.last();
        assert forall|i: int| 0 <= i < joined(parts, "-"@).len() implies {
            let c = #[trigger] joined(parts, "-"@)[i];
            is_ascii_alnum(c) || c == '-'
        } by {
            if i < a.len() {
                assert(joined(parts, "-"@)[i] == a[i]);
            } else if i == a.len() {
                assert(joined(parts, "-"@)[i] == '-');
            } else {
                assert(joined(parts, "-"@)[i] == last[i - a.len() - 1]);
                assert(parts[parts.len() - 1] == last);
            }
        }
    } else if parts.len() == 1 {
        assert forall|i: int| 0 <= i < joined(parts, "-"@).len() implies {
            let c = #[trigger] joined(parts, "-"@)[i];
            is_ascii_alnum(c) || c == '-'
        } by {
            assert(joined(parts, "-"@)[i] == parts[0][i]);
        }
    }
}

proof fn lemma_alnum_runs_ascii(s: Seq<char>)
    ensures
        forall|i: int| 0 <= i < joined(alnum_runs(s), "-"@).len() ==> {
            let c = #[trigger] joined(alnum_runs(s), "-"@)[i];
            is_ascii_alnum(c) || c == '-'
        },
        all_ascii(joined(alnum_runs(s), "-"@)),
{
    lemma_runs_alnum(s);
    let runs = alnum_runs(s);
    let (done, cur) = runs_scan(s);
    assert forall|k: int, j: int| 0 <= k < runs.len() && 0 <= j < runs[k].len() implies is_ascii_alnum(#[trigger] runs[k][j]) by {
        if k < done.len() {
            assert(runs[k] == done[k]);
        } else {
            assert(runs[k] == cur);
        }
    }
    lemma_joined_ascii(runs);
    let t = joined(runs, "-"@);
    assert forall|i: int| 0 <= i < t.len() implies (#[trigger] t[i] as u32) < 128 by {
        let c = t[i];
        assert(is_ascii_alnum(c) || c == '-');
    }
}

fn slug_core(input: &str) -> (r: String)
    ensures
        r@ == slug_text(input@),
{
    let cs = chars_of(input);
    let mut done: Vec<String> = Vec::new();
    let mut cur: Vec<char> = Vec::new();
    let mut i: usize = 0;
    while i < cs.len()
        invariant
            i <= cs@.len(),
            cs@ == input@,
            (done.deep_view(), cur@) == runs_scan(cs@.take(i as int)),
        decreases cs@.len() - i,
    {
        let c = cs[i];
        proof {
            assert(cs@.take(i + 1).drop_last() =~= cs@.take(i as int));
            assert(cs@.take(i + 1).last() == c);
        }
        if ascii_alnum(c) {
            cur.push(c);
        } else if cur.len() > 0 {
            let w = string_of(cur.as_slice());
            let ghost before = done.deep_view();
            done.push(w);
            assert(done.deep_view() =~= before.push(w@));
            cur = Vec::new();
            assert(cur@ =~= Seq::<char>::empty());
        }
        i = i + 1;
    }
    assert(cs@.take(cs@.len() as int) =~= cs@);
    if cur.len() > 0 {
        let w = string_of(cur.as_slice());
        let ghost before = done.deep_view();
        done.push(w);
        assert(done.deep_view() =~= before.push(w@));
    }
    let j = join_with(&done, "-");
    proof {
        lemma_alnum_runs_ascii(input@);
    }
    to_lower(j.as_str())
}

/// The lower-case hexadecimal digit for `d < 16`.
pub open spec fn hex_digit(d: nat) -> char {
    if d < 10 {
        (('0' as u32) + d) as char
    } else {
        (('a' as u32) + (d - 10)) as char
    }
}

/// The lower-case hexadecimal representation of `n`, without leading zeros
/// (how `{:x}` formats an unsigned integer).
pub open spec fn hex(n: nat) -> Seq<char>
    decreases n,
{
    if n < 16 {
        seq![hex_digit(n)]
    } else {
        hex(n / 16).push(hex_digit(n % 16))
    }
}

fn hex_digit_of(d: u64) -> (c: char)
    requires
        d < 16,
    ensures
        c == hex_digit(d as nat),
{
    let table: [char; 16] = ['0', '1', '2', '3', '4', '5', '6', '7', '8', '9', 'a', 'b', 'c', 'd', 'e', 'f'];
    let c = table[d as usize];
    assert(c == hex_digit(d as nat)) by {
        assert(table@ == seq!['0', '1', '2', '3', '4', '5', '6', '7', '8', '9', 'a', 'b', 'c', 'd', 'e', 'f']);
    }
    c
}

/// Formats `n` in lower-case hexadecimal.
pub fn u64_to_hex(n: u64) -> (s: String)
    ensures
        s@ == hex(n as nat),
{
    let mut rev: Vec<char> = Vec::new();
    let mut m: u64 = n;
    let ghost mut suffix: Seq<char> = Seq::empty();
    rev.push(hex_digit_of(m % 16));
    proof {
        suffix = seq![hex_digit((m % 16) as nat)];
    }
    m = m / 16;
    while m > 0
        invariant
            hex(n as nat) == (if m == 0 { Seq::<char>::empty() } else { hex(m as nat) }) + suffix,
            rev@.len() == suffix.len(),
            forall|k: int| 0 <= k < suffix.len() ==> #[trigger] rev@[k] == suffix[suffix.len() - 1 - k],
        decreases m,
    {
        let d = m % 16;
        rev.push(hex_digit_of(d));
        proof {
            let old_suffix = suffix;
            suffix = seq![hex_digit(d as nat)] + old_suffix;
            assert(hex(m as nat) == (if m / 16 == 0 { Seq::<char>::empty() } else { hex((m / 16) as nat) }) + seq![hex_digit(d as nat)]);
            assert forall|k: int| 0 <= k < suffix.len() implies #[trigger] rev@[k] == suffix[suffix.len() - 1 - k] by {
                if k < old_suffix.len() {
                    assert(rev@[k] == old_suffix[old_suffix.len() - 1 - k]);
                }
            }
        }
        m = m / 16;
    }
    let mut s = String::new();
    let mut i: usize = rev.len();
    while i > 0
        invariant
            i <= rev@.len(),
            rev@.len() == suffix.len(),
            forall|k: int| 0 <= k < suffix.len() ==> #[trigger] rev@[k] == suffix[suffix.len() - 1 - k],
            s@ == suffix.take(rev@.len() - i),
        decreases i,
    {
        i = i - 1;
        push_char(&mut s, rev[i]);
        assert(suffix.take(rev@.len() - i) == suffix.take(rev@.len() - i - 1).push(suffix[rev@.len() - 1 - i]));
    }
    assert(suffix.take(suffix.len() as int) == suffix);
    assert(hex(n as nat) == suffix);
    s
}

/// What `std::collections::hash_map::DefaultHasher` gives for the string `s`
/// (a hasher made by `DefaultHasher::new`, fed `s` through `Hash`).
pub uninterp spec fn default_hash(s: Seq<char>) -> u64;

/// Hashes `s` with a fresh `DefaultHasher` (its keys are fixed, so equal
/// strings hash alike); named by `default_hash`.
#[verifier::external_body]
fn hash_of(s: &str) -> (h: u64)
    ensures
        h == default_hash(s@),
{
    let mut hasher = std::collections::hash_map::DefaultHasher::new();
    s.hash(&mut hasher);
    hasher.finish()
}

/// The slug of `s`: its runs of ASCII letters and digits joined by `-` and
/// lower-cased, or, when it has none, `prefix` followed by the hexadecimal
/// hash of `s`.
pub open spec fn slug_with_fallback(s: Seq<char>, prefix: Seq<char>) -> Seq<char> {
    if slug_text(s).len() == 0 {
        prefix + hex(default_hash(s) as nat)
    } else {
        slug_text(s)
    }
}

/// The identifier of an author: the slug of `input`, or "author-" and the
/// hash of `input` when it has no ASCII letter or digit.
pub fn aslugify(input: &str) -> (r: String)
    ensures
        r@ == slug_with_fallback(input@, "author-"@),
{
    let slug = slug_core(input);
    if slug.as_str().is_empty() {
        let mut s = String::from_str("author-");
        let h = u64_to_hex(hash_of(input));
        push_str(&mut s, h.as_str());
        s
    } else {
        slug
    }
}

/// The identifier of a book: the slug of `input`, or "book-" and the hash of
/// `input` when it has no ASCII letter or digit.
pub fn slugify(input: &str) -> (r: String)
    ensures
        r@ == slug_with_fallback(input@, "book-"@),
{
    let slug = slug_core(input);
    if slug.as_str().is_empty() {
        let mut s = String::from_str("book-");
        let h = u64_to_hex(hash_of(input));
        push_str(&mut s, h.as_str());
        s
    } else {
        slug
    }
}

/// `t` ends with `p`.
pub open spec fn ends_with(t: Seq<char>, p: Seq<char>) -> bool {
    p.len() <= t.len() && t.subrange(t.len() - p.len(), t.len() as int) == p
}

/// The author suffix that a title may carry: " - " and the trimmed author.
pub open spec fn author_suffix(author: Seq<char>) -> Seq<char> {
    " - "@ + trimmed(author)
}

/// The trimmed title carries the author suffix, ignoring case.
pub open spec fn has_author_suffix(title: Seq<char>, author: Seq<char>) -> bool {
    ends_with(lowercase(trimmed(title)), lowercase(author_suffix(author)))
}

/// The byte length of the trimmed title without the author suffix.
pub open spec fn title_cut(title: Seq<char>, author: Seq<char>) -> int {
    encode_utf8(trimmed(title)).len() - encode_utf8(author_suffix(author)).len()
}

/// Cutting the author suffix by byte length leaves a whole prefix of the
/// trimmed title.
pub open spec fn title_cut_fits(title: Seq<char>, author: Option<Seq<char>>) -> bool {
    match author {
        Some(a) => has_author_suffix(title, a) ==> {
            &&& 0 <= title_cut(title, a)
            &&& is_char_boundary(encode_utf8(trimmed(title)), title_cut(title, a))
        },
        None => true,
    }
}

/// A title without the author it may end with: when the trimmed title ends,
/// ignoring case, with " - " and the trimmed author, that many bytes are cut
/// and trailing whitespace dropped; otherwise the trimmed title.
pub open spec fn cleaned_title(title: Seq<char>, author: Option<Seq<char>>) -> Seq<char> {
    match author {
        Some(a) => if has_author_suffix(title, a) {
            trim_end(decode_utf8(encode_utf8(trimmed(title)).subrange(0, title_cut(title, a))))
        } else {
            trimmed(title)
        },
        None => trimmed(title),
    }
}

/// Removes a trailing " - <author>" from a title, ignoring case, and trims
/// it. The cut is made by byte length, so the lower-cased suffix must be no
/// longer than the title and end on a character boundary of it.
pub fn clean_title(title: &str, author: &Option<String>) -> (r: String)
    requires
        title_cut_fits(title@, opt_view(*author)),
    ensures
        r@ == cleaned_title(title@, opt_view(*author)),
{
    if let Some(author_name) = author {
        let trimmed_title = trim(title);
        let trimmed_author = trim(author_name.as_str());
        let mut suffix = String::from_str(" - ");
        push_str(&mut suffix, trimmed_author.as_str());
        let lower_title = to_lower(trimmed_title.as_str());
        let lower_suffix = to_lower(suffix.as_str());
        if text_ends_with(lower_title.as_str(), lower_suffix.as_str()) {
            let tt = trimmed_title.as_str();
            let new_len = tt.as_bytes().len() - suffix.as_str().as_bytes().len();
            let (head, _) = tt.split_at(new_len);
            proof {
                encode_utf8_decode_utf8(head@);
            }
            assert(head@ == decode_utf8(encode_utf8(trimmed(title@)).subrange(0, title_cut(title@, author_name@))));
            return trim_end_text(head);
        }
    }
    trim(title)
}

/// Where a book goes in the library: the author's directory, the series
/// directory when the book has a series, and the file name stem.
pub struct BookPlacement {
    pub author_id: String,
    pub series_dir: Option<String>,
    pub file_title: String,
}

/// Decides where a book goes: under the slug of the author's letters, then,
/// when the sanitized series is not empty, under the series' letters; the
/// file is named by the sanitized title.
pub fn book_placement(data: &BookData) -> (p: BookPlacement)
    ensures
        p.author_id@ == slug_with_fallback(letters_id(data.author@), "author-"@),
        p.file_title@ == trimmed(path_safe_chars(data.title@)),
        trimmed(path_safe_chars(data.series@)).len() > 0 ==> (p.series_dir matches Some(d) && d@ == letters_id(data.series@)),
        trimmed(path_safe_chars(data.series@)).len() == 0 ==> p.series_dir is None,
{
    let author_id = aslugify(remove_whitespace(&data.author).as_str());
    let file_title = sanitize_component(data.title.as_str());
    let series = sanitize_component(data.series.as_str());
    let series_dir = if series.as_str().is_empty() {
        None
    } else {
        Some(remove_whitespace(&data.series))
    };
    BookPlacement { author_id, series_dir, file_title }
}

/// The file name for a book titled `title`; `counter` above 0 numbers the
/// copies that a name already taken forces.
pub open spec fn epub_name(title: Seq<char>, counter: nat) -> Seq<char> {
    if counter == 0 {
        title + ".epub"@
    } else {
        title + " ("@ + crate::text::decimal(counter) + ")"@ + ".epub"@
    }
}

/// The file name for a book: `<title>.epub`, or `<title> (<counter>).epub`
/// when `counter` is above 0.
pub fn epub_file_name(title: &str, counter: usize) -> (r: String)
    ensures
        r@ == epub_name(title@, counter as nat),
{
    let mut s = String::new();
    push_str(&mut s, title);
    if counter > 0 {
        push_str(&mut s, " (");
        let n = crate::text::usize_to_decimal(counter);
        push_str(&mut s, n.as_str());
        push_str(&mut s, ")");
    }
    push_str(&mut s, ".epub");
    s
}

/// The record sent to the library service for a placed book.
pub struct BookRecord {
    pub id: String,
    pub title: String,
    pub author_id: String,
    pub series_id: String,
    pub series_name: String,
    pub series_order: u32,
    pub file_path: String,
}

/// Builds the record of a book placed at `file_path`. A book without a
/// series forms a series of its own, titled like the book, at position 1;
/// the series id is the series' letters, or the title's when the series has
/// none; the book id is the slug of author and title together.
pub fn book_record(data: &BookData, file_path: String) -> (r: BookRecord)
    ensures
        r.id@ == slug_with_fallback(data.author@ + data.title@, "book-"@),
        r.title@ == data.title@,
        r.author_id@ == slug_with_fallback(letters_id(data.author@), "author-"@),
        r.series_id@ == (if letters_id(data.series@).len() > 0 { letters_id(data.series@) } else { letters_id(data.title@) }),
        r.series_name@ == (if data.series@.len() > 0 { data.series@ } else { data.title@ }),
        r.series_order == (if data.series@.len() > 0 { data.pos } else { 1 }),
        r.file_path@ == file_path@,
{
    let author_id = aslugify(remove_whitespace(&data.author).as_str());
    let mut series_id = remove_whitespace(&data.series);
    let (series_name, series_order) = if data.series.as_str().is_empty() {
        (data.title.clone(), 1u32)
    } else {
        (data.series.clone(), data.pos)
    };
    if series_id.as_str().is_empty() {
        series_id = remove_whitespace(&data.title);
    }
    let mut key = data.author.clone();
    push_str(&mut key, data.title.as_str());
    let id = slugify(key.as_str());
    BookRecord {
        id,
        title: data.title.clone(),
        author_id,
        series_id,
        series_name,
        series_order,
        file_path,
    }
}

/// The first position at or after `i` where `p` occurs in `t`.
pub open spec fn first_occurrence_from(t: Seq<char>, p: Seq<char>, i: int) -> Option<int>
    decreases t.len() + 1 - i,
{
    if i < 0 || i + p.len() > t.len() {
        None
    } else if crate::text::occurs_at(t, p, i) {
        Some(i)
    } else {
        first_occurrence_from(t, p, i + 1)
    }
}

/// The part of `t` before the first occurrence of `p` (all of `t` when `p`
/// does not occur).
pub open spec fn before_first(t: Seq<char>, p: Seq<char>) -> Seq<char> {
    match first_occurrence_from(t, p, 0) {
        Some(i) => t.subrange(0, i),
        None => t,
    }
}

/// The text searched for when a title is not found as it is: the title up to
/// its first " (", trimmed.
pub open spec fn search_text(title: Seq<char>) -> Seq<char> {
    trimmed(before_first(title, " ("@))
}

fn first_paren_gap(cs: &[char]) -> (r: Option<usize>)
    ensures
        match r {
            Some(i) => i < cs@.len() && first_occurrence_from(cs@, " ("@, 0) == Some(i as int),
            None => first_occurrence_from(cs@, " ("@, 0) is None,
        },
{
    proof {
        reveal_strlit(" (");
    }
    let n = cs.len();
    if n < 2 {
        assert(first_occurrence_from(cs@, " ("@, 0) is None);
        return None;
    }
    let mut i: usize = 0;
    while i < n - 1
        invariant
            n == cs@.len(),
            n >= 2,
            i <= n - 1,
            " ("@ == seq![' ', '('],
            first_occurrence_from(cs@, " ("@, 0) == first_occurrence_from(cs@, " ("@, i as int),
        decreases n - i,
    {
        let ghost w = cs@.subrange(i as int, i + 2);
        if cs[i] == ' ' && cs[i + 1] == '(' {
            assert(w =~= " ("@);
            return Some(i);
        }
        assert(w != " ("@) by {
            if w == " ("@ {
                assert(w[0] == cs@[i as int] && w[1] == cs@[i + 1]);
            }
        }
        i = i + 1;
    }
    assert(first_occurrence_from(cs@, " ("@, i as int) is None);
    None
}

/// Builds the search text for a title: the part before the first " (", trimmed.
pub fn search_query(title: &str) -> (r: String)
    ensures
        r@ == search_text(title@),
{
    let cs = chars_of(title);
    let cut = match first_paren_gap(cs.as_slice()) {
        Some(i) => i,
        None => {
            assert(cs@.subrange(0, cs@.len() as int) =~= cs@);
            cs.len()
        },
    };
    let head = string_of(&cs.as_slice()[0..cut]);
    trim(head.as_str())
}

/// A hit of a book search: its title, its authors, and whether its featured
/// series carries a `featured` flag (outer `Some` when it has a featured
/// series, inner `Some` when that series has the flag).
pub struct SearchHit {
    pub title: Option<String>,
    pub author_names: Option<Vec<String>>,
    pub featured_series: Option<Option<bool>>,
}

/// The hit counts as part of a featured series.
pub open spec fn is_featured(h: SearchHit) -> bool {
    h.featured_series matches Some(f) && f is Some
}

/// The position of the first featured hit at or after `i`.
pub open spec fn first_featured_from(hits: Seq<SearchHit>, i: int) -> Option<int>
    decreases hits.len() - i,
{
    if i < 0 || i >= hits.len() {
        None
    } else if is_featured(hits[i]) {
        Some(i)
    } else {
        first_featured_from(hits, i + 1)
    }
}

/// The hit a search settles on: the first featured one, else the first.
pub open spec fn picked_hit(hits: Seq<SearchHit>) -> Option<int> {
    match first_featured_from(hits, 0) {
        Some(i) => Some(i),
        None => if hits.len() > 0 {
            Some(0)
        } else {
            None
        },
    }
}

/// The title and first author of a hit.
pub open spec fn hit_fields(h: SearchHit) -> (Option<Seq<char>>, Option<Seq<char>>) {
    (opt_view(h.title), match h.author_names {
        Some(v) => if v@.len() > 0 {
            Some(v@[0]@)
        } else {
            None
        },
        None => None,
    })
}

fn first_featured(hits: &[SearchHit]) -> (r: Option<usize>)
    ensures
        match r {
            Some(i) => i < hits@.len() && first_featured_from(hits@, 0) == Some(i as int),
            None => first_featured_from(hits@, 0) is None,
        },
{
    let mut i: usize = 0;
    while i < hits.len()
        invariant
            i <= hits@.len(),
            first_featured_from(hits@, 0) == first_featured_from(hits@, i as int),
        decreases hits@.len() - i,
    {
        let featured = match &hits[i].featured_series {
            Some(f) => f.is_some(),
            None => false,
        };
        if featured {
            return Some(i);
        }
        i = i + 1;
    }
    None
}

/// Picks the book a search found: the first hit in a featured series, or else
/// the first hit, and gives its title and first author (both absent without
/// hits).
pub fn pick_search_hit(hits: &[SearchHit]) -> (r: (Option<String>, Option<String>))
    ensures
        (opt_view(r.0), opt_view(r.1)) == match picked_hit(hits@) {
            Some(i) => hit_fields(hits@[i]),
            None => (None, None),
        },
{
    let chosen: usize = match first_featured(hits) {
        Some(i) => i,
        None => {
            if hits.len() == 0 {
                return (None, None);
            }
            0
        },
    };
    let hit = &hits[chosen];
    let title = hit.title.clone();
    let author = match &hit.author_names {
        Some(v) => if v.len() > 0 {
            Some(v[0].clone())
        } else {
            None
        },
        None => None,
    };
    (title, author)
}

/// A character that may stand in a slug: a lower-case ASCII letter, a digit
/// or `-`.
pub open spec fn is_slug_char(c: char) -> bool {
    ('a' <= c && c <= 'z') || ('0' <= c && c <= '9') || c == '-'
}

proof fn lemma_hex_chars(n: nat)
    ensures
        forall|i: int| 0 <= i < hex(n).len() ==> is_slug_char(#[trigger] hex(n)[i]),
    decreases n,
{
    if n >= 16 {
        lemma_hex_chars(n / 16);
        let h = hex(n / 16);
        assert forall|i: int| 0 <= i < hex(n).len() implies is_slug_char(#[trigger] hex(n)[i]) by {
            if i < h.len() {
                assert(hex(n)[i] == h[i]);
            }
        }
    }
}

/// Slugs are made of lower-case ASCII letters, digits and `-` only, whatever
/// the input: the identifiers made by `slugify` ("book-" fallback) and
/// `aslugify` ("author-" fallback) are safe as path components and keys.
pub proof fn law_slug_charset(s: Seq<char>, prefix: Seq<char>)
    requires
        forall|i: int| 0 <= i < prefix.len() ==> is_slug_char(#[trigger] prefix[i]),
    ensures
        forall|i: int| 0 <= i < slug_with_fallback(s, prefix).len()
            ==> is_slug_char(#[trigger] slug_with_fallback(s, prefix)[i]),
{
    lemma_alnum_runs_ascii(s);
    let j = joined(alnum_runs(s), "-"@);
    let t = slug_text(s);
    assert forall|i: int| 0 <= i < t.len() implies is_slug_char(#[trigger] t[i]) by {
        let c = j[i];
        assert(is_ascii_alnum(c) || c == '-');
        assert(t[i] == ascii_lower(c));
    }
    if t.len() == 0 {
        let h = hex(default_hash(s) as nat);
        lemma_hex_chars(default_hash(s) as nat);
        let f = prefix + h;
        assert forall|i: int| 0 <= i < f.len() implies is_slug_char(#[trigger] f[i]) by {
            if i < prefix.len() {
                assert(f[i] == prefix[i]);
            } else {
                assert(f[i] == h[i - prefix.len()]);
            }
        }
    }
}

/// Whether `clean_title` can cut the author suffix off `title`: the cut, by
/// byte length, must leave a whole prefix of the trimmed title.
pub fn title_cut_is_safe(title: &str, author: &Option<String>) -> (r: bool)
    ensures
        r == title_cut_fits(title@, opt_view(*author)),
{
    let author_name = match author {
        Some(a) => a,
        None => return true,
    };
    let trimmed_title = trim(title);
    let trimmed_author = trim(author_name.as_str());
    let mut suffix = String::from_str(" - ");
    push_str(&mut suffix, trimmed_author.as_str());
    let lower_title = to_lower(trimmed_title.as_str());
    let lower_suffix = to_lower(suffix.as_str());
    if !text_ends_with(lower_title.as_str(), lower_suffix.as_str()) {
        return true;
    }
    let tl = trimmed_title.as_str().as_bytes().len();
    let sl = suffix.as_str().as_bytes().len();
    if sl > tl {
        return false;
    }
    trimmed_title.as_str().is_char_boundary(tl - sl)
}

/// What a book's package document says about it: title, author, calibre
/// series and whole-number series position.
pub struct OpfBookInfo {
    pub title: Option<String>,
    pub author: Option<String>,
    pub series: Option<String>,
    pub series_position: Option<u32>,
}

/// Where the lookup of a book's data stands.
pub enum BookLookup {
    /// The package document was asked for.
    ReadingOpf,
    /// The catalogue was asked for the series of the book as found.
    QueryingSeries { data: BookData },
    /// The catalogue was searched for the book's title.
    Searching { data: BookData },
    /// The catalogue was asked for the series of the book the search found.
    QueryingFoundSeries { data: BookData, title: String, author: String },
    /// The lookup is over.
    Finished,
}

/// What the caller is asked to do next.
pub enum LookupAction {
    /// Read the book's package document.
    ReadOpf,
    /// Ask the catalogue for the series of the book by `title` and `author`.
    QuerySeries { title: String, author: String },
    /// Search the catalogue for `query`.
    Search { query: String },
    /// The lookup is over, with this outcome.
    Done(Result<BookData, String>),
}

/// How the last action ended.
pub enum LookupEvent {
    /// The package document's information, or why it could not be read.
    OpfRead(Result<OpfBookInfo, String>),
    /// The catalogue's series (name and whole-number position) for the book.
    SeriesFound(Result<Option<(String, Option<u32>)>, String>),
    /// The catalogue's search hits.
    SearchDone(Result<Vec<SearchHit>, String>),
}

/// Two book records hold the same values.
pub open spec fn same_book(a: BookData, b: BookData) -> bool {
    a.author@ == b.author@ && a.title@ == b.title@ && a.series@ == b.series@ && a.pos == b.pos
}

/// `b` is `a` with the series and position a catalogue answer gives, when it
/// gives both.
pub open spec fn with_series(a: BookData, answer: Option<(String, Option<u32>)>, b: BookData) -> bool {
    match answer {
        Some((s, Some(p))) => a.author@ == b.author@ && a.title@ == b.title@ && b.series@ == s@ && b.pos == p,
        _ => same_book(a, b),
    }
}

/// The lookup ends with the error `m`.
pub open spec fn lookup_fails_with(next: (BookLookup, LookupAction), m: Seq<char>) -> bool {
    &&& next.0 is Finished
    &&& next.1 matches LookupAction::Done(Err(e)) && e@ == m
}

/// The lookup ends with a record satisfying `ok`.
pub open spec fn lookup_done(next: (BookLookup, LookupAction)) -> Option<BookData> {
    if next.0 is Finished && next.1 matches LookupAction::Done(Ok(d)) {
        Some(next.1->Done_0->Ok_0)
    } else {
        None
    }
}

/// `event` answers the action that a lookup in `state` asked for.
pub open spec fn lookup_answers(state: BookLookup, event: LookupEvent) -> bool {
    match state {
        BookLookup::ReadingOpf => event matches LookupEvent::OpfRead(r) && (r matches Ok(info)
            ==> (info.author matches Some(a) ==> title_cut_fits(opt_view(info.title).unwrap_or(Seq::empty()), Some(a@)))),
        BookLookup::QueryingSeries { .. } | BookLookup::QueryingFoundSeries { .. } => event is SeriesFound,
        BookLookup::Searching { .. } => event is SearchDone,
        BookLookup::Finished => false,
    }
}

/// Starts looking up a book's data: its package document is read first.
pub fn begin_book_data() -> (next: (BookLookup, LookupAction))
    ensures
        next.0 is ReadingOpf,
        next.1 is ReadOpf,
{
    (BookLookup::ReadingOpf, LookupAction::ReadOpf)
}

/// Takes one step of a book's lookup. A package document without both title
/// and author fails the lookup; otherwise the title loses its author suffix,
/// and the package's own series, when it gives one with a position, ends the
/// lookup. Else the catalogue is asked for the series; when that fails, the
/// catalogue is searched for the title up to its first " (", and the series
/// of the book found (first featured hit, else first hit) is asked for, the
/// found title and author replacing the book's.
pub fn book_data_step(state: BookLookup, event: LookupEvent) -> (next: (BookLookup, LookupAction))
    requires
        lookup_answers(state, event),
    ensures
        next.0 is Finished <==> next.1 is Done,
        state is ReadingOpf ==> match event {
            LookupEvent::OpfRead(Err(e)) => lookup_fails_with(next, e@),
            LookupEvent::OpfRead(Ok(info)) => match (info.title, info.author) {
                (Some(t), Some(a)) => {
                    let title = cleaned_title(t@, Some(a@));
                    match (info.series, info.series_position) {
                        (Some(s), Some(p)) => lookup_done(next) matches Some(d)
                            && d.title@ == title && d.author@ == a@ && d.series@ == s@ && d.pos == p,
                        _ => {
                            &&& next.0 matches BookLookup::QueryingSeries { data }
                                && (data.title@ == title && data.author@ == a@ && data.series@ == Seq::<char>::empty() && data.pos == 0)
                            &&& next.1 matches LookupAction::QuerySeries { title: qt, author: qa }
                                && (qt@ == title && qa@ == a@)
                        },
                    }
                },
                _ => lookup_fails_with(next, "no title and author"@),
            },
            _ => false,
        },
        state matches BookLookup::QueryingSeries { data } ==> match event {
            LookupEvent::SeriesFound(Ok(answer)) => lookup_done(next) matches Some(d) && with_series(data, answer, d),
            LookupEvent::SeriesFound(Err(_)) => {
                &&& next.0 matches BookLookup::Searching { data: kept } && same_book(kept, data)
                &&& next.1 matches LookupAction::Search { query } && query@ == search_text(data.title@)
            },
            _ => false,
        },
        state matches BookLookup::Searching { data } ==> match event {
            LookupEvent::SearchDone(Err(e)) => lookup_fails_with(next, e@),
            LookupEvent::SearchDone(Ok(hits)) => match picked_hit(hits@) {
                Some(i) => match hit_fields(hits@[i]) {
                    (Some(t), Some(a)) => {
                        &&& next.0 matches BookLookup::QueryingFoundSeries { data: kept, title, author }
                            && (same_book(kept, data) && title@ == t && author@ == a)
                        &&& next.1 matches LookupAction::QuerySeries { title: qt, author: qa } && (qt@ == t && qa@ == a)
                    },
                    _ => lookup_done(next) matches Some(d) && same_book(d, data),
                },
                None => lookup_done(next) matches Some(d) && same_book(d, data),
            },
            _ => false,
        },
        state matches BookLookup::QueryingFoundSeries { data, title, author } ==> match event {
            LookupEvent::SeriesFound(Err(e)) => lookup_fails_with(next, e@),
            LookupEvent::SeriesFound(Ok(answer)) => lookup_done(next) matches Some(d)
                && with_series(BookData { author, title, series: data.series, pos: data.pos }, answer, d),
            _ => false,
        },
{
    match state {
        BookLookup::ReadingOpf => match event {
            LookupEvent::OpfRead(Err(e)) => (BookLookup::Finished, LookupAction::Done(Err(e))),
            LookupEvent::OpfRead(Ok(info)) => {
                match (info.title, info.author) {
                    (Some(t), Some(a)) => {
                        let author_opt = Some(a);
                        let title = clean_title(t.as_str(), &author_opt);
                        let a = match author_opt {
                            Some(a) => a,
                            None => String::new(),
                        };
                        let mut data = BookData::new();
                        data.title = title;
                        data.author = a;
                        match (info.series, info.series_position) {
                            (Some(s), Some(p)) => {
                                data.series = s;
                                data.pos = p;
                                (BookLookup::Finished, LookupAction::Done(Ok(data)))
                            },
                            _ => {
                                let qt = data.title.clone();
                                let qa = data.author.clone();
                                (BookLookup::QueryingSeries { data }, LookupAction::QuerySeries { title: qt, author: qa })
                            },
                        }
                    },
                    _ => (BookLookup::Finished, LookupAction::Done(Err(String::from_str("no title and author")))),
                }
            },
            _ => (BookLookup::Finished, LookupAction::Done(Err(String::new()))),
        },
        BookLookup::QueryingSeries { data } => match event {
            LookupEvent::SeriesFound(Ok(answer)) => {
                let mut data = data;
                if let Some((s, Some(p))) = answer {
                    data.series = s;
                    data.pos = p;
                }
                (BookLookup::Finished, LookupAction::Done(Ok(data)))
            },
            LookupEvent::SeriesFound(Err(_)) => {
                let query = search_query(data.title.as_str());
                (BookLookup::Searching { data }, LookupAction::Search { query })
            },
            _ => (BookLookup::Finished, LookupAction::Done(Err(String::new()))),
        },
        BookLookup::Searching { data } => match event {
            LookupEvent::SearchDone(Err(e)) => (BookLookup::Finished, LookupAction::Done(Err(e))),
            LookupEvent::SearchDone(Ok(hits)) => {
                match pick_search_hit(hits.as_slice()) {
                    (Some(t), Some(a)) => {
                        let qt = t.clone();
                        let qa = a.clone();
                        (BookLookup::QueryingFoundSeries { data, title: t, author: a }, LookupAction::QuerySeries { title: qt, author: qa })
                    },
                    _ => (BookLookup::Finished, LookupAction::Done(Ok(data))),
                }
            },
            _ => (BookLookup::Finished, LookupAction::Done(Err(String::new()))),
        },
        BookLookup::QueryingFoundSeries { data, title, author } => match event {
            LookupEvent::SeriesFound(Err(e)) => (BookLookup::Finished, LookupAction::Done(Err(e))),
            LookupEvent::SeriesFound(Ok(answer)) => {
                let mut data = data;
                data.title = title;
                data.author = author;
                if let Some((s, Some(p))) = answer {
                    data.series = s;
                    data.pos = p;
                }
                (BookLookup::Finished, LookupAction::Done(Ok(data)))
            },
            _ => (BookLookup::Finished, LookupAction::Done(Err(String::new()))),
        },
        BookLookup::Finished => (BookLookup::Finished, LookupAction::Done(Err(String::new()))),
    }
}

/// Every character of `v` is an ASCII letter or digit.
pub open spec fn all_alnum(v: Seq<char>) -> bool {
    forall|i: int| 0 <= i < v.len() ==> is_ascii_alnum(#[trigger] v[i])
}

proof fn lemma_runs_append_alnum(u: Seq<char>, v: Seq<char>)
    requires
        all_alnum(v),
    ensures
        runs_scan(u + v) == (runs_scan(u).0, runs_scan(u).1 + v),
    decreases v.len(),
{
    if v.len() == 0 {
        assert(u + v =~= u);
        assert(runs_scan(u).1 + v =~= runs_scan(u).1);
    } else {
        let w = v.drop_last();
        assert(all_alnum(w)) by {
            assert forall|i: int| 0 <= i < w.len() implies is_ascii_alnum(#[trigger] w[i]) by {
                assert(w[i] == v[i]);
            }
        }
        lemma_runs_append_alnum(u, w);
        assert((u + v).drop_last() =~= u + w);
        assert((u + v).last() == v.last());
        assert(is_ascii_alnum(v[v.len() - 1]));
        assert(runs_scan(u).1 + w.push(v.last()) =~= runs_scan(u).1 + v);
        assert((runs_scan(u).1 + w).push(v.last()) =~= runs_scan(u).1 + v);
    }
}

proof fn lemma_runs_after_dash(u: Seq<char>)
    ensures
        runs_scan(u.push('-')) == (alnum_runs(u), Seq::<char>::empty()),
{
    assert(u.push('-').drop_last() =~= u);
    assert(!is_ascii_alnum('-'));
}

/// The parts of a slug: non-empty runs of ASCII letters and digits.
pub open spec fn slug_parts(r: Seq<Seq<char>>) -> bool {
    forall|k: int| 0 <= k < r.len() ==> (#[trigger] r[k]).len() > 0 && all_alnum(r[k])
}

proof fn lemma_runs_of_joined(r: Seq<Seq<char>>)
    requires
        r.len() > 0,
        slug_parts(r),
    ensures
        runs_scan(joined(r, "-"@)) == (r.drop_last(), r.last()),
    decreases r.len(),
{
    reveal_strlit("-");
    if r.len() == 1 {
        lemma_runs_append_alnum(Seq::empty(), r[0]);
        assert(Seq::<char>::empty() + r[0] =~= r[0]);
        assert(r.drop_last() =~= Seq::<Seq<char>>::empty());
        assert(Seq::<char>::empty() + r[0] =~= r[0]);
    } else {
        let p = r.drop_last();
        assert(slug_parts(p)) by {
            assert forall|k: int| 0 <= k < p.len() implies (#[trigger] p[k]).len() > 0 && all_alnum(p[k]) by {
                assert(p[k] == r[k]);
            }
        }
        lemma_runs_of_joined(p);
        let j = joined(p, "-"@);
        lemma_runs_after_dash(j);
        assert(p.drop_last().push(p.last()) =~= p);
        assert(alnum_runs(j) == p);
        assert(r[r.len() - 1].len() > 0 && all_alnum(r[r.len() - 1]));
        lemma_runs_append_alnum(j.push('-'), r.last());
        assert(joined(r, "-"@) == j + "-"@ + r.last());
        assert(j + "-"@ + r.last() =~= j.push('-') + r.last());
        assert(Seq::<char>::empty() + r.last() =~= r.last());
    }
}

proof fn lemma_alnum_runs_of_joined(r: Seq<Seq<char>>)
    requires
        r.len() > 0,
        slug_parts(r),
    ensures
        alnum_runs(joined(r, "-"@)) == r,
{
    lemma_runs_of_joined(r);
    assert(r.drop_last().push(r.last()) =~= r);
}

/// The part `p` lower-cased.
pub open spec fn lower_part(p: Seq<char>) -> Seq<char> {
    p.map_values(|c: char| ascii_lower(c))
}

proof fn lemma_lower_joined(r: Seq<Seq<char>>)
    ensures
        joined(r, "-"@).map_values(|c: char| ascii_lower(c)) == joined(r.map_values(|p: Seq<char>| lower_part(p)), "-"@),
    decreases r.len(),
{
    reveal_strlit("-");
    let l = r.map_values(|p: Seq<char>| lower_part(p));
    if r.len() == 0 {
        assert(joined(r, "-"@).map_values(|c: char| ascii_lower(c)) =~= Seq::<char>::empty());
    } else if r.len() == 1 {
        assert(l[0] == lower_part(r[0]));
        assert(joined(r, "-"@).map_values(|c: char| ascii_lower(c)) =~= lower_part(r[0]));
    } else {
        lemma_lower_joined(r.drop_last());
        assert(r.drop_last().map_values(|p: Seq<char>| lower_part(p)) =~= l.drop_last());
        let a = joined(r.drop_last(), "-"@);
        assert(l.last() == lower_part(r.last()));
        assert((a + "-"@ + r.last()).map_values(|c: char| ascii_lower(c))
            =~= a.map_values(|c: char| ascii_lower(c)) + "-"@ + lower_part(r.last()));
    }
}

proof fn lemma_lower_parts_are_parts(r: Seq<Seq<char>>)
    requires
        slug_parts(r),
    ensures
        slug_parts(r.map_values(|p: Seq<char>| lower_part(p))),
        r.map_values(|p: Seq<char>| lower_part(p)).map_values(|p: Seq<char>| lower_part(p))
            == r.map_values(|p: Seq<char>| lower_part(p)),
{
    let l = r.map_values(|p: Seq<char>| lower_part(p));
    assert forall|k: int| 0 <= k < l.len() implies (#[trigger] l[k]).len() > 0 && all_alnum(l[k]) by {
        assert(l[k] == lower_part(r[k]));
        assert(r[k].len() > 0 && all_alnum(r[k]));
        assert forall|i: int| 0 <= i < l[k].len() implies is_ascii_alnum(#[trigger] l[k][i]) by {
            assert(l[k][i] == ascii_lower(r[k][i]));
            assert(is_ascii_alnum(r[k][i]));
        }
    }
    let ll = l.map_values(|p: Seq<char>| lower_part(p));
    assert forall|k: int| 0 <= k < ll.len() implies #[trigger] ll[k] == l[k] by {
        assert(ll[k] =~= l[k]) by {
            assert forall|i: int| 0 <= i < l[k].len() implies #[trigger] lower_part(l[k])[i] == l[k][i] by {
                assert(l[k][i] == ascii_lower(r[k][i]));
            }
        }
    }
    assert(ll =~= l);
}

proof fn lemma_runs_are_parts(s: Seq<char>)
    ensures
        slug_parts(alnum_runs(s)),
{
    lemma_runs_alnum(s);
    let (done, cur) = runs_scan(s);
    let runs = alnum_runs(s);
    assert forall|k: int| 0 <= k < runs.len() implies (#[trigger] runs[k]).len() > 0 && all_alnum(runs[k]) by {
        if k < done.len() {
            assert(runs[k] == done[k]);
        } else {
            assert(runs[k] == cur);
        }
        assert forall|i: int| 0 <= i < runs[k].len() implies is_ascii_alnum(#[trigger] runs[k][i]) by {
            if k < done.len() {
                assert(runs[k][i] == done[k][i]);
            } else {
                assert(runs[k][i] == cur[i]);
            }
        }
    }
}

proof fn lemma_slug_text_of_parts(r: Seq<Seq<char>>)
    requires
        r.len() > 0,
        slug_parts(r),
        r.map_values(|p: Seq<char>| lower_part(p)) == r,
    ensures
        slug_text(joined(r, "-"@)) == joined(r, "-"@),
{
    lemma_alnum_runs_of_joined(r);
    lemma_lower_joined(r);
}

proof fn lemma_hex_parts(n: nat)
    ensures
        hex(n).len() > 0,
        all_alnum(hex(n)),
        lower_part(hex(n)) == hex(n),
{
    lemma_hex_chars(n);
    let h = hex(n);
    assert(h.len() > 0) by {
        if n >= 16 {
            assert(hex(n) == hex(n / 16).push(hex_digit(n % 16)));
        }
    }
    assert forall|i: int| 0 <= i < h.len() implies is_ascii_alnum(#[trigger] h[i]) by {
        assert(is_slug_char(h[i]));
        if h[i] == '-' {
            lemma_hex_no_dash(n, i);
        }
    }
    assert(lower_part(h) =~= h) by {
        assert forall|i: int| 0 <= i < h.len() implies #[trigger] lower_part(h)[i] == h[i] by {
            assert(is_slug_char(h[i]));
        }
    }
}

proof fn lemma_hex_no_dash(n: nat, i: int)
    requires
        0 <= i < hex(n).len(),
    ensures
        hex(n)[i] != '-',
    decreases n,
{
    if n >= 16 {
        let p = hex(n / 16);
        if i < p.len() {
            assert(hex(n)[i] == p[i]);
            lemma_hex_no_dash(n / 16, i);
        }
    }
}

/// Making a slug of a slug changes nothing: identifiers made by `slugify`
/// (and, with "author-", by `aslugify`) are stable under being slugged again.
pub proof fn law_slug_idempotent(s: Seq<char>, prefix_word: Seq<char>)
    requires
        prefix_word.len() > 0,
        all_alnum(prefix_word),
        lower_part(prefix_word) == prefix_word,
    ensures
        slug_with_fallback(slug_with_fallback(s, prefix_word.push('-')), prefix_word.push('-'))
            == slug_with_fallback(s, prefix_word.push('-')),
{
    reveal_strlit("-");
    let prefix = prefix_word.push('-');
    let t = slug_with_fallback(s, prefix);
    if slug_text(s).len() > 0 {
        let r = alnum_runs(s);
        lemma_runs_are_parts(s);
        lemma_lower_joined(r);
        let l = r.map_values(|p: Seq<char>| lower_part(p));
        lemma_lower_parts_are_parts(r);
        assert(t == joined(l, "-"@));
        if r.len() == 0 {
            assert(joined(r, "-"@) =~= Seq::<char>::empty());
        }
        lemma_slug_text_of_parts(l);
    } else {
        let h = hex(default_hash(s) as nat);
        lemma_hex_parts(default_hash(s) as nat);
        let r = seq![prefix_word, h];
        assert(slug_parts(r));
        assert(r.map_values(|p: Seq<char>| lower_part(p)) =~= r);
        assert(r.drop_last() =~= seq![prefix_word]);
        assert(joined(r, "-"@) == joined(seq![prefix_word], "-"@) + "-"@ + h);
        assert(t =~= joined(r, "-"@));
        lemma_slug_text_of_parts(r);
    }
}

/// The ASCII letters and digits of `s`, in order.
pub open spec fn alnum_chars(s: Seq<char>) -> Seq<char>
    decreases s.len(),
{
    if s.len() == 0 {
        Seq::empty()
    } else if is_ascii_alnum(s.last()) {
        alnum_chars(s.drop_last()).push(s.last())
    } else {
        alnum_chars(s.drop_last())
    }
}

/// The parts of `r` one after the other.
pub open spec fn concat_parts(r: Seq<Seq<char>>) -> Seq<char>
    decreases r.len(),
{
    if r.len() == 0 {
        Seq::empty()
    } else {
        concat_parts(r.drop_last()) + r.last()
    }
}

/// `t` without its `-` characters.
pub open spec fn without_dashes(t: Seq<char>) -> Seq<char>
    decreases t.len(),
{
    if t.len() == 0 {
        Seq::empty()
    } else if t.last() == '-' {
        without_dashes(t.drop_last())
    } else {
        without_dashes(t.drop_last()).push(t.last())
    }
}

/// No two `-` stand next to each other in `t`.
pub open spec fn no_double_dash(t: Seq<char>) -> bool {
    forall|i: int| 0 <= i < t.len() - 1 ==> !(#[trigger] t[i] == '-' && t[i + 1] == '-')
}

/// Some character of `s` is an ASCII letter or digit.
pub open spec fn has_alnum(s: Seq<char>) -> bool {
    exists|i: int| 0 <= i < s.len() && is_ascii_alnum(#[trigger] s[i])
}

proof fn lemma_scan_chars(s: Seq<char>)
    ensures
        concat_parts(runs_scan(s).0) + runs_scan(s).1 == alnum_chars(s),
    decreases s.len(),
{
    if s.len() == 0 {
        assert(Seq::<char>::empty() + Seq::<char>::empty() =~= Seq::<char>::empty());
    } else {
        let u = s.drop_last();
        lemma_scan_chars(u);
        let (done, cur) = runs_scan(u);
        let c = s.last();
        if is_ascii_alnum(c) {
            assert(concat_parts(done) + cur.push(c) =~= (concat_parts(done) + cur).push(c));
        } else if cur.len() > 0 {
            assert(done.push(cur).drop_last() =~= done);
            assert(concat_parts(done.push(cur)) + Seq::<char>::empty() =~= concat_parts(done) + cur);
        }
    }
}

proof fn lemma_alnum_chars_nonempty(s: Seq<char>)
    ensures
        has_alnum(s) <==> alnum_chars(s).len() > 0,
    decreases s.len(),
{
    if s.len() > 0 {
        let u = s.drop_last();
        lemma_alnum_chars_nonempty(u);
        if has_alnum(u) {
            let i = choose|i: int| 0 <= i < u.len() && is_ascii_alnum(#[trigger] u[i]);
            assert(s[i] == u[i]);
        }
        if has_alnum(s) && !is_ascii_alnum(s.last()) {
            let i = choose|i: int| 0 <= i < s.len() && is_ascii_alnum(#[trigger] s[i]);
            assert(u[i] == s[i]);
        }
        if is_ascii_alnum(s.last()) {
            assert(is_ascii_alnum(s[s.len() - 1]));
        }
    }
}

proof fn lemma_without_dashes_append(a: Seq<char>, b: Seq<char>)
    ensures
        without_dashes(a + b) == without_dashes(a) + without_dashes(b),
    decreases b.len(),
{
    if b.len() == 0 {
        assert(a + b =~= a);
        assert(without_dashes(a) + Seq::<char>::empty() =~= without_dashes(a));
    } else {
        lemma_without_dashes_append(a, b.drop_last());
        assert((a + b).drop_last() =~= a + b.drop_last());
        assert((a + b).last() == b.last());
        if b.last() != '-' {
            assert((without_dashes(a) + without_dashes(b.drop_last())).push(b.last())
                =~= without_dashes(a) + without_dashes(b.drop_last()).push(b.last()));
        }
    }
}

proof fn lemma_without_dashes_alnum(p: Seq<char>)
    requires
        all_alnum(p),
    ensures
        without_dashes(p) == p,
    decreases p.len(),
{
    if p.len() > 0 {
        let q = p.drop_last();
        assert(all_alnum(q)) by {
            assert forall|i: int| 0 <= i < q.len() implies is_ascii_alnum(#[trigger] q[i]) by {
                assert(q[i] == p[i]);
            }
        }
        lemma_without_dashes_alnum(q);
        assert(is_ascii_alnum(p[p.len() - 1]));
        assert(q.push(p.last()) =~= p);
    }
}

proof fn lemma_joined_shape(r: Seq<Seq<char>>)
    requires
        r.len() > 0,
        slug_parts(r),
    ensures
        without_dashes(joined(r, "-"@)) == concat_parts(r),
        joined(r, "-"@).len() > 0,
        joined(r, "-"@)[0] != '-',
        joined(r, "-"@).last() != '-',
        no_double_dash(joined(r, "-"@)),
    decreases r.len(),
{
    reveal_strlit("-");
    let last = r.last();
    assert(last.len() > 0 && all_alnum(last));
    assert(is_ascii_alnum(last[0]) && is_ascii_alnum(last[last.len() - 1]));
    lemma_without_dashes_alnum(last);
    if r.len() == 1 {
        assert(r.drop_last() =~= Seq::<Seq<char>>::empty());
        assert(concat_parts(r.drop_last()) == Seq::<char>::empty());
        assert(Seq::<char>::empty() + r[0] =~= r[0]);
        assert(concat_parts(r) == r[0]);
        assert forall|i: int| 0 <= i < last.len() - 1 implies !(#[trigger] last[i] == '-' && last[i + 1] == '-') by {
            assert(is_ascii_alnum(last[i]));
        }
    } else {
        let p = r.drop_last();
        assert(slug_parts(p)) by {
            assert forall|k: int| 0 <= k < p.len() implies (#[trigger] p[k]).len() > 0 && all_alnum(p[k]) by {
                assert(p[k] == r[k]);
            }
        }
        lemma_joined_shape(p);
        let j = joined(p, "-"@);
        let t = joined(r, "-"@);
        assert(t == j + "-"@ + last);
        lemma_without_dashes_append(j + "-"@, last);
        lemma_without_dashes_append(j, "-"@);
        assert("-"@ =~= seq!['-']);
        assert(without_dashes(seq!['-']) =~= Seq::<char>::empty()) by {
            assert(seq!['-'].drop_last() =~= Seq::<char>::empty());
            assert(seq!['-'].last() == '-');
            assert(without_dashes(Seq::<char>::empty()) == Seq::<char>::empty());
        }
        assert(without_dashes(j) + Seq::<char>::empty() =~= without_dashes(j));
        assert(t[0] == j[0]);
        assert(t.last() == last[last.len() - 1]);
        assert forall|i: int| 0 <= i < t.len() - 1 implies !(#[trigger] t[i] == '-' && t[i + 1] == '-') by {
            if i < j.len() - 1 {
                assert(t[i] == j[i] && t[i + 1] == j[i + 1]);
            } else if i == j.len() - 1 {
                assert(t[i] == j.last());
            } else if i == j.len() {
                assert(t[i + 1] == last[0]);
            } else {
                let k = i - j.len() - 1;
                assert(t[i] == last[k]);
                assert(is_ascii_alnum(last[k]));
            }
        }
    }
}

proof fn lemma_lower_without_dashes(t: Seq<char>)
    ensures
        without_dashes(t.map_values(|c: char| ascii_lower(c))) == without_dashes(t).map_values(|c: char| ascii_lower(c)),
    decreases t.len(),
{
    if t.len() > 0 {
        let u = t.drop_last();
        lemma_lower_without_dashes(u);
        let m = t.map_values(|c: char| ascii_lower(c));
        assert(m.drop_last() =~= u.map_values(|c: char| ascii_lower(c)));
        assert(m.last() == ascii_lower(t.last()));
        assert((ascii_lower(t.last()) == '-') == (t.last() == '-'));
        if t.last() != '-' {
            assert(without_dashes(u).push(t.last()).map_values(|c: char| ascii_lower(c))
                =~= without_dashes(u).map_values(|c: char| ascii_lower(c)).push(ascii_lower(t.last())));
        }
    }
}

/// The shape of a slug made from an input with an ASCII letter or digit
/// (by `slugify` or `aslugify`, whatever the fallback prefix): it is not
/// empty, starts and ends with a letter or digit, has no two `-` in a row,
/// and without its `-` it is exactly the input's ASCII letters and digits,
/// lower-cased.
pub proof fn law_slug_shape(s: Seq<char>, prefix: Seq<char>)
    requires
        has_alnum(s),
    ensures
        slug_with_fallback(s, prefix) == slug_text(s),
        slug_text(s).len() > 0,
        slug_text(s)[0] != '-',
        slug_text(s).last() != '-',
        no_double_dash(slug_text(s)),
        without_dashes(slug_text(s)) == alnum_chars(s).map_values(|c: char| ascii_lower(c)),
{
    lemma_alnum_chars_nonempty(s);
    lemma_scan_chars(s);
    lemma_runs_are_parts(s);
    let r = alnum_runs(s);
    let (done, cur) = runs_scan(s);
    assert(concat_parts(r) == alnum_chars(s)) by {
        if cur.len() > 0 {
            assert(r.drop_last() =~= done);
        } else {
            assert(concat_parts(done) + cur =~= concat_parts(done));
        }
    }
    assert(r.len() > 0) by {
        if r.len() == 0 {
            assert(concat_parts(r) =~= Seq::<char>::empty());
        }
    }
    lemma_joined_shape(r);
    let j = joined(r, "-"@);
    let t = slug_text(s);
    assert(t == j.map_values(|c: char| ascii_lower(c)));
    lemma_lower_without_dashes(j);
    assert(t[0] == ascii_lower(j[0]));
    assert(t.last() == ascii_lower(j.last()));
    assert forall|i: int| 0 <= i < t.len() - 1 implies !(#[trigger] t[i] == '-' && t[i + 1] == '-') by {
        assert(t[i] == ascii_lower(j[i]) && t[i + 1] == ascii_lower(j[i + 1]));
        assert(!(j[i] == '-' && j[i + 1] == '-'));
    }
}

/// The identifiers of an author (`aslugify`) and of a book (`slugify`) made
/// from the same input: the same slug when it has an ASCII letter or digit;
/// otherwise "author-" and "book-" followed by one and the same non-empty
/// hash.
pub proof fn law_author_and_book_slugs(s: Seq<char>)
    ensures
        has_alnum(s) ==> slug_with_fallback(s, "author-"@) == slug_with_fallback(s, "book-"@),
        !has_alnum(s) ==> exists|h: Seq<char>| h.len() > 0
            && slug_with_fallback(s, "author-"@) == "author-"@ + h
            && slug_with_fallback(s, "book-"@) == "book-"@ + h,
{
    if has_alnum(s) {
        law_slug_shape(s, "author-"@);
        law_slug_shape(s, "book-"@);
    } else {
        lemma_alnum_chars_nonempty(s);
        lemma_scan_chars(s);
        let r = alnum_runs(s);
        let (done, cur) = runs_scan(s);
        assert(r.len() == 0) by {
            lemma_runs_are_parts(s);
            if r.len() > 0 {
                lemma_concat_nonempty(r);
                if cur.len() > 0 {
                    assert(r.drop_last() =~= done);
                } else {
                    assert(concat_parts(done) + cur =~= concat_parts(done));
                }
            }
        }
        assert(joined(r, "-"@) =~= Seq::<char>::empty());
        assert(slug_text(s).len() == 0);
        lemma_hex_parts(default_hash(s) as nat);
        let h = hex(default_hash(s) as nat);
        assert(h.len() > 0 && slug_with_fallback(s, "author-"@) == "author-"@ + h
            && slug_with_fallback(s, "book-"@) == "book-"@ + h);
    }
}

proof fn lemma_concat_nonempty(r: Seq<Seq<char>>)
    requires
        r.len() > 0,
        slug_parts(r),
    ensures
        concat_parts(r).len() > 0,
{
    assert(r[r.len() - 1].len() > 0);
}

} // verus!
