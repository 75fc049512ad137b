//! A comparison of a book's chapter files with the entries of its NCX table
//! of contents: chapters the table leaves out, entries that point at no
//! chapter, and whether the table lists exactly the chapters, in order.

use vstd::prelude::*;

use crate::library::toc_model::Ncx;
use crate::text::{contains_seq, name_listed, push_str, same_text, text_contains, text_ends_with, text_starts_with, texts_of};

verus! {

/// An entry of the surveyed table of contents.
pub struct TocEntry {
    pub src: String,
}

/// What the survey of an archive found.
pub struct TocAnalysisResult {
    pub toc_present: bool,
    pub toc_entries: Vec<TocEntry>,
    pub chapter_files: Vec<String>,
    pub toc_matches_chapters: bool,
    pub missing_chapters: Vec<String>,
    pub orphan_toc_entries: Vec<String>,
}

/// `p` ends `s`.
pub open spec fn has_suffix(s: Seq<char>, p: Seq<char>) -> bool {
    p.len() <= s.len() && s.subrange(s.len() - p.len(), s.len() as int) == p
}

/// `p` begins `s`.
pub open spec fn has_prefix(s: Seq<char>, p: Seq<char>) -> bool {
    p.len() <= s.len() && s.subrange(0, p.len() as int) == p
}

/// An entry that counts as a chapter: an XHTML file that is not the table of
/// contents under `OEBPS/`.
pub open spec fn is_chapter_name(n: Seq<char>) -> bool {
    has_suffix(n, ".xhtml"@) && !has_prefix(n, "OEBPS/toc"@)
}

/// An entry that is an NCX table.
pub open spec fn is_ncx_name(n: Seq<char>) -> bool {
    has_suffix(n, "toc.ncx"@)
}

/// The chapter entries among `names`, in order.
pub open spec fn chapter_names(names: Seq<Seq<char>>) -> Seq<Seq<char>>
    decreases names.len(),
{
    if names.len() == 0 {
        Seq::empty()
    } else if is_chapter_name(names.last()) {
        chapter_names(names.drop_last()).push(names.last())
    } else {
        chapter_names(names.drop_last())
    }
}

/// The number of NCX entries among `names`.
pub open spec fn ncx_count(names: Seq<Seq<char>>) -> nat
    decreases names.len(),
{
    if names.len() == 0 {
        0
    } else if is_ncx_name(names.last()) {
        ncx_count(names.drop_last()) + 1
    } else {
        ncx_count(names.drop_last())
    }
}

/// The chapter entries among the entry names of an archive, in order: the
/// `.xhtml` entries not under `OEBPS/toc`.
pub fn chapter_entries(names: &[String]) -> (r: Vec<String>)
    ensures
        texts_of(r@) == chapter_names(names@.map_values(|s: String| s@)),
{
    let ghost nv = names@.map_values(|s: String| s@);
    let mut chapters: Vec<String> = Vec::new();
    let mut i: usize = 0;
    while i < names.len()
        invariant
            i <= names@.len(),
            nv == names@.map_values(|s: String| s@),
            texts_of(chapters@) == chapter_names(nv.take(i as int)),
        decreases names@.len() - i,
    {
        let name = names[i].as_str();
        proof {
            assert(nv.take(i + 1).drop_last() =~= nv.take(i as int));
            assert(nv.take(i + 1).last() == name@);
        }
        if text_ends_with(name, ".xhtml") && !text_starts_with(name, "OEBPS/toc") {
            let ghost before = texts_of(chapters@);
            chapters.push(names[i].clone());
            assert(texts_of(chapters@) =~= before.push(name@));
        }
        i = i + 1;
    }
    assert(nv.take(names@.len() as int) =~= nv);
    chapters
}

/// The first NCX entry among `names`.
pub open spec fn first_ncx(names: Seq<Seq<char>>) -> Option<Seq<char>>
    decreases names.len(),
{
    if names.len() == 0 {
        None
    } else if is_ncx_name(names[0]) {
        Some(names[0])
    } else {
        first_ncx(names.drop_first())
    }
}

/// The first entry that is an NCX table (`…toc.ncx`), if any.
pub fn ncx_entry(names: &[String]) -> (r: Option<String>)
    ensures
        opt_text(r) == first_ncx(names@.map_values(|s: String| s@)),
        r is Some <==> ncx_count(names@.map_values(|s: String| s@)) > 0,
{
    let ghost nv = names@.map_values(|s: String| s@);
    let mut i: usize = 0;
    proof {
        lemma_first_ncx_count(nv);
        assert(nv.subrange(0, nv.len() as int) =~= nv);
    }
    while i < names.len()
        invariant
            i <= names@.len(),
            nv == names@.map_values(|s: String| s@),
            first_ncx(nv) == first_ncx(nv.subrange(i as int, nv.len() as int)),
            first_ncx(nv) is Some <==> ncx_count(nv) > 0,
        decreases names@.len() - i,
    {
        let ghost rest = nv.subrange(i as int, nv.len() as int);
        assert(rest[0] == names@[i as int]@);
        assert(rest.drop_first() =~= nv.subrange(i + 1, nv.len() as int));
        if text_ends_with(names[i].as_str(), "toc.ncx") {
            return Some(names[i].clone());
        }
        i = i + 1;
    }
    assert(nv.subrange(i as int, nv.len() as int) =~= Seq::<Seq<char>>::empty());
    None
}

/// An optional string's characters.
pub open spec fn opt_text(s: Option<String>) -> Option<Seq<char>> {
    match s {
        Some(t) => Some(t@),
        None => None,
    }
}

proof fn lemma_first_ncx_count(names: Seq<Seq<char>>)
    ensures
        first_ncx(names) is Some <==> ncx_count(names) > 0,
    decreases names.len(),
{
    if names.len() > 0 {
        lemma_first_ncx_count(names.drop_first());
        lemma_ncx_count_first(names);
    }
}

proof fn lemma_ncx_count_first(names: Seq<Seq<char>>)
    requires
        names.len() > 0,
    ensures
        ncx_count(names) == (if is_ncx_name(names[0]) { 1nat } else { 0nat }) + ncx_count(names.drop_first()),
    decreases names.len(),
{
    if names.len() > 1 {
        lemma_ncx_count_first(names.drop_last());
        assert(names.drop_last().drop_first() =~= names.drop_first().drop_last());
        assert(names.drop_first().last() == names.last());
    } else {
        assert(names.drop_first() =~= Seq::<Seq<char>>::empty());
        assert(names.drop_last() =~= Seq::<Seq<char>>::empty());
    }
}

/// A chapter file: its entry name and its text.
pub struct ChapterFile {
    pub name: String,
    pub text: String,
}

/// The names of chapter files, in order.
pub open spec fn file_names(ch: Seq<ChapterFile>) -> Seq<Seq<char>> {
    ch.map_values(|c: ChapterFile| c.name@)
}

/// The length of the directory part of a path, its final `/` included.
pub open spec fn dir_len(p: Seq<char>) -> nat
    decreases p.len(),
{
    if p.len() == 0 {
        0
    } else if p.last() == '/' {
        p.len()
    } else {
        dir_len(p.drop_last())
    }
}

/// The directory part of a path, its final `/` included (empty where there is
/// no `/`).
pub open spec fn dir_of(p: Seq<char>) -> Seq<char> {
    p.subrange(0, dir_len(p) as int)
}

/// The position of the first `#` at or after `i` in `t`, or its length.
pub open spec fn hash_from(t: Seq<char>, i: int) -> int
    decreases t.len() - i,
{
    if i >= t.len() || i < 0 {
        t.len() as int
    } else if t[i] == '#' {
        i
    } else {
        hash_from(t, i + 1)
    }
}

/// A table target without its anchor.
pub open spec fn target_file(t: Seq<char>) -> Seq<char> {
    t.subrange(0, hash_from(t, 0))
}

/// The anchor of a table target (what follows its first `#`), if it has one.
pub open spec fn target_anchor(t: Seq<char>) -> Option<Seq<char>> {
    if hash_from(t, 0) < t.len() {
        Some(t.subrange(hash_from(t, 0) + 1, t.len() as int))
    } else {
        None
    }
}

/// The targets of a table read from `path` whose entries point at `srcs`:
/// each source taken relative to the table's directory.
pub open spec fn toc_targets(path: Seq<char>, srcs: Seq<Seq<char>>) -> Seq<Seq<char>> {
    srcs.map_values(|s: Seq<char>| dir_of(path) + s)
}

/// The elements of `s` that `other` does not hold, in order.
pub open spec fn unlisted(s: Seq<Seq<char>>, other: Seq<Seq<char>>) -> Seq<Seq<char>>
    decreases s.len(),
{
    if s.len() == 0 {
        Seq::empty()
    } else if other.contains(s.last()) {
        unlisted(s.drop_last(), other)
    } else {
        unlisted(s.drop_last(), other).push(s.last())
    }
}

/// No element of `s` occurs twice.
pub open spec fn no_repeats(s: Seq<Seq<char>>) -> bool {
    forall|i: int, j: int| 0 <= i < j < s.len() ==> s[i] != s[j]
}

/// The text an anchor `a` is declared by: `id="a"`.
pub open spec fn anchor_decl(a: Seq<char>) -> Seq<char> {
    "id=\""@ + a + "\""@
}

/// Some chapter named `file` declares the anchor `a`.
pub open spec fn anchor_found(ch: Seq<ChapterFile>, file: Seq<char>, a: Seq<char>) -> bool {
    exists|j: int| 0 <= j < ch.len() && (#[trigger] ch[j]).name@ == file && contains_seq(ch[j].text@, anchor_decl(a))
}

/// Every anchored target points at an anchor its chapter declares.
pub open spec fn anchors_found(ch: Seq<ChapterFile>, targets: Seq<Seq<char>>) -> bool {
    forall|k: int| 0 <= k < targets.len() && (#[trigger] target_anchor(targets[k])) is Some
        ==> anchor_found(ch, target_file(targets[k]), target_anchor(targets[k])->0)
}

/// The table matches the chapters: its targets, anchors dropped, are exactly
/// the chapters in order, none twice, and every anchor is declared.
pub open spec fn toc_matches(ch: Seq<ChapterFile>, targets: Seq<Seq<char>>) -> bool {
    let files = targets.map_values(|t: Seq<char>| target_file(t));
    &&& files == file_names(ch)
    &&& no_repeats(files)
    &&& anchors_found(ch, targets)
}

/// What a comparison holds: targets, chapter names, match, missing chapters,
/// orphan entries.
pub open spec fn analysis_holds(r: TocAnalysisResult, ch: Seq<ChapterFile>, toc: Option<(String, Vec<String>)>) -> bool {
    let targets = match toc {
        Some((p, srcs)) => toc_targets(p@, texts_of(srcs@)),
        None => Seq::empty(),
    };
    let files = targets.map_values(|t: Seq<char>| target_file(t));
    &&& r.toc_present == (toc is Some)
    &&& r.toc_entries@.map_values(|e: TocEntry| e.src@) == targets
    &&& texts_of(r.chapter_files@) == file_names(ch)
    &&& r.toc_matches_chapters == (toc is Some && toc_matches(ch, targets))
    &&& texts_of(r.missing_chapters@) == unlisted(file_names(ch), files)
    &&& texts_of(r.orphan_toc_entries@) == unlisted(files, file_names(ch))
}

fn dir_part(p: &str) -> (r: String)
    ensures
        r@ == dir_of(p@),
{
    let cs = crate::text::chars_of(p);
    let mut n: usize = cs.len();
    assert(p@.subrange(0, p@.len() as int) =~= p@);
    while n > 0
        invariant
            n <= cs@.len(),
            cs@ == p@,
            dir_len(p@) == dir_len(p@.subrange(0, n as int)),
        ensures
            dir_len(p@) == dir_len(p@.subrange(0, n as int)),
            n == 0 || cs@[n - 1] == '/',
        decreases n,
    {
        let ghost pre = p@.subrange(0, n as int);
        assert(pre.drop_last() =~= p@.subrange(0, n - 1));
        if cs[n - 1] == '/' {
            break;
        }
        n = n - 1;
    }
    proof {
        if n == 0 {
            assert(p@.subrange(0, 0) =~= Seq::<char>::empty());
        } else {
            assert(p@.subrange(0, n as int).last() == '/');
        }
    }
    chars_between(&cs, 0, n)
}

fn chars_between(cs: &Vec<char>, from: usize, to: usize) -> (r: String)
    requires
        from <= to <= cs@.len(),
    ensures
        r@ == cs@.subrange(from as int, to as int),
{
    let mut r = String::new();
    let mut i: usize = from;
    while i < to
        invariant
            from <= i <= to <= cs@.len(),
            r@ == cs@.subrange(from as int, i as int),
        decreases to - i,
    {
        crate::text::push_char(&mut r, cs[i]);
        assert(cs@.subrange(from as int, i + 1) =~= cs@.subrange(from as int, i as int).push(cs@[i as int]));
        i = i + 1;
    }
    r
}

fn split_target(t: &str) -> (r: (String, Option<String>))
    ensures
        r.0@ == target_file(t@),
        opt_text(r.1) == target_anchor(t@),
{
    let cs = crate::text::chars_of(t);
    let mut i: usize = 0;
    while i < cs.len()
        invariant
            i <= cs@.len(),
            cs@ == t@,
            hash_from(t@, 0) == hash_from(t@, i as int),
        ensures
            hash_from(t@, 0) == hash_from(t@, i as int),
            i <= cs@.len(),
            i == cs@.len() || cs@[i as int] == '#',
        decreases cs@.len() - i,
    {
        if cs[i] == '#' {
            break;
        }
        i = i + 1;
    }
    let file = chars_between(&cs, 0, i);
    if i < cs.len() {
        let anchor = chars_between(&cs, i + 1, cs.len());
        (file, Some(anchor))
    } else {
        (file, None)
    }
}

fn unlisted_names(s: &Vec<String>, other: &Vec<String>) -> (r: Vec<String>)
    ensures
        texts_of(r@) == unlisted(texts_of(s@), texts_of(other@)),
{
    let ghost sv = texts_of(s@);
    let mut r: Vec<String> = Vec::new();
    let mut i: usize = 0;
    while i < s.len()
        invariant
            i <= s@.len(),
            sv == texts_of(s@),
            texts_of(r@) == unlisted(sv.take(i as int), texts_of(other@)),
        decreases s@.len() - i,
    {
        proof {
            assert(sv.take(i + 1).drop_last() =~= sv.take(i as int));
            assert(sv.take(i + 1).last() == s@[i as int]@);
        }
        if !name_listed(other, s[i].as_str()) {
            let ghost before = texts_of(r@);
            r.push(s[i].clone());
            assert(texts_of(r@) =~= before.push(s@[i as int]@));
        }
        i = i + 1;
    }
    assert(sv.take(s@.len() as int) =~= sv);
    r
}

fn same_names(a: &Vec<String>, b: &Vec<String>) -> (r: bool)
    ensures
        r == (texts_of(a@) == texts_of(b@)),
{
    if a.len() != b.len() {
        assert(texts_of(a@).len() != texts_of(b@).len());
        return false;
    }
    let mut i: usize = 0;
    while i < a.len()
        invariant
            i <= a@.len(),
            a@.len() == b@.len(),
            forall|k: int| 0 <= k < i ==> a@[k]@ == b@[k]@,
        decreases a@.len() - i,
    {
        if !same_text(a[i].as_str(), b[i].as_str()) {
            assert(texts_of(a@)[i as int] != texts_of(b@)[i as int]);
            return false;
        }
        i = i + 1;
    }
    assert(texts_of(a@) =~= texts_of(b@));
    true
}

fn repeats_free(s: &Vec<String>) -> (r: bool)
    ensures
        r == no_repeats(texts_of(s@)),
{
    let ghost sv = texts_of(s@);
    let mut j: usize = 0;
    while j < s.len()
        invariant
            j <= s@.len(),
            sv == texts_of(s@),
            forall|a: int, b: int| 0 <= a < b < j ==> sv[a] != sv[b],
        decreases s@.len() - j,
    {
        let mut i: usize = 0;
        while i < j
            invariant
                i <= j < s@.len(),
                sv == texts_of(s@),
                forall|a: int, b: int| 0 <= a < b < j ==> sv[a] != sv[b],
                forall|a: int| 0 <= a < i ==> sv[a] != sv[j as int],
            decreases j - i,
        {
            if same_text(s[i].as_str(), s[j].as_str()) {
                assert(sv[i as int] == sv[j as int]);
                return false;
            }
            i = i + 1;
        }
        j = j + 1;
    }
    true
}

fn anchor_declared(ch: &[ChapterFile], file: &str, a: &str) -> (r: bool)
    ensures
        r == anchor_found(ch@, file@, a@),
{
    let mut decl = String::from_str("id=\"");
    push_str(&mut decl, a);
    push_str(&mut decl, "\"");
    let mut j: usize = 0;
    while j < ch.len()
        invariant
            j <= ch@.len(),
            decl@ == anchor_decl(a@),
            forall|k: int| 0 <= k < j ==> !((#[trigger] ch@[k]).name@ == file@ && contains_seq(ch@[k].text@, anchor_decl(a@))),
        decreases ch@.len() - j,
    {
        if same_text(ch[j].name.as_str(), file) && text_contains(ch[j].text.as_str(), decl.as_str()) {
            return true;
        }
        j = j + 1;
    }
    false
}

/// Compares a book's chapter files with the entries of its NCX table, read
/// from the entry `toc.0` whose entries point at `toc.1` (no table where
/// `toc` is `None`). Each entry's target is its source taken relative to the
/// table's directory; the chapters the targets (anchors dropped) leave out
/// are missing, the targets that name no chapter are orphans, and the table
/// matches when its targets are exactly the chapters, in order, none twice,
/// and each anchor is declared (`id="…"`) in its chapter.
pub fn analyze_toc(chapters: &[ChapterFile], toc: Option<(String, Vec<String>)>) -> (r: TocAnalysisResult)
    ensures
        analysis_holds(r, chapters@, toc),
{
    let ghost toc0 = toc;
    let mut names: Vec<String> = Vec::new();
    let mut i: usize = 0;
    while i < chapters.len()
        invariant
            i <= chapters@.len(),
            texts_of(names@) == file_names(chapters@.take(i as int)),
        decreases chapters@.len() - i,
    {
        let ghost before = texts_of(names@);
        names.push(chapters[i].name.clone());
        assert(texts_of(names@) =~= before.push(chapters@[i as int].name@));
        assert(file_names(chapters@.take(i + 1)) =~= file_names(chapters@.take(i as int)).push(chapters@[i as int].name@));
        i = i + 1;
    }
    assert(chapters@.take(chapters@.len() as int) =~= chapters@);
    let present = toc.is_some();
    let (path, srcs) = match toc {
        Some((p, s)) => (p, s),
        None => (String::new(), Vec::new()),
    };
    let ghost targets = toc_targets(path@, texts_of(srcs@));
    proof {
        if !present {
            assert(targets =~= Seq::<Seq<char>>::empty());
        }
    }
    let dir = dir_part(path.as_str());
    let mut entries: Vec<TocEntry> = Vec::new();
    let mut files: Vec<String> = Vec::new();
    let mut anchors_ok = true;
    let mut k: usize = 0;
    while k < srcs.len()
        invariant
            k <= srcs@.len(),
            dir@ == dir_of(path@),
            targets == toc_targets(path@, texts_of(srcs@)),
            entries@.map_values(|e: TocEntry| e.src@) == targets.take(k as int),
            texts_of(files@) == targets.take(k as int).map_values(|t: Seq<char>| target_file(t)),
            anchors_ok == anchors_found(chapters@, targets.take(k as int)),
        decreases srcs@.len() - k,
    {
        let mut target = dir.clone();
        push_str(&mut target, srcs[k].as_str());
        assert(target@ == targets[k as int]);
        let (file, anchor) = split_target(target.as_str());
        let ok = match &anchor {
            Some(a) => anchor_declared(chapters, file.as_str(), a.as_str()),
            None => true,
        };
        proof {
            let t1 = targets.take(k + 1);
            assert(t1.drop_last() =~= targets.take(k as int));
            assert(anchors_found(chapters@, t1) == (anchors_found(chapters@, targets.take(k as int)) && ok)) by {
                if anchors_found(chapters@, t1) {
                    assert(target_anchor(t1[k as int]) == target_anchor(targets[k as int]));
                }
                if anchors_found(chapters@, targets.take(k as int)) && ok {
                    assert forall|m: int| 0 <= m < t1.len() && (#[trigger] target_anchor(t1[m])) is Some
                        implies anchor_found(chapters@, target_file(t1[m]), target_anchor(t1[m])->0) by {
                        if m < k {
                            assert(t1[m] == targets.take(k as int)[m]);
                        }
                    }
                }
            }
        }
        anchors_ok = anchors_ok && ok;
        let ghost eb = entries@.map_values(|e: TocEntry| e.src@);
        let ghost fb = texts_of(files@);
        entries.push(TocEntry { src: target });
        files.push(file);
        proof {
            assert(entries@.map_values(|e: TocEntry| e.src@) =~= eb.push(targets[k as int]));
            assert(targets.take(k + 1) =~= targets.take(k as int).push(targets[k as int]));
            assert(texts_of(files@) =~= fb.push(target_file(targets[k as int])));
            assert(targets.take(k + 1).map_values(|t: Seq<char>| target_file(t))
                =~= targets.take(k as int).map_values(|t: Seq<char>| target_file(t)).push(target_file(targets[k as int])));
        }
        k = k + 1;
    }
    assert(targets.take(srcs@.len() as int) =~= targets);
    let matches = present && same_names(&files, &names) && repeats_free(&files) && anchors_ok;
    let missing = unlisted_names(&names, &files);
    let orphans = unlisted_names(&files, &names);
    TocAnalysisResult {
        toc_present: present,
        toc_entries: entries,
        chapter_files: names,
        toc_matches_chapters: matches,
        missing_chapters: missing,
        orphan_toc_entries: orphans,
    }
}

/// The sources of an NCX table's entries, in order.
pub fn ncx_sources(ncx: &Ncx) -> (r: Vec<String>)
    ensures
        texts_of(r@) == ncx.nav_map.nav_point@.map_values(|p: crate::library::toc_model::NavPoint| p.content.src@),
{
    let points = &ncx.nav_map.nav_point;
    let mut r: Vec<String> = Vec::new();
    let mut i: usize = 0;
    while i < points.len()
        invariant
            i <= points@.len(),
            texts_of(r@) == points@.take(i as int).map_values(|p: crate::library::toc_model::NavPoint| p.content.src@),
        decreases points@.len() - i,
    {
        let ghost before = texts_of(r@);
        r.push(points[i].content.src.clone());
        assert(texts_of(r@) =~= before.push(points@[i as int].content.src@));
        assert(points@.take(i + 1).map_values(|p: crate::library::toc_model::NavPoint| p.content.src@)
            =~= points@.take(i as int).map_values(|p: crate::library::toc_model::NavPoint| p.content.src@).push(points@[i as int].content.src@));
        i = i + 1;
    }
    assert(points@.take(points@.len() as int) =~= points@);
    r
}

} // verus!
