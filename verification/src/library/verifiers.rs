//! Safety and integrity checks run on a book before its table of contents is
//! trusted or regenerated.

use vstd::prelude::*;

use crate::library::opf_model::{Package, PackageView};
use crate::library::toc_model::{NavPoint, Ncx, NcxView};
use crate::library::generator::{item_ids, item_position};
use crate::text::{chars_of, decimal, contains_seq, name_listed, position_of, push_str, same_text, text_contains, texts_of};

verus! {

/// The largest number of entries a safe archive may hold.
pub const MAX_FILES: usize = 2000;

/// The largest total uncompressed size of a safe archive (512 MiB).
pub const MAX_TOTAL_UNCOMPRESSED: u64 = 536870912;

/// The largest uncompressed size of one entry of a safe archive (50 MiB).
pub const MAX_SINGLE_FILE: u64 = 52428800;

/// The largest ratio of uncompressed to compressed size of a safe entry.
pub const MAX_COMPRESSION_RATIO: u64 = 100;

/// The sizes and name of one archive entry, as its central directory gives them.
pub struct ZipEntryStats {
    pub name: String,
    pub compressed: u64,
    pub uncompressed: u64,
}

/// Why an archive is not safe to unpack.
pub enum ZipSafetyIssue {
    /// It holds more than `MAX_FILES` entries.
    TooManyFiles { count: usize },
    /// Its entries together expand beyond `MAX_TOTAL_UNCOMPRESSED`.
    TotalTooLarge,
    /// The named entry expands beyond `MAX_SINGLE_FILE`.
    FileTooLarge { name: String },
    /// The named entry expands more than `MAX_COMPRESSION_RATIO` times.
    SuspiciousRatio { name: String, uncompressed: u64, compressed: u64 },
    /// The named entry's path climbs out of the archive or is absolute.
    PathTraversal { name: String },
}

/// The total uncompressed size of the first `n` entries.
pub open spec fn total_size(entries: Seq<ZipEntryStats>, n: int) -> int
    decreases n,
{
    if n <= 0 {
        0
    } else {
        total_size(entries, n - 1) + entries[n - 1].uncompressed
    }
}

/// What is wrong with entry `i`, read after the `i` before it, if anything:
/// the running total, the entry's size, its compression ratio and its path
/// are checked in that order.
pub open spec fn entry_issue_kind(entries: Seq<ZipEntryStats>, i: int) -> Option<int> {
    let e = entries[i];
    if total_size(entries, i + 1) > MAX_TOTAL_UNCOMPRESSED {
        Some(1)
    } else if e.uncompressed > MAX_SINGLE_FILE {
        Some(2)
    } else if e.compressed > 0 && e.uncompressed > MAX_COMPRESSION_RATIO * e.compressed {
        Some(3)
    } else if contains_seq(e.name@, ".."@) || (e.name@.len() > 0 && e.name@[0] == '/') {
        Some(4)
    } else {
        None
    }
}

/// The issue that `issue` reports for entry `i` of kind `kind`.
pub open spec fn reports_entry_issue(entries: Seq<ZipEntryStats>, i: int, kind: int, issue: ZipSafetyIssue) -> bool {
    let e = entries[i];
    match issue {
        ZipSafetyIssue::TotalTooLarge => kind == 1,
        ZipSafetyIssue::FileTooLarge { name } => kind == 2 && name@ == e.name@,
        ZipSafetyIssue::SuspiciousRatio { name, uncompressed, compressed } => kind == 3 && name@ == e.name@
            && uncompressed == e.uncompressed && compressed == e.compressed,
        ZipSafetyIssue::PathTraversal { name } => kind == 4 && name@ == e.name@,
        ZipSafetyIssue::TooManyFiles { .. } => false,
    }
}

/// Checks an archive's entries before it is unpacked: at most `MAX_FILES`
/// entries; then, entry by entry, the running uncompressed total within
/// `MAX_TOTAL_UNCOMPRESSED`, each entry within `MAX_SINGLE_FILE`, each
/// compressed entry expanding at most `MAX_COMPRESSION_RATIO` times, and no
/// name that contains ".." or starts with "/". The first failed check is
/// reported.
pub fn validate_zip_safety(entries: &[ZipEntryStats]) -> (r: Result<(), ZipSafetyIssue>)
    ensures
        entries@.len() > MAX_FILES ==> (r matches Err(ZipSafetyIssue::TooManyFiles { count }) && count == entries@.len()),
        entries@.len() <= MAX_FILES ==> match r {
            Ok(()) => forall|i: int| 0 <= i < entries@.len() ==> #[trigger] entry_issue_kind(entries@, i) is None,
            Err(issue) => exists|i: int| {
                &&& 0 <= i < entries@.len()
                &&& forall|j: int| 0 <= j < i ==> #[trigger] entry_issue_kind(entries@, j) is None
                &&& #[trigger] entry_issue_kind(entries@, i) matches Some(kind)
                    && reports_entry_issue(entries@, i, kind, issue)
            },
        },
{
    let count = entries.len();
    if count > MAX_FILES {
        return Err(ZipSafetyIssue::TooManyFiles { count });
    }
    let mut total: u64 = 0;
    let mut i: usize = 0;
    while i < count
        invariant
            count == entries@.len(),
            count <= MAX_FILES,
            i <= count,
            total == total_size(entries@, i as int),
            total <= MAX_TOTAL_UNCOMPRESSED,
            forall|j: int| 0 <= j < i ==> #[trigger] entry_issue_kind(entries@, j) is None,
        decreases count - i,
    {
        let e = &entries[i];
        let ghost k = i as int;
        assert(total_size(entries@, k + 1) == total + e.uncompressed);
        if e.uncompressed > MAX_TOTAL_UNCOMPRESSED - total {
            assert(entry_issue_kind(entries@, k) == Some(1int));
            return Err(ZipSafetyIssue::TotalTooLarge);
        }
        total = total + e.uncompressed;
        if e.uncompressed > MAX_SINGLE_FILE {
            assert(entry_issue_kind(entries@, k) == Some(2int));
            return Err(ZipSafetyIssue::FileTooLarge { name: e.name.clone() });
        }
        if e.compressed > 0 && (e.uncompressed as u128) > (MAX_COMPRESSION_RATIO as u128) * (e.compressed as u128) {
            assert(entry_issue_kind(entries@, k) == Some(3int));
            return Err(ZipSafetyIssue::SuspiciousRatio {
                name: e.name.clone(),
                uncompressed: e.uncompressed,
                compressed: e.compressed,
            });
        }
        if text_contains(e.name.as_str(), "..") || starts_with_slash(e.name.as_str()) {
            assert(entry_issue_kind(entries@, k) == Some(4int));
            return Err(ZipSafetyIssue::PathTraversal { name: e.name.clone() });
        }
        i = i + 1;
    }
    Ok(())
}

fn starts_with_slash(s: &str) -> (r: bool)
    ensures
        r == (s@.len() > 0 && s@[0] == '/'),
{
    let cs = chars_of(s);
    cs.len() > 0 && cs[0] == '/'
}

/// The value of a sequence of decimal digits.
pub open spec fn digits_value(s: Seq<char>) -> nat
    decreases s.len(),
{
    if s.len() == 0 {
        0
    } else {
        digits_value(s.drop_last()) * 10 + ((s.last() as u32) - ('0' as u32)) as nat
    }
}

/// `s` without a leading `+`.
pub open spec fn unsigned_digits(s: Seq<char>) -> Seq<char> {
    if s.len() > 0 && s[0] == '+' {
        s.drop_first()
    } else {
        s
    }
}

/// Every character of `s` is an ASCII digit.
pub open spec fn all_digits(s: Seq<char>) -> bool {
    forall|i: int| 0 <= i < s.len() ==> crate::text::is_ascii_digit(#[trigger] s[i])
}

/// What `str::parse::<u32>` gives: an optional `+` followed by at least one
/// decimal digit and nothing else, of a value that fits in `u32`.
pub open spec fn parsed_u32(s: Seq<char>) -> Option<nat> {
    let digits = unsigned_digits(s);
    if digits.len() > 0 && all_digits(digits) && digits_value(digits) <= u32::MAX {
        Some(digits_value(digits))
    } else {
        None
    }
}

/// What checking a play order gives: the number when it is a positive `u32`,
/// otherwise the message for a zero or for text that is not a number.
pub open spec fn playorder_outcome(s: Seq<char>) -> Result<nat, Seq<char>> {
    match parsed_u32(s) {
        Some(n) => if n > 0 {
            Ok(n)
        } else {
            Err("playOrder must be positive: '"@ + s + "'"@)
        },
        None => Err("Invalid playOrder, not a number: '"@ + s + "'"@),
    }
}

proof fn lemma_digits_value_grows(s: Seq<char>, c: char)
    requires
        '0' <= c <= '9',
    ensures
        digits_value(s.push(c)) >= digits_value(s),
        digits_value(s.push(c)) == digits_value(s) * 10 + ((c as u32) - ('0' as u32)),
{
    assert(s.push(c).drop_last() =~= s);
}

fn parse_u32(s: &str) -> (r: Option<u32>)
    ensures
        match r {
            Some(n) => parsed_u32(s@) == Some(n as nat),
            None => parsed_u32(s@) is None,
        },
{
    let cs = chars_of(s);
    let start: usize = if cs.len() > 0 && cs[0] == '+' { 1 } else { 0 };
    let ghost digits = unsigned_digits(s@);
    assert(digits =~= cs@.subrange(start as int, cs@.len() as int));
    if start == cs.len() {
        return None;
    }
    let mut value: u64 = 0;
    let mut too_big = false;
    let mut i: usize = start;
    while i < cs.len()
        invariant
            cs@ == s@,
            start <= i <= cs@.len(),
            digits == cs@.subrange(start as int, cs@.len() as int),
            digits == unsigned_digits(s@),
            forall|k: int| start <= k < i ==> crate::text::is_ascii_digit(#[trigger] cs@[k]),
            !too_big ==> value == digits_value(cs@.subrange(start as int, i as int)) && value <= u32::MAX,
            too_big ==> digits_value(cs@.subrange(start as int, i as int)) > u32::MAX,
        decreases cs@.len() - i,
    {
        let c = cs[i];
        if !('0' <= c && c <= '9') {
            assert(!crate::text::is_ascii_digit(digits[i - start]));
            assert(!all_digits(digits));
            return None;
        }
        let ghost before = cs@.subrange(start as int, i as int);
        proof {
            assert(cs@.subrange(start as int, i + 1) =~= before.push(c));
            lemma_digits_value_grows(before, c);
        }
        let d: u64 = (c as u32 - '0' as u32) as u64;
        if !too_big {
            value = value * 10 + d;
            if value > 4294967295 {
                too_big = true;
            }
        }
        i = i + 1;
    }
    assert(cs@.subrange(start as int, cs@.len() as int) == digits);
    if too_big {
        None
    } else {
        Some(value as u32)
    }
}

/// Checks a `playOrder` value: it must parse as a `u32` (an optional `+` and
/// decimal digits) and be positive.
pub fn validate_playorder(play_order: &str) -> (r: Result<u32, String>)
    ensures
        match r {
            Ok(n) => playorder_outcome(play_order@) == Ok::<nat, Seq<char>>(n as nat),
            Err(m) => playorder_outcome(play_order@) == Err::<nat, Seq<char>>(m@),
        },
{
    match parse_u32(play_order) {
        Some(n) => {
            if n > 0 {
                Ok(n)
            } else {
                let mut m = String::from_str("playOrder must be positive: '");
                push_str(&mut m, play_order);
                push_str(&mut m, "'");
                Err(m)
            }
        },
        None => {
            let mut m = String::from_str("Invalid playOrder, not a number: '");
            push_str(&mut m, play_order);
            push_str(&mut m, "'");
            Err(m)
        },
    }
}

/// A component of a path.
pub enum PathPart {
    Prefix,
    Root,
    Current,
    Parent,
    Normal(String),
}

/// What a path component is.
pub enum PathPartView {
    Prefix,
    Root,
    Current,
    Parent,
    Normal(Seq<char>),
}

impl View for PathPart {
    type V = PathPartView;

    open spec fn view(&self) -> PathPartView {
        match self {
            PathPart::Prefix => PathPartView::Prefix,
            PathPart::Root => PathPartView::Root,
            PathPart::Current => PathPartView::Current,
            PathPart::Parent => PathPartView::Parent,
            PathPart::Normal(s) => PathPartView::Normal(s@),
        }
    }
}

/// The components that `std::path::Path::components` yields for a path.
pub uninterp spec fn path_parts(p: Seq<char>) -> Seq<PathPartView>;

/// `std::path::Path::components`, each component converted to a `PathPart`
/// (a normal component by its text); named by `path_parts`.
#[verifier::external_body]
fn components_of(path: &str) -> (r: Vec<PathPart>)
    ensures
        r@.map_values(|c: PathPart| c@) == path_parts(path@),
{
    std::path::Path::new(path).components().map(|c| match c {
        std::path::Component::Prefix(_) => PathPart::Prefix,
        std::path::Component::RootDir => PathPart::Root,
        std::path::Component::CurDir => PathPart::Current,
        std::path::Component::ParentDir => PathPart::Parent,
        std::path::Component::Normal(s) => PathPart::Normal(s.to_string_lossy().into_owned()),
    }).collect()
}

/// What `std::path::PathBuf::push` makes of `base` with `part` appended.
pub uninterp spec fn path_pushed(base: Seq<char>, part: Seq<char>) -> Seq<char>;

/// `std::path::PathBuf::push` on the path `base`; named by `path_pushed`.
#[verifier::external_body]
fn push_path(base: &str, part: &str) -> (r: String)
    ensures
        r@ == path_pushed(base@, part@),
{
    let mut p = std::path::PathBuf::from(base);
    p.push(part);
    p.to_string_lossy().into_owned()
}

/// What `std::path::Path::with_file_name` makes of `path` with `name`.
pub uninterp spec fn file_name_replaced(path: Seq<char>, name: Seq<char>) -> Seq<char>;

/// `std::path::Path::with_file_name`; named by `file_name_replaced`.
#[verifier::external_body]
pub(crate) fn with_file_name(path: &str, name: &str) -> (r: String)
    ensures
        r@ == file_name_replaced(path@, name@),
{
    std::path::Path::new(path).with_file_name(name).to_string_lossy().into_owned()
}

/// The names left after resolving `..` and `.` in a sequence of components;
/// `..` at the top and the root or prefix are dropped.
pub open spec fn resolve_parts(parts: Seq<PathPartView>) -> Seq<Seq<char>>
    decreases parts.len(),
{
    if parts.len() == 0 {
        Seq::empty()
    } else {
        let stack = resolve_parts(parts.drop_last());
        match parts.last() {
            PathPartView::Parent => if stack.len() > 0 {
                stack.drop_last()
            } else {
                stack
            },
            PathPartView::Normal(s) => stack.push(s),
            _ => stack,
        }
    }
}

/// The path made by pushing `names` in order onto `base`.
pub open spec fn pushed_all(base: Seq<char>, names: Seq<Seq<char>>) -> Seq<char>
    decreases names.len(),
{
    if names.len() == 0 {
        base
    } else {
        path_pushed(pushed_all(base, names.drop_last()), names.last())
    }
}

/// The relative path that `p` resolves to.
pub open spec fn normalized_path(p: Seq<char>) -> Seq<char> {
    pushed_all(Seq::empty(), resolve_parts(path_parts(p)))
}

/// Resolves `..` and `.` components lexically and drops the root, giving a
/// relative path.
pub fn normalize_relative_path(path: &str) -> (r: String)
    ensures
        r@ == normalized_path(path@),
{
    let parts = components_of(path);
    let ghost pv = parts@.map_values(|c: PathPart| c@);
    let mut stack: Vec<String> = Vec::new();
    let mut i: usize = 0;
    while i < parts.len()
        invariant
            i <= parts@.len(),
            pv == parts@.map_values(|c: PathPart| c@),
            stack.deep_view() == resolve_parts(pv.take(i as int)),
        decreases parts@.len() - i,
    {
        proof {
            assert(pv.take(i + 1).drop_last() =~= pv.take(i as int));
            assert(pv.take(i + 1).last() == parts@[i as int]@);
        }
        let ghost before = stack.deep_view();
        match &parts[i] {
            PathPart::Parent => {
                if stack.len() > 0 {
                    stack.pop();
                    assert(stack.deep_view() =~= before.drop_last());
                }
            },
            PathPart::Normal(s) => {
                stack.push(s.clone());
                assert(stack.deep_view() =~= before.push(s@));
            },
            _ => {},
        }
        i = i + 1;
    }
    assert(pv.take(parts@.len() as int) =~= pv);
    let ghost names = stack.deep_view();
    let mut out = String::new();
    let mut k: usize = 0;
    while k < stack.len()
        invariant
            k <= stack@.len(),
            names == stack.deep_view(),
            out@ == pushed_all(Seq::empty(), names.take(k as int)),
        decreases stack@.len() - k,
    {
        proof {
            assert(names.take(k + 1).drop_last() =~= names.take(k as int));
            assert(names.take(k + 1).last() == stack@[k as int]@);
        }
        out = push_path(out.as_str(), stack[k].as_str());
        k = k + 1;
    }
    assert(names.take(stack@.len() as int) =~= names);
    out
}

/// Walks the manifest: each item's file, resolved next to the package
/// document, must be in the archive (else the first missing one is reported);
/// the result is the resolved file of the last item whose id is `toc`, or
/// `found` when there is none.
pub open spec fn manifest_walk(
    names: Seq<Seq<char>>,
    opf_path: Seq<char>,
    items: Seq<crate::library::opf_model::ItemView>,
    toc: Seq<char>,
    found: Seq<char>,
) -> Result<Seq<char>, Seq<char>>
    decreases items.len(),
{
    if items.len() == 0 {
        Ok(found)
    } else {
        let h = file_name_replaced(opf_path, items[0].href);
        if !names.contains(h) {
            Err("Missing file in zip: "@ + h)
        } else {
            manifest_walk(names, opf_path, items.drop_first(), toc, if items[0].id == toc { h } else { found })
        }
    }
}

/// The first idref that names no manifest id.
pub open spec fn first_unknown_ref(idrefs: Seq<Seq<char>>, ids: Seq<Seq<char>>) -> Option<Seq<char>>
    decreases idrefs.len(),
{
    if idrefs.len() == 0 {
        None
    } else if !ids.contains(idrefs[0]) {
        Some(idrefs[0])
    } else {
        first_unknown_ref(idrefs.drop_first(), ids)
    }
}

/// What checking an archive's package against its entries gives: `true`
/// without a spine `toc` attribute; the first manifest file missing from the
/// archive or the first unknown idref as an error; otherwise whether the NCX
/// file is missing from the archive.
pub open spec fn zip_integrity(names: Seq<Seq<char>>, opf_path: Seq<char>, pkg: PackageView) -> Result<bool, Seq<char>> {
    if pkg.toc.len() == 0 {
        Ok(true)
    } else {
        match manifest_walk(names, opf_path, pkg.items, pkg.toc, Seq::empty()) {
            Err(e) => Err(e),
            Ok(toc_file) => match first_unknown_ref(pkg.idrefs, item_ids(pkg.items)) {
                Some(r) => Err("missing idref: "@ + r),
                None => Ok(!names.contains(toc_file)),
            },
        }
    }
}

/// Checks a book's package against the entries of its archive. `names` are
/// the entry names and `opf_path` the package document's path; manifest files
/// are resolved next to the package document. Without a spine `toc` the
/// result is `true`; a missing manifest file or an itemref naming no item is
/// an error; otherwise the result tells whether the NCX file is absent.
pub fn verify_zip_integrity(names: &Vec<String>, opf_path: &str, opf: &Package) -> (r: Result<bool, String>)
    ensures
        match r {
            Ok(b) => zip_integrity(texts_of(names@), opf_path@, opf@) == Ok::<bool, Seq<char>>(b),
            Err(m) => zip_integrity(texts_of(names@), opf_path@, opf@) == Err::<bool, Seq<char>>(m@),
        },
{
    let ghost pkg = opf@;
    let ghost nv = texts_of(names@);
    if opf.spine.toc.as_str().is_empty() {
        return Ok(true);
    }
    let items = &opf.manifest.item;
    let mut ids: Vec<String> = Vec::new();
    let mut toc_file = String::new();
    let mut i: usize = 0;
    assert(pkg.items.subrange(0, pkg.items.len() as int) =~= pkg.items);
    while i < items.len()
        invariant
            pkg == opf@,
            nv == texts_of(names@),
            items@ == opf.manifest.item@,
            pkg.toc.len() > 0,
            i <= items@.len(),
            texts_of(ids@) == item_ids(pkg.items).take(i as int),
            manifest_walk(nv, opf_path@, pkg.items, pkg.toc, Seq::empty())
                == manifest_walk(nv, opf_path@, pkg.items.subrange(i as int, pkg.items.len() as int), pkg.toc, toc_file@),
        decreases items@.len() - i,
    {
        let ghost rest = pkg.items.subrange(i as int, pkg.items.len() as int);
        assert(rest[0] == items@[i as int]@);
        assert(rest.drop_first() =~= pkg.items.subrange(i + 1, pkg.items.len() as int));
        let item = &items[i];
        let href = with_file_name(opf_path, item.href.as_str());
        if !name_listed(names, href.as_str()) {
            let mut m = String::from_str("Missing file in zip: ");
            push_str(&mut m, href.as_str());
            return Err(m);
        }
        let ghost before = texts_of(ids@);
        ids.push(item.id.clone());
        assert(texts_of(ids@) =~= item_ids(pkg.items).take(i + 1)) by {
            assert(texts_of(ids@) =~= before.push(item.id@));
            assert(item_ids(pkg.items).take(i + 1) =~= item_ids(pkg.items).take(i as int).push(item.id@));
        }
        if same_text(item.id.as_str(), opf.spine.toc.as_str()) {
            toc_file = href;
        }
        i = i + 1;
    }
    assert(pkg.items.subrange(i as int, pkg.items.len() as int) =~= Seq::<crate::library::opf_model::ItemView>::empty());
    assert(item_ids(pkg.items).take(i as int) =~= item_ids(pkg.items));
    let refs = &opf.spine.itemref;
    let mut j: usize = 0;
    assert(pkg.idrefs.subrange(0, pkg.idrefs.len() as int) =~= pkg.idrefs);
    while j < refs.len()
        invariant
            pkg == opf@,
            refs@ == opf.spine.itemref@,
            texts_of(ids@) == item_ids(pkg.items),
            nv == texts_of(names@),
            pkg.toc.len() > 0,
            manifest_walk(nv, opf_path@, pkg.items, pkg.toc, Seq::empty()) == Ok::<Seq<char>, Seq<char>>(toc_file@),
            j <= refs@.len(),
            first_unknown_ref(pkg.idrefs, item_ids(pkg.items))
                == first_unknown_ref(pkg.idrefs.subrange(j as int, pkg.idrefs.len() as int), item_ids(pkg.items)),
        decreases refs@.len() - j,
    {
        let ghost rest = pkg.idrefs.subrange(j as int, pkg.idrefs.len() as int);
        assert(rest[0] == refs@[j as int].idref@);
        assert(rest.drop_first() =~= pkg.idrefs.subrange(j + 1, pkg.idrefs.len() as int));
        if !name_listed(&ids, refs[j].idref.as_str()) {
            let mut m = String::from_str("missing idref: ");
            push_str(&mut m, refs[j].idref.as_str());
            return Err(m);
        }
        j = j + 1;
    }
    assert(pkg.idrefs.subrange(j as int, pkg.idrefs.len() as int) =~= Seq::<Seq<char>>::empty());
    Ok(!name_listed(names, toc_file.as_str()))
}

/// Where the NCX file lies: the manifest item whose id is the spine's `toc`,
/// resolved next to the package document and normalized.
pub open spec fn toc_file_outcome(opf_path: Seq<char>, pkg: PackageView) -> Result<Seq<char>, Seq<char>> {
    match position_of(item_ids(pkg.items), pkg.toc) {
        None => Err("no toc file found"@),
        Some(k) => Ok(normalized_path(file_name_replaced(opf_path, pkg.items[k].href))),
    }
}

/// Finds the NCX file of a book: the first manifest item whose id is the
/// spine's `toc`, its href resolved next to the package document at
/// `opf_path` and normalized.
pub fn toc_file_path(opf_path: &str, opf: &Package) -> (r: Result<String, String>)
    ensures
        match r {
            Ok(p) => toc_file_outcome(opf_path@, opf@) == Ok::<Seq<char>, Seq<char>>(p@),
            Err(m) => toc_file_outcome(opf_path@, opf@) == Err::<Seq<char>, Seq<char>>(m@),
        },
{
    match item_position(opf.manifest.item.as_slice(), opf.spine.toc.as_str()) {
        None => Err(String::from_str("no toc file found")),
        Some(k) => {
            let joined = with_file_name(opf_path, opf.manifest.item[k].href.as_str());
            Ok(normalize_relative_path(joined.as_str()))
        },
    }
}

/// What is wrong with one entry of an NCX table whose file is `toc_file`, if
/// anything: its target, resolved next to the table, must be in the archive;
/// its play order must be a positive number; its label must be non-empty and
/// at most 100 bytes.
pub open spec fn point_problem(names: Seq<Seq<char>>, toc_file: Seq<char>, p: crate::library::toc_model::NavPointView) -> Option<Seq<char>> {
    let resolved = normalized_path(file_name_replaced(toc_file, p.src));
    if !names.contains(resolved) {
        Some("Nav point '"@ + p.src + "' not found in EPUB (resolved path: '"@ + resolved + "')"@)
    } else if playorder_outcome(p.play_order) is Err {
        Some("play order is not a number: "@ + p.play_order)
    } else if vstd::utf8::encode_utf8(p.label).len() as usize > 100 {
        Some("navpoint text too long"@)
    } else if p.label.len() == 0 {
        Some("navpoint text not existing"@)
    } else {
        None
    }
}

/// The first problem among the entries of an NCX table.
pub open spec fn first_point_problem(
    names: Seq<Seq<char>>,
    toc_file: Seq<char>,
    points: Seq<crate::library::toc_model::NavPointView>,
) -> Option<Seq<char>>
    decreases points.len(),
{
    if points.len() == 0 {
        None
    } else {
        match point_problem(names, toc_file, points[0]) {
            Some(m) => Some(m),
            None => first_point_problem(names, toc_file, points.drop_first()),
        }
    }
}

/// What checking an NCX table gives: an error when it has no entries, the
/// first entry problem, or success.
pub open spec fn toc_integrity(names: Seq<Seq<char>>, toc_file: Seq<char>, toc: NcxView) -> Result<(), Seq<char>> {
    if toc.points.len() == 0 {
        Err("ToC did not contain any nav points"@)
    } else {
        match first_point_problem(names, toc_file, toc.points) {
            Some(m) => Err(m),
            None => Ok(()),
        }
    }
}

fn check_point(names: &Vec<String>, toc_file: &str, point: &NavPoint) -> (r: Option<String>)
    ensures
        match r {
            Some(m) => point_problem(texts_of(names@), toc_file@, point@) == Some(m@),
            None => point_problem(texts_of(names@), toc_file@, point@) is None,
        },
{
    let src = point.content.src.as_str();
    let joined = with_file_name(toc_file, src);
    let resolved = normalize_relative_path(joined.as_str());
    if !name_listed(names, resolved.as_str()) {
        let mut m = String::from_str("Nav point '");
        push_str(&mut m, src);
        push_str(&mut m, "' not found in EPUB (resolved path: '");
        push_str(&mut m, resolved.as_str());
        push_str(&mut m, "')");
        return Some(m);
    }
    if validate_playorder(point.play_order.as_str()).is_err() {
        let mut m = String::from_str("play order is not a number: ");
        push_str(&mut m, point.play_order.as_str());
        return Some(m);
    }
    let label = point.nav_label.text.as_str();
    if label.len() > 100 {
        return Some(String::from_str("navpoint text too long"));
    }
    if label.is_empty() {
        return Some(String::from_str("navpoint text not existing"));
    }
    None
}

/// Checks an NCX table read from `toc_file`: it must have entries, and each
/// entry's target (resolved next to the table) must be an entry of the
/// archive, its play order a positive number and its label non-empty and at
/// most 100 bytes. The first problem is reported.
pub fn verify_toc_integrity(names: &Vec<String>, toc_file: &str, toc: &Ncx) -> (r: Result<(), String>)
    ensures
        match r {
            Ok(()) => toc_integrity(texts_of(names@), toc_file@, toc@) == Ok::<(), Seq<char>>(()),
            Err(m) => toc_integrity(texts_of(names@), toc_file@, toc@) == Err::<(), Seq<char>>(m@),
        },
{
    let points = &toc.nav_map.nav_point;
    let ghost pv = toc@.points;
    if points.len() == 0 {
        return Err(String::from_str("ToC did not contain any nav points"));
    }
    let mut i: usize = 0;
    assert(pv.subrange(0, pv.len() as int) =~= pv);
    while i < points.len()
        invariant
            points@ == toc.nav_map.nav_point@,
            pv == toc@.points,
            i <= points@.len(),
            first_point_problem(texts_of(names@), toc_file@, pv)
                == first_point_problem(texts_of(names@), toc_file@, pv.subrange(i as int, pv.len() as int)),
        decreases points@.len() - i,
    {
        let ghost rest = pv.subrange(i as int, pv.len() as int);
        assert(rest[0] == points@[i as int]@);
        assert(rest.drop_first() =~= pv.subrange(i + 1, pv.len() as int));
        match check_point(names, toc_file, &points[i]) {
            Some(m) => {
                return Err(m);
            },
            None => {},
        }
        i = i + 1;
    }
    assert(pv.subrange(i as int, pv.len() as int) =~= Seq::<crate::library::toc_model::NavPointView>::empty());
    Ok(())
}

proof fn lemma_decimal_digits(n: nat)
    ensures
        crate::text::decimal(n).len() > 0,
        all_digits(crate::text::decimal(n)),
        digits_value(crate::text::decimal(n)) == n,
    decreases n,
{
    let d = crate::text::decimal(n);
    if n < 10 {
        let c = crate::text::digit_char(n);
        assert(c as u32 == '0' as u32 + n);
        assert(d == seq![c]);
        assert(d.drop_last() =~= Seq::<char>::empty());
        assert(d.last() == c);
        assert(digits_value(d) == digits_value(d.drop_last()) * 10 + ((c as u32) - ('0' as u32)) as nat);
    } else {
        lemma_decimal_digits(n / 10);
        let c = crate::text::digit_char(n % 10);
        assert(c as u32 == '0' as u32 + n % 10);
        let prefix = crate::text::decimal(n / 10);
        assert(d == prefix.push(c));
        assert(d.drop_last() =~= prefix);
        assert forall|i: int| 0 <= i < d.len() implies crate::text::is_ascii_digit(#[trigger] d[i]) by {
            if i < prefix.len() {
                assert(d[i] == prefix[i]);
            }
        }
        assert(d.last() == c);
        assert(digits_value(d) == digits_value(prefix) * 10 + ((c as u32) - ('0' as u32)) as nat);
        assert(n == (n / 10) * 10 + n % 10);
    }
}

/// A play order written as the decimal form of a positive `u32`, as the NCX
/// generators write them, is accepted by `validate_playorder` as that number.
pub proof fn law_written_playorder_is_accepted(n: nat)
    requires
        1 <= n <= u32::MAX,
    ensures
        playorder_outcome(crate::text::decimal(n)) == Ok::<nat, Seq<char>>(n),
{
    lemma_decimal_digits(n);
    let d = crate::text::decimal(n);
    assert(crate::text::is_ascii_digit(d[0]));
    assert(unsigned_digits(d) == d);
}

/// Every entry of an NCX table built from a spine carries a play order that
/// the table check accepts: entry `k` has play order `k + 1`.
pub proof fn law_spine_ncx_playorders_accepted(pkg: PackageView)
    requires
        pkg.idrefs.len() <= u32::MAX,
    ensures
        crate::library::generator::spine_ncx(pkg) matches Ok(n) ==> forall|k: int| 0 <= k < n.points.len()
            ==> playorder_outcome(#[trigger] n.points[k].play_order) == Ok::<nat, Seq<char>>((k + 1) as nat),
{
    if let Ok(n) = crate::library::generator::spine_ncx(pkg) {
        assert forall|k: int| 0 <= k < n.points.len()
            implies playorder_outcome(#[trigger] n.points[k].play_order) == Ok::<nat, Seq<char>>((k + 1) as nat) by {
            assert(n.points[k] == crate::library::generator::spine_point(pkg, k));
            law_written_playorder_is_accepted((k + 1) as nat);
        }
    }
}

/// Every entry of an NCX table converted from a navigation document carries
/// a play order that the table check accepts: entry `k` has play order `k + 1`.
pub proof fn law_nav_ncx_playorders_accepted(
    epub_type: Seq<char>,
    lis: Seq<Option<crate::library::nav_model::LinkView>>,
    head: Seq<char>,
)
    requires
        lis.len() <= u32::MAX,
    ensures
        crate::library::generator::nav_ncx(epub_type, lis, head) matches Ok(n) ==> forall|k: int| 0 <= k < n.points.len()
            ==> playorder_outcome(#[trigger] n.points[k].play_order) == Ok::<nat, Seq<char>>((k + 1) as nat),
{
    crate::library::generator::lemma_nav_points_numbered(lis, 0);
    if let Ok(n) = crate::library::generator::nav_ncx(epub_type, lis, head) {
        assert forall|k: int| 0 <= k < n.points.len()
            implies playorder_outcome(#[trigger] n.points[k].play_order) == Ok::<nat, Seq<char>>((k + 1) as nat) by {
            law_written_playorder_is_accepted((k + 1) as nat);
        }
    }
}

/// `10^d`.
pub open spec fn pow10(d: nat) -> nat
    decreases d,
{
    if d == 0 {
        1
    } else {
        10 * pow10((d - 1) as nat)
    }
}

proof fn lemma_decimal_shape(n: nat, d: nat)
    requires
        d >= 1,
        n < pow10(d),
    ensures
        decimal(n).len() <= d,
        vstd::utf8::is_ascii_chars(decimal(n)),
    decreases n,
{
    if n >= 10 {
        assert(d >= 2) by {
            if d == 1 {
                assert(pow10(1) == 10) by {
                    assert(pow10(0) == 1);
                }
            }
        }
        let p = pow10((d - 1) as nat);
        assert(pow10(d) == 10 * p);
        assert(n / 10 < p) by (nonlinear_arith)
            requires
                n < 10 * p,
        ;
        lemma_decimal_shape(n / 10, (d - 1) as nat);
        let t = decimal(n / 10);
        assert(decimal(n) == t.push(crate::text::digit_char(n % 10)));
        assert forall|i: int| 0 <= i < decimal(n).len() implies '\0' <= #[trigger] decimal(n)[i] <= '\u{7f}' by {
            if i < t.len() {
                assert(decimal(n)[i] == t[i]);
            }
        }
    }
}

/// The label of the entry made for spine position `k`: `Chapter k + 1`.
proof fn lemma_chapter_label(k: nat)
    requires
        k < u32::MAX,
    ensures
        vstd::utf8::encode_utf8("Chapter "@ + decimal(k + 1)).len() <= 100,
        ("Chapter "@ + decimal(k + 1)).len() > 0,
{
    reveal_strlit("Chapter ");
    assert(pow10(10) == 10000000000) by {
        reveal_with_fuel(pow10, 11);
    }
    lemma_decimal_shape(k + 1, 10);
    let l = "Chapter "@ + decimal(k + 1);
    assert(vstd::utf8::is_ascii_chars("Chapter "@));
    vstd::utf8::is_ascii_chars_concat(l, "Chapter "@, decimal(k + 1));
    vstd::utf8::is_ascii_chars_encode_utf8(l);
}

proof fn lemma_no_point_problem(names: Seq<Seq<char>>, toc_file: Seq<char>, points: Seq<crate::library::toc_model::NavPointView>)
    requires
        forall|k: int| 0 <= k < points.len() ==> (#[trigger] point_problem(names, toc_file, points[k])) is None,
    ensures
        first_point_problem(names, toc_file, points) is None,
    decreases points.len(),
{
    if points.len() > 0 {
        assert(point_problem(names, toc_file, points[0]) is None);
        assert forall|k: int| 0 <= k < points.drop_first().len()
            implies (#[trigger] point_problem(names, toc_file, points.drop_first()[k])) is None by {
            assert(points.drop_first()[k] == points[k + 1]);
        }
        lemma_no_point_problem(names, toc_file, points.drop_first());
    }
}

/// A table of contents built from the spine passes the table check on any
/// archive that holds the target of each of its entries (resolved next to
/// the table): every entry has a positive play order and a short, non-empty
/// label.
pub proof fn law_spine_ncx_passes_toc_check(pkg: PackageView, names: Seq<Seq<char>>, toc_file: Seq<char>)
    requires
        pkg.idrefs.len() < u32::MAX,
        crate::library::generator::spine_ncx(pkg) matches Ok(n) ==> forall|k: int| 0 <= k < n.points.len()
            ==> names.contains(normalized_path(file_name_replaced(toc_file, (#[trigger] n.points[k]).src))),
    ensures
        crate::library::generator::spine_ncx(pkg) matches Ok(n) ==> toc_integrity(names, toc_file, n) == Ok::<(), Seq<char>>(()),
{
    law_spine_ncx_playorders_accepted(pkg);
    if let Ok(n) = crate::library::generator::spine_ncx(pkg) {
        assert forall|k: int| 0 <= k < n.points.len() implies (#[trigger] point_problem(names, toc_file, n.points[k])) is None by {
            let p = n.points[k];
            assert(p == crate::library::generator::spine_point(pkg, k));
            lemma_chapter_label(k as nat);
            assert(names.contains(normalized_path(file_name_replaced(toc_file, p.src))));
            assert(playorder_outcome(p.play_order) == Ok::<nat, Seq<char>>((k + 1) as nat));
        }
        lemma_no_point_problem(names, toc_file, n.points);
        assert(n.points.len() > 0);
    }
}

/// Every manifest item's file, resolved next to the package document at
/// `opf_path`, is an entry of the archive.
pub open spec fn manifest_files_present(names: Seq<Seq<char>>, opf_path: Seq<char>, items: Seq<crate::library::opf_model::ItemView>) -> bool {
    forall|j: int| 0 <= j < items.len() ==> names.contains(file_name_replaced(opf_path, (#[trigger] items[j]).href))
}

proof fn lemma_walk_present(
    names: Seq<Seq<char>>,
    opf_path: Seq<char>,
    items: Seq<crate::library::opf_model::ItemView>,
    toc: Seq<char>,
    found: Seq<char>,
)
    requires
        manifest_files_present(names, opf_path, items),
    ensures
        (manifest_walk(names, opf_path, items, toc, found) matches Ok(f) && ((exists|j: int|
            0 <= j < items.len() && (#[trigger] items[j]).id == toc) ==> names.contains(f))),
    decreases items.len(),
{
    if items.len() > 0 {
        let h = file_name_replaced(opf_path, items[0].href);
        assert(names.contains(h));
        let rest = items.drop_first();
        assert(manifest_files_present(names, opf_path, rest)) by {
            assert forall|j: int| 0 <= j < rest.len() implies names.contains(file_name_replaced(opf_path, (#[trigger] rest[j]).href)) by {
                assert(rest[j] == items[j + 1]);
            }
        }
        let nf = if items[0].id == toc { h } else { found };
        lemma_walk_present(names, opf_path, rest, toc, nf);
        if exists|j: int| 0 <= j < items.len() && (#[trigger] items[j]).id == toc {
            if items[0].id != toc {
                let j = choose|j: int| 0 <= j < items.len() && (#[trigger] items[j]).id == toc;
                assert(rest[j - 1] == items[j]);
            } else if !(exists|j: int| 0 <= j < rest.len() && (#[trigger] rest[j]).id == toc) {
                lemma_walk_keeps_found(names, opf_path, rest, toc, nf);
            }
        }
    }
}

proof fn lemma_walk_keeps_found(
    names: Seq<Seq<char>>,
    opf_path: Seq<char>,
    items: Seq<crate::library::opf_model::ItemView>,
    toc: Seq<char>,
    found: Seq<char>,
)
    requires
        manifest_files_present(names, opf_path, items),
        forall|j: int| 0 <= j < items.len() ==> (#[trigger] items[j]).id != toc,
    ensures
        manifest_walk(names, opf_path, items, toc, found) == Ok::<Seq<char>, Seq<char>>(found),
    decreases items.len(),
{
    if items.len() > 0 {
        let rest = items.drop_first();
        assert(items[0].id != toc);
        assert(names.contains(file_name_replaced(opf_path, items[0].href)));
        assert forall|j: int| 0 <= j < rest.len() implies names.contains(file_name_replaced(opf_path, (#[trigger] rest[j]).href)) by {
            assert(rest[j] == items[j + 1]);
        }
        assert forall|j: int| 0 <= j < rest.len() implies (#[trigger] rest[j]).id != toc by {
            assert(rest[j] == items[j + 1]);
        }
        lemma_walk_keeps_found(names, opf_path, rest, toc, found);
    }
}

proof fn lemma_walk_missing(
    names: Seq<Seq<char>>,
    opf_path: Seq<char>,
    items: Seq<crate::library::opf_model::ItemView>,
    toc: Seq<char>,
    found: Seq<char>,
    j: int,
)
    requires
        0 <= j < items.len(),
        !names.contains(file_name_replaced(opf_path, items[j].href)),
    ensures
        (manifest_walk(names, opf_path, items, toc, found) matches Err(m)
            && exists|k: int| 0 <= k < items.len() && !names.contains(file_name_replaced(opf_path, (#[trigger] items[k]).href))
                && m == "Missing file in zip: "@ + file_name_replaced(opf_path, items[k].href)),
    decreases items.len(),
{
    let h = file_name_replaced(opf_path, items[0].href);
    if !names.contains(h) {
        assert(items[0] == items[0]);
    } else {
        assert(j > 0);
        let rest = items.drop_first();
        assert(rest[j - 1] == items[j]);
        lemma_walk_missing(names, opf_path, rest, toc, if items[0].id == toc { h } else { found }, j - 1);
        let m = manifest_walk(names, opf_path, rest, toc, if items[0].id == toc { h } else { found })->Err_0;
        let k = choose|k: int| 0 <= k < rest.len() && !names.contains(file_name_replaced(opf_path, (#[trigger] rest[k]).href))
            && m == "Missing file in zip: "@ + file_name_replaced(opf_path, rest[k].href);
        assert(rest[k] == items[k + 1]);
    }
}

proof fn lemma_known_refs(idrefs: Seq<Seq<char>>, ids: Seq<Seq<char>>)
    requires
        forall|k: int| 0 <= k < idrefs.len() ==> ids.contains(#[trigger] idrefs[k]),
    ensures
        first_unknown_ref(idrefs, ids) is None,
    decreases idrefs.len(),
{
    if idrefs.len() > 0 {
        assert(ids.contains(idrefs[0]));
        assert forall|k: int| 0 <= k < idrefs.drop_first().len() implies ids.contains(#[trigger] idrefs.drop_first()[k]) by {
            assert(idrefs.drop_first()[k] == idrefs[k + 1]);
        }
        lemma_known_refs(idrefs.drop_first(), ids);
    }
}

proof fn lemma_unknown_ref(idrefs: Seq<Seq<char>>, ids: Seq<Seq<char>>, j: int)
    requires
        0 <= j < idrefs.len(),
        !ids.contains(idrefs[j]),
    ensures
        (first_unknown_ref(idrefs, ids) matches Some(r) && !ids.contains(r)
            && exists|k: int| 0 <= k < idrefs.len() && #[trigger] idrefs[k] == r),
    decreases idrefs.len(),
{
    if ids.contains(idrefs[0]) {
        assert(idrefs.drop_first()[j - 1] == idrefs[j]);
        lemma_unknown_ref(idrefs.drop_first(), ids, j - 1);
        let r = first_unknown_ref(idrefs.drop_first(), ids)->0;
        let k = choose|k: int| 0 <= k < idrefs.drop_first().len() && #[trigger] idrefs.drop_first()[k] == r;
        assert(idrefs[k + 1] == r);
    } else {
        assert(idrefs[0] == idrefs[0]);
    }
}

/// Without a spine `toc` attribute the archive check passes with `true`.
/// When every manifest file is present but an itemref names no manifest
/// item, the check fails naming an itemref that names no item.
pub proof fn law_zip_integrity_spine_refs(names: Seq<Seq<char>>, opf_path: Seq<char>, pkg: PackageView)
    ensures
        pkg.toc.len() == 0 ==> zip_integrity(names, opf_path, pkg) == Ok::<bool, Seq<char>>(true),
        pkg.toc.len() > 0 && manifest_files_present(names, opf_path, pkg.items)
            && (exists|k: int| 0 <= k < pkg.idrefs.len() && !item_ids(pkg.items).contains(#[trigger] pkg.idrefs[k]))
            ==> (zip_integrity(names, opf_path, pkg) matches Err(m) && exists|k: int| 0 <= k < pkg.idrefs.len()
                && !item_ids(pkg.items).contains(#[trigger] pkg.idrefs[k]) && m == "missing idref: "@ + pkg.idrefs[k]),
{
    if pkg.toc.len() > 0 && manifest_files_present(names, opf_path, pkg.items) {
        lemma_walk_present(names, opf_path, pkg.items, pkg.toc, Seq::empty());
        if exists|k: int| 0 <= k < pkg.idrefs.len() && !item_ids(pkg.items).contains(#[trigger] pkg.idrefs[k]) {
            let j = choose|k: int| 0 <= k < pkg.idrefs.len() && !item_ids(pkg.items).contains(#[trigger] pkg.idrefs[k]);
            lemma_unknown_ref(pkg.idrefs, item_ids(pkg.items), j);
        }
    }
}

/// Manifest files are looked for next to the package document. When the
/// package names a table of contents, the archive holds every manifest file
/// resolved next to the package document, every itemref names a manifest
/// item, and some manifest item is the table, the archive check passes and
/// reports the table present (`false`: nothing to regenerate). When a
/// resolved manifest file is missing, the check fails with that file named.
pub proof fn law_zip_integrity_resolves_next_to_package(names: Seq<Seq<char>>, opf_path: Seq<char>, pkg: PackageView)
    ensures
        pkg.toc.len() > 0 && manifest_files_present(names, opf_path, pkg.items)
            && (forall|k: int| 0 <= k < pkg.idrefs.len() ==> item_ids(pkg.items).contains(#[trigger] pkg.idrefs[k]))
            && (exists|j: int| 0 <= j < pkg.items.len() && (#[trigger] pkg.items[j]).id == pkg.toc)
            ==> zip_integrity(names, opf_path, pkg) == Ok::<bool, Seq<char>>(false),
        pkg.toc.len() > 0 && !manifest_files_present(names, opf_path, pkg.items) ==> (zip_integrity(names, opf_path, pkg) matches Err(m)
            && exists|k: int| 0 <= k < pkg.items.len() && !names.contains(file_name_replaced(opf_path, (#[trigger] pkg.items[k]).href))
                && m == "Missing file in zip: "@ + file_name_replaced(opf_path, pkg.items[k].href)),
{
    if pkg.toc.len() > 0 {
        if manifest_files_present(names, opf_path, pkg.items) {
            lemma_walk_present(names, opf_path, pkg.items, pkg.toc, Seq::empty());
            if forall|k: int| 0 <= k < pkg.idrefs.len() ==> item_ids(pkg.items).contains(#[trigger] pkg.idrefs[k]) {
                lemma_known_refs(pkg.idrefs, item_ids(pkg.items));
            }
        } else {
            let j = choose|j: int| 0 <= j < pkg.items.len() && !names.contains(file_name_replaced(opf_path, (#[trigger] pkg.items[j]).href));
            lemma_walk_missing(names, opf_path, pkg.items, pkg.toc, Seq::empty(), j);
        }
    }
}

} // verus!
