//! Phase 1: the ZIP archive. The archive itself is read by the caller; these
//! functions judge the names it lists.

use vstd::prelude::*;

use crate::base::types::ArchiveInfo;
use crate::text::{chars_equal, chars_of, contains_seq, text_contains};

verus! {

/// How many readable entries before position `n` carry the name `name`.
pub open spec fn occurrences_before(names: Seq<Option<String>>, n: int, name: Seq<char>) -> nat
    decreases n,
{
    if n <= 0 {
        0
    } else {
        let rest = occurrences_before(names, n - 1, name);
        match names[n - 1] {
            Some(s) => if s@ == name { rest + 1 } else { rest },
            None => rest,
        }
    }
}

/// The names that occur more than once among the readable entries before
/// position `n`, each listed once, in the order of its second occurrence.
pub open spec fn duplicate_names(names: Seq<Option<String>>, n: int) -> Seq<Seq<char>>
    decreases n,
{
    if n <= 0 {
        Seq::empty()
    } else {
        let rest = duplicate_names(names, n - 1);
        match names[n - 1] {
            Some(s) => if occurrences_before(names, n - 1, s@) == 1 { rest.push(s@) } else { rest },
            None => rest,
        }
    }
}

/// Summarizes an archive's listing: `file_names` are the names it lists and
/// `entry_names[i]` the name of the i-th entry when that entry can be opened.
/// A name opened twice or more is a duplicate path.
pub fn archive_info(file_names: Vec<String>, entry_names: &[Option<String>]) -> (info: ArchiveInfo)
    ensures
        info.entries@ == file_names@,
        info.duplicate_paths.deep_view() == duplicate_names(entry_names@, entry_names@.len() as int),
{
    let mut chars: Vec<Option<Vec<char>>> = Vec::new();
    let mut k: usize = 0;
    while k < entry_names.len()
        invariant
            k <= entry_names@.len(),
            chars@.len() == k,
            forall|j: int| 0 <= j < k ==> match (#[trigger] chars@[j], entry_names@[j]) {
                (Some(c), Some(s)) => c@ == s@,
                (None, None) => true,
                _ => false,
            },
        decreases entry_names@.len() - k,
    {
        match &entry_names[k] {
            Some(s) => chars.push(Some(chars_of(s.as_str()))),
            None => chars.push(None),
        }
        k = k + 1;
    }
    let mut duplicate_paths: Vec<String> = Vec::new();
    let mut i: usize = 0;
    while i < entry_names.len()
        invariant
            i <= entry_names@.len(),
            chars@.len() == entry_names@.len(),
            forall|j: int| 0 <= j < entry_names@.len() ==> match (#[trigger] chars@[j], entry_names@[j]) {
                (Some(c), Some(s)) => c@ == s@,
                (None, None) => true,
                _ => false,
            },
            duplicate_paths.deep_view() == duplicate_names(entry_names@, i as int),
        decreases entry_names@.len() - i,
    {
        match &entry_names[i] {
            Some(name) => {
                let c = chars[i].as_ref().unwrap();
                let mut count: usize = 0;
                let mut j: usize = 0;
                while j < i
                    invariant
                        j <= i < entry_names@.len(),
                        chars@.len() == entry_names@.len(),
                        forall|m: int| 0 <= m < entry_names@.len() ==> match (#[trigger] chars@[m], entry_names@[m]) {
                            (Some(c), Some(s)) => c@ == s@,
                            (None, None) => true,
                            _ => false,
                        },
                        c@ == name@,
                        count == occurrences_before(entry_names@, j as int, name@),
                        count <= j,
                    decreases i - j,
                {
                    match &chars[j] {
                        Some(other) => {
                            if chars_equal(other.as_slice(), c.as_slice()) {
                                count = count + 1;
                            }
                        },
                        None => {},
                    }
                    j = j + 1;
                }
                if count == 1 {
                    let ghost before = duplicate_paths.deep_view();
                    duplicate_paths.push(name.clone());
                    assert(duplicate_paths.deep_view() =~= before.push(name@));
                }
            },
            None => {},
        }
        i = i + 1;
    }
    ArchiveInfo { entries: file_names, duplicate_paths }
}

/// The names among `names` that `s` contains as a part, in order.
pub open spec fn names_containing(names: Seq<String>, pattern: Seq<char>) -> Seq<Seq<char>>
    decreases names.len(),
{
    if names.len() == 0 {
        Seq::empty()
    } else {
        let rest = names_containing(names.drop_last(), pattern);
        if contains_seq(names.last()@, pattern) {
            rest.push(names.last()@)
        } else {
            rest
        }
    }
}

/// Gets all entry names that contain `pattern`, in listing order.
pub fn find_entries(names: &[String], pattern: &str) -> (found: Vec<String>)
    ensures
        found.deep_view() == names_containing(names@, pattern@),
{
    let mut found: Vec<String> = Vec::new();
    let mut i: usize = 0;
    while i < names.len()
        invariant
            i <= names@.len(),
            found.deep_view() == names_containing(names@.take(i as int), pattern@),
        decreases names@.len() - i,
    {
        proof {
            assert(names@.take(i + 1).drop_last() =~= names@.take(i as int));
        }
        if text_contains(names[i].as_str(), pattern) {
            let ghost before = found.deep_view();
            found.push(names[i].clone());
            assert(found.deep_view() =~= before.push(names@[i as int]@));
        }
        i = i + 1;
    }
    assert(names@.take(names@.len() as int) =~= names@);
    found
}

} // verus!
