//! Phase 6: cross-checks between the spine, the manifest, the archive and the
//! navigation document.

use vstd::prelude::*;

use crate::base::result::{ResultView, ValidationResult, empty_report};
use crate::base::types::{
    ErrorCode, LocationView, ManifestInfo, NavInfo, Severity, SpineInfo, ValidationError,
    ValidationLocation, index_contents, index_get, reports,
};
use crate::epub::manifest::{reports_entry_issues, EntryIssue};
use crate::text::{chars_of, contains_text, string_of};

verus! {

/// The positions of the linear spine items whose idref names no manifest item.
pub open spec fn unmatched_spine_positions(spine_info: SpineInfo, manifest_info: ManifestInfo, n: int) -> Seq<nat>
    decreases n,
{
    if n <= 0 {
        Seq::empty()
    } else {
        let rest = unmatched_spine_positions(spine_info, manifest_info, n - 1);
        if index_contents(manifest_info.id_to_item).contains_key(spine_info.linear_items@[n - 1].idref@) {
            rest
        } else {
            rest.push((n - 1) as nat)
        }
    }
}

/// `r` holds one error with `code` for each position of `positions`, located
/// by `at`, and nothing else.
pub open spec fn errors_at_positions(r: ResultView, code: ErrorCode, positions: Seq<nat>, toc: bool) -> bool {
    &&& r.warnings.len() == 0
    &&& r.errors.len() == positions.len()
    &&& r.passed == (positions.len() == 0)
    &&& forall|k: int| 0 <= k < positions.len() ==> reports(
        #[trigger] r.errors[k],
        code,
        if toc { LocationView::TocEntry(positions[k]) } else { LocationView::SpineItem(positions[k]) },
        Severity::Error,
    )
}

/// Validates that every linear spine itemref names a manifest item.
pub fn validate_spine_manifest(spine_info: &SpineInfo, manifest_info: &ManifestInfo) -> (r: ValidationResult)
    ensures
        spine_manifest_outcome(r, *spine_info, *manifest_info),
{
    let mut result = ValidationResult::new();
    let mut index: usize = 0;
    while index < spine_info.linear_items.len()
        invariant
            index <= spine_info.linear_items@.len(),
            errors_at_positions(
                result@,
                ErrorCode::SpineManifestMismatch,
                unmatched_spine_positions(*spine_info, *manifest_info, index as int),
                false,
            ),
        decreases spine_info.linear_items@.len() - index,
    {
        let itemref = &spine_info.linear_items[index];
        if index_get(&manifest_info.id_to_item, itemref.idref.as_str()).is_none() {
            result.add_error(ValidationError::new(
                ErrorCode::SpineManifestMismatch,
                ValidationLocation::SpineItem { index },
            ));
        }
        index = index + 1;
    }
    result
}

/// The hrefs of the manifest items that are absent from the archive.
pub open spec fn absent_entries(manifest_info: ManifestInfo, present: Seq<bool>, n: int) -> Seq<EntryIssue>
    decreases n,
{
    if n <= 0 {
        Seq::empty()
    } else {
        let rest = absent_entries(manifest_info, present, n - 1);
        if present[n - 1] {
            rest
        } else {
            rest.push(EntryIssue { code: ErrorCode::ManifestArchiveMismatch, path: manifest_info.items@[n - 1].href@ })
        }
    }
}

/// Validates that every manifest item exists in the archive; `entry_present[i]`
/// tells whether the archive has an entry at the href of the i-th item.
pub fn validate_manifest_archive(manifest_info: &ManifestInfo, entry_present: &[bool]) -> (r: ValidationResult)
    requires
        entry_present@.len() == manifest_info.items@.len(),
    ensures
        manifest_archive_outcome(r, *manifest_info, entry_present@),
{
    let mut result = ValidationResult::new();
    let mut i: usize = 0;
    while i < manifest_info.items.len()
        invariant
            i <= manifest_info.items@.len(),
            entry_present@.len() == manifest_info.items@.len(),
            reports_entry_issues(result@.errors, absent_entries(*manifest_info, entry_present@, i as int), Severity::Error),
            result@.warnings.len() == 0,
            result@.passed == (result@.errors.len() == 0),
        decreases manifest_info.items@.len() - i,
    {
        let item = &manifest_info.items[i];
        if !entry_present[i] {
            result.add_error(ValidationError::new(
                ErrorCode::ManifestArchiveMismatch,
                ValidationLocation::ArchiveEntry { path: item.href.clone() },
            ));
        }
        i = i + 1;
    }
    result
}

/// The part of a link target before its fragment (`#...`).
pub open spec fn document_part(h: Seq<char>) -> Seq<char>
    decreases h.len(),
{
    if h.len() == 0 {
        h
    } else {
        let p = document_part(h.drop_last());
        if p.len() < h.len() - 1 {
            p
        } else if h.last() == '#' {
            h.drop_last()
        } else {
            h
        }
    }
}

proof fn lemma_document_part_prefix(h: Seq<char>)
    ensures
        document_part(h).len() <= h.len(),
        document_part(h) == h.take(document_part(h).len() as int),
    decreases h.len(),
{
    if h.len() > 0 {
        lemma_document_part_prefix(h.drop_last());
        assert(h.drop_last().take(document_part(h.drop_last()).len() as int) =~= h.take(document_part(h.drop_last()).len() as int));
        assert(h.take(h.len() - 1) =~= h.drop_last());
        assert(h.take(h.len() as int) =~= h);
    }
}

/// The part of a link target before its fragment.
fn strip_fragment(h: &str) -> (r: String)
    ensures
        r@ == document_part(h@),
{
    let cs = chars_of(h);
    let mut n: usize = 0;
    let mut cut = false;
    let mut i: usize = 0;
    while i < cs.len()
        invariant
            i <= cs@.len(),
            cs@ == h@,
            n <= i,
            document_part(cs@.take(i as int)) == cs@.take(n as int),
            !cut ==> n == i,
            cut ==> n < i,
        decreases cs@.len() - i,
    {
        proof {
            assert(cs@.take(i + 1).drop_last() =~= cs@.take(i as int));
            assert(cs@.take(i + 1).last() == cs@[i as int]);
            lemma_document_part_prefix(cs@.take(i as int));
        }
        if !cut {
            if cs[i] == '#' {
                cut = true;
            } else {
                n = i + 1;
            }
        }
        i = i + 1;
    }
    assert(cs@.take(cs@.len() as int) =~= cs@);
    let prefix = cs.as_slice();
    let mut out: Vec<char> = Vec::new();
    let mut k: usize = 0;
    while k < n
        invariant
            k <= n <= cs@.len(),
            prefix@ == cs@,
            out@ == cs@.take(k as int),
        decreases n - k,
    {
        out.push(prefix[k]);
        k = k + 1;
        assert(out@ =~= cs@.take(k as int));
    }
    string_of(out.as_slice())
}

/// `h` is the href of the manifest item named by some linear spine item.
pub open spec fn is_linear_document(spine_info: SpineInfo, manifest_info: ManifestInfo, h: Seq<char>) -> bool {
    exists|i: int| {
        &&& 0 <= i < spine_info.linear_items@.len()
        &&& #[trigger] index_contents(manifest_info.id_to_item).contains_key(spine_info.linear_items@[i].idref@)
        &&& index_contents(manifest_info.id_to_item)[spine_info.linear_items@[i].idref@].href@ == h
    }
}

/// How the navigation check judges the table of contents entry at a position:
/// an empty target is a warning, a target outside the linear spine an error.
pub open spec fn nav_entry_issue(nav_info: NavInfo, spine_info: SpineInfo, manifest_info: ManifestInfo, k: int) -> Option<Severity> {
    let h = nav_info.toc_entries@[k].href@;
    if h.len() == 0 {
        Some(Severity::Warning)
    } else if !is_linear_document(spine_info, manifest_info, document_part(h)) {
        Some(Severity::Error)
    } else {
        None
    }
}

/// The positions of the table of contents entries that get an issue of `severity`.
pub open spec fn nav_issue_positions(
    nav_info: NavInfo,
    spine_info: SpineInfo,
    manifest_info: ManifestInfo,
    severity: Severity,
    n: int,
) -> Seq<nat>
    decreases n,
{
    if n <= 0 {
        Seq::empty()
    } else {
        let rest = nav_issue_positions(nav_info, spine_info, manifest_info, severity, n - 1);
        if nav_entry_issue(nav_info, spine_info, manifest_info, n - 1) == Some(severity) {
            rest.push((n - 1) as nat)
        } else {
            rest
        }
    }
}

/// Some linear spine item before position `n` names a manifest item with href `h`.
pub open spec fn linear_document_before(spine_info: SpineInfo, manifest_info: ManifestInfo, n: int, h: Seq<char>) -> bool {
    exists|j: int| {
        &&& 0 <= j < n
        &&& #[trigger] index_contents(manifest_info.id_to_item).contains_key(spine_info.linear_items@[j].idref@)
        &&& index_contents(manifest_info.id_to_item)[spine_info.linear_items@[j].idref@].href@ == h
    }
}

/// One of `list` holds the characters `h`.
pub open spec fn holds_text(list: Seq<String>, h: Seq<char>) -> bool {
    exists|k: int| 0 <= k < list.len() && #[trigger] list[k]@ == h
}

/// The hrefs of the manifest items named by the linear spine items, as a
/// vector searched by comparing characters: vstd's `HashSet` specification
/// says nothing of the contents for `String` keys (it rests on a key model
/// that vstd grants only to integer and `bool` keys).
fn linear_documents(spine_info: &SpineInfo, manifest_info: &ManifestInfo) -> (paths: Vec<String>)
    ensures
        forall|h: Seq<char>| #[trigger] is_linear_document(*spine_info, *manifest_info, h)
            <==> #[trigger] holds_text(paths@, h),
{
    let mut paths: Vec<String> = Vec::new();
    let mut i: usize = 0;
    while i < spine_info.linear_items.len()
        invariant
            i <= spine_info.linear_items@.len(),
            forall|h: Seq<char>| #[trigger] linear_document_before(*spine_info, *manifest_info, i as int, h)
                <==> #[trigger] holds_text(paths@, h),
        decreases spine_info.linear_items@.len() - i,
    {
        let itemref = &spine_info.linear_items[i];
        let ghost old_paths = paths@;
        match index_get(&manifest_info.id_to_item, itemref.idref.as_str()) {
            Some(item) => {
                paths.push(item.href.clone());
                proof {
                    assert forall|h: Seq<char>| #[trigger] linear_document_before(*spine_info, *manifest_info, i + 1, h)
                        <==> #[trigger] holds_text(paths@, h) by {
                        if holds_text(paths@, h) {
                            let k = choose|k: int| 0 <= k < paths@.len() && #[trigger] paths@[k]@ == h;
                            if k < old_paths.len() {
                                assert(old_paths[k]@ == h);
                                assert(holds_text(old_paths, h));
                                assert(linear_document_before(*spine_info, *manifest_info, i as int, h));
                                let j = choose|j: int| {
                                    &&& 0 <= j < i
                                    &&& #[trigger] index_contents(manifest_info.id_to_item).contains_key(spine_info.linear_items@[j].idref@)
                                    &&& index_contents(manifest_info.id_to_item)[spine_info.linear_items@[j].idref@].href@ == h
                                };
                                assert(index_contents(manifest_info.id_to_item).contains_key(spine_info.linear_items@[j].idref@));
                            } else {
                                assert(index_contents(manifest_info.id_to_item).contains_key(spine_info.linear_items@[i as int].idref@));
                                assert(index_contents(manifest_info.id_to_item)[spine_info.linear_items@[i as int].idref@].href@ == h);
                            }
                        }
                        if linear_document_before(*spine_info, *manifest_info, i + 1, h) {
                            let j = choose|j: int| {
                                &&& 0 <= j < i + 1
                                &&& #[trigger] index_contents(manifest_info.id_to_item).contains_key(spine_info.linear_items@[j].idref@)
                                &&& index_contents(manifest_info.id_to_item)[spine_info.linear_items@[j].idref@].href@ == h
                            };
                            if j == i {
                                assert(paths@[old_paths.len() as int]@ == h);
                            } else {
                                assert(linear_document_before(*spine_info, *manifest_info, i as int, h));
                                assert(holds_text(old_paths, h));
                                let k = choose|k: int| 0 <= k < old_paths.len() && #[trigger] old_paths[k]@ == h;
                                assert(paths@[k]@ == h);
                            }
                        }
                    }
                }
            },
            None => {
                proof {
                    assert forall|h: Seq<char>| #[trigger] linear_document_before(*spine_info, *manifest_info, i + 1, h)
                        <==> #[trigger] holds_text(paths@, h) by {
                        if linear_document_before(*spine_info, *manifest_info, i + 1, h) {
                            let j = choose|j: int| {
                                &&& 0 <= j < i + 1
                                &&& #[trigger] index_contents(manifest_info.id_to_item).contains_key(spine_info.linear_items@[j].idref@)
                                &&& index_contents(manifest_info.id_to_item)[spine_info.linear_items@[j].idref@].href@ == h
                            };
                            assert(j != i);
                            assert(linear_document_before(*spine_info, *manifest_info, i as int, h));
                        }
                        if holds_text(paths@, h) {
                            assert(linear_document_before(*spine_info, *manifest_info, i as int, h));
                        }
                    }
                }
            },
        }
        i = i + 1;
    }
    proof {
        assert forall|h: Seq<char>| #[trigger] is_linear_document(*spine_info, *manifest_info, h)
            <==> #[trigger] holds_text(paths@, h) by {
            assert(is_linear_document(*spine_info, *manifest_info, h) == linear_document_before(*spine_info, *manifest_info, i as int, h));
        }
    }
    paths
}

/// Validates that the table of contents targets the linear spine: an entry
/// with an empty target gets a warning, and an entry whose document (the
/// target without its fragment) is not a linear spine document an error.
pub fn validate_nav_spine(nav_info: &NavInfo, spine_info: &SpineInfo, manifest_info: &ManifestInfo) -> (r: ValidationResult)
    ensures
        nav_spine_outcome(r, *nav_info, *spine_info, *manifest_info),
{
    let linear_paths = linear_documents(spine_info, manifest_info);
    let mut result = ValidationResult::new();
    let mut index: usize = 0;
    while index < nav_info.toc_entries.len()
        invariant
            index <= nav_info.toc_entries@.len(),
            forall|h: Seq<char>| #[trigger] is_linear_document(*spine_info, *manifest_info, h)
                <==> #[trigger] holds_text(linear_paths@, h),
            ({
                let warned = nav_issue_positions(*nav_info, *spine_info, *manifest_info, Severity::Warning, index as int);
                let failed = nav_issue_positions(*nav_info, *spine_info, *manifest_info, Severity::Error, index as int);
                &&& result@.passed == (warned.len() == 0 && failed.len() == 0)
                &&& result@.warnings.len() == warned.len()
                &&& forall|k: int| 0 <= k < warned.len() ==> reports(#[trigger] result@.warnings[k], ErrorCode::NavSpineMismatch, LocationView::TocEntry(warned[k]), Severity::Error)
                &&& result@.errors.len() == failed.len()
                &&& forall|k: int| 0 <= k < failed.len() ==> reports(#[trigger] result@.errors[k], ErrorCode::NavSpineMismatch, LocationView::TocEntry(failed[k]), Severity::Error)
            }),
        decreases nav_info.toc_entries@.len() - index,
    {
        let entry = &nav_info.toc_entries[index];
        if entry.href.as_str().is_empty() {
            result.add_warning(ValidationError::new(
                ErrorCode::NavSpineMismatch,
                ValidationLocation::TocEntry { index },
            ));
        } else {
            let target = strip_fragment(entry.href.as_str());
            let found = contains_text(&linear_paths, target.as_str());
            proof {
                assert(found == holds_text(linear_paths@, target@));
                assert(found == is_linear_document(*spine_info, *manifest_info, target@));
            }
            if !found {
                result.add_error(ValidationError::new(
                    ErrorCode::NavSpineMismatch,
                    ValidationLocation::TocEntry { index },
                ));
            }
        }
        index = index + 1;
    }
    result
}

/// Validates consistency between spine, manifest, archive and navigation; the
/// three checks' results are combined in that order. `entry_present[i]` tells
/// whether the archive has an entry at the href of the i-th manifest item.
pub fn validate_consistency(
    spine_info: &SpineInfo,
    manifest_info: &ManifestInfo,
    entry_present: &[bool],
    nav_info: &NavInfo,
) -> (r: ValidationResult)
    requires
        entry_present@.len() == manifest_info.items@.len(),
    ensures
        consistency_outcome(r, *spine_info, *manifest_info, entry_present@, *nav_info),
{
    let mut result = ValidationResult::new();
    let a = validate_spine_manifest(spine_info, manifest_info);
    let b = validate_manifest_archive(manifest_info, entry_present);
    let c = validate_nav_spine(nav_info, spine_info, manifest_info);
    let ghost (ga, gb, gc) = (a, b, c);
    result.extend(a);
    result.extend(b);
    result.extend(c);
    assert(spine_manifest_outcome(ga, *spine_info, *manifest_info));
    assert(manifest_archive_outcome(gb, *manifest_info, entry_present@));
    assert(nav_spine_outcome(gc, *nav_info, *spine_info, *manifest_info));
    result
}

/// What the consistency phase gives: the spine-manifest, manifest-archive and
/// navigation-spine results, combined in that order.
pub open spec fn consistency_outcome(
    r: ValidationResult,
    spine_info: SpineInfo,
    manifest_info: ManifestInfo,
    present: Seq<bool>,
    nav_info: NavInfo,
) -> bool {
    exists|a: ValidationResult, b: ValidationResult, c: ValidationResult| {
        &&& #[trigger] spine_manifest_outcome(a, spine_info, manifest_info)
        &&& #[trigger] manifest_archive_outcome(b, manifest_info, present)
        &&& #[trigger] nav_spine_outcome(c, nav_info, spine_info, manifest_info)
        &&& r@ == empty_report().merge(a@).merge(b@).merge(c@)
    }
}

/// What `validate_spine_manifest` promises of its result.
pub open spec fn spine_manifest_outcome(r: ValidationResult, spine_info: SpineInfo, manifest_info: ManifestInfo) -> bool {
    errors_at_positions(
        r@,
        ErrorCode::SpineManifestMismatch,
        unmatched_spine_positions(spine_info, manifest_info, spine_info.linear_items@.len() as int),
        false,
    )
}

/// What `validate_manifest_archive` promises of its result.
pub open spec fn manifest_archive_outcome(r: ValidationResult, manifest_info: ManifestInfo, present: Seq<bool>) -> bool {
    let issues = absent_entries(manifest_info, present, manifest_info.items@.len() as int);
    &&& reports_entry_issues(r@.errors, issues, Severity::Error)
    &&& r@.warnings.len() == 0
    &&& r@.passed == (issues.len() == 0)
}

/// What `validate_nav_spine` promises of its result.
pub open spec fn nav_spine_outcome(r: ValidationResult, nav_info: NavInfo, spine_info: SpineInfo, manifest_info: ManifestInfo) -> bool {
    let n = nav_info.toc_entries@.len() as int;
    let warned = nav_issue_positions(nav_info, spine_info, manifest_info, Severity::Warning, n);
    let failed = nav_issue_positions(nav_info, spine_info, manifest_info, Severity::Error, n);
    &&& r@.passed == (warned.len() == 0 && failed.len() == 0)
    &&& r@.warnings.len() == warned.len()
    &&& forall|k: int| 0 <= k < warned.len() ==> reports(#[trigger] r@.warnings[k], ErrorCode::NavSpineMismatch, LocationView::TocEntry(warned[k]), Severity::Error)
    &&& r@.errors.len() == failed.len()
    &&& forall|k: int| 0 <= k < failed.len() ==> reports(#[trigger] r@.errors[k], ErrorCode::NavSpineMismatch, LocationView::TocEntry(failed[k]), Severity::Error)
}

proof fn lemma_unmatched_positions(spine_info: SpineInfo, manifest_info: ManifestInfo, n: int)
    requires
        0 <= n <= spine_info.linear_items@.len(),
    ensures
        forall|i: int| 0 <= i < n ==> (unmatched_spine_positions(spine_info, manifest_info, n).contains(i as nat)
            <==> !index_contents(manifest_info.id_to_item).contains_key((#[trigger] spine_info.linear_items@[i]).idref@)),
        forall|k: int| 0 <= k < unmatched_spine_positions(spine_info, manifest_info, n).len() ==> {
            let p = #[trigger] unmatched_spine_positions(spine_info, manifest_info, n)[k];
            &&& p < n
            &&& !index_contents(manifest_info.id_to_item).contains_key(spine_info.linear_items@[p as int].idref@)
        },
    decreases n,
{
    if n > 0 {
        lemma_unmatched_positions(spine_info, manifest_info, n - 1);
        let rest = unmatched_spine_positions(spine_info, manifest_info, n - 1);
        let all = unmatched_spine_positions(spine_info, manifest_info, n);
        assert forall|i: int| 0 <= i < n implies (all.contains(i as nat)
            <==> !index_contents(manifest_info.id_to_item).contains_key((#[trigger] spine_info.linear_items@[i]).idref@)) by {
            if i < n - 1 {
                if all.contains(i as nat) {
                    let k = choose|k: int| 0 <= k < all.len() && all[k] == i as nat;
                    if k < rest.len() {
                        assert(rest[k] == all[k]);
                    }
                }
                if rest.contains(i as nat) {
                    let k = choose|k: int| 0 <= k < rest.len() && rest[k] == i as nat;
                    assert(all[k] == rest[k]);
                }
            } else {
                if !index_contents(manifest_info.id_to_item).contains_key(spine_info.linear_items@[i].idref@) {
                    assert(all[all.len() - 1] == i as nat);
                } else if all.contains(i as nat) {
                    let k = choose|k: int| 0 <= k < all.len() && all[k] == i as nat;
                    assert(rest[k] == all[k]);
                }
            }
        }
        assert forall|k: int| 0 <= k < all.len() implies {
            let p = #[trigger] all[k];
            &&& p < n
            &&& !index_contents(manifest_info.id_to_item).contains_key(spine_info.linear_items@[p as int].idref@)
        } by {
            if k < rest.len() {
                assert(all[k] == rest[k]);
            }
        }
    }
}

/// Every linear spine item whose idref is not a key of the manifest's id
/// index is reported by the spine-manifest check, as a `SpineManifestMismatch`
/// error at its position, and the check then fails; every error it reports
/// is of that kind, at the position of such an item.
pub proof fn law_unknown_spine_refs_reported(r: ValidationResult, spine_info: SpineInfo, manifest_info: ManifestInfo)
    requires
        spine_manifest_outcome(r, spine_info, manifest_info),
    ensures
        forall|i: int| 0 <= i < spine_info.linear_items@.len()
            && !index_contents(manifest_info.id_to_item).contains_key((#[trigger] spine_info.linear_items@[i]).idref@)
            ==> !r@.passed && exists|k: int| 0 <= k < r@.errors.len() && reports(
                #[trigger] r@.errors[k], ErrorCode::SpineManifestMismatch, LocationView::SpineItem(i as nat), Severity::Error),
        forall|k: int| 0 <= k < r@.errors.len() ==> exists|i: int| 0 <= i < spine_info.linear_items@.len()
            && !index_contents(manifest_info.id_to_item).contains_key(spine_info.linear_items@[i].idref@)
            && reports(#[trigger] r@.errors[k], ErrorCode::SpineManifestMismatch, LocationView::SpineItem(i as nat), Severity::Error),
{
    let n = spine_info.linear_items@.len() as int;
    lemma_unmatched_positions(spine_info, manifest_info, n);
    let ps = unmatched_spine_positions(spine_info, manifest_info, n);
    assert forall|i: int| 0 <= i < n
        && !index_contents(manifest_info.id_to_item).contains_key((#[trigger] spine_info.linear_items@[i]).idref@)
        implies !r@.passed && exists|k: int| 0 <= k < r@.errors.len() && reports(
            #[trigger] r@.errors[k], ErrorCode::SpineManifestMismatch, LocationView::SpineItem(i as nat), Severity::Error) by {
        assert(ps.contains(i as nat));
        let k = choose|k: int| 0 <= k < ps.len() && ps[k] == i as nat;
        assert(reports(r@.errors[k], ErrorCode::SpineManifestMismatch, LocationView::SpineItem(ps[k]), Severity::Error));
    }
    assert forall|k: int| 0 <= k < r@.errors.len() implies exists|i: int| 0 <= i < n
        && !index_contents(manifest_info.id_to_item).contains_key(spine_info.linear_items@[i].idref@)
        && reports(#[trigger] r@.errors[k], ErrorCode::SpineManifestMismatch, LocationView::SpineItem(i as nat), Severity::Error) by {
        let p = ps[k];
        assert(reports(r@.errors[k], ErrorCode::SpineManifestMismatch, LocationView::SpineItem(p), Severity::Error));
        assert(p < n);
        assert(!index_contents(manifest_info.id_to_item).contains_key(spine_info.linear_items@[p as int].idref@));
        assert(p as int as nat == p);
    }
}

} // verus!
