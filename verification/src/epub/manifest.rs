//! Phase 4: the manifest, the list of every resource of the publication.

use vstd::prelude::*;

use crate::base::result::ValidationResult;
use crate::base::types::{
    ErrorCode, LocationView, ManifestInfo, reports, ManifestItem, ManifestItemView, Severity, ValidationError,
    ValidationLocation, index_contents, index_get, index_insert, index_new,
};
use crate::epub::spine::single_error;

verus! {

/// The models of a sequence of manifest items.
pub open spec fn manifest_views(items: Seq<ManifestItem>) -> Seq<ManifestItemView> {
    items.map_values(|x: ManifestItem| x@)
}

/// An issue that names an archive entry: its code and the entry's path.
pub struct EntryIssue {
    pub code: ErrorCode,
    pub path: Seq<char>,
}

/// `e` is the issue `issue` with `severity`, located at an archive entry.
pub open spec fn is_entry_issue(e: ValidationError, issue: EntryIssue, severity: Severity) -> bool {
    reports(e, issue.code, LocationView::ArchiveEntry(issue.path), severity)
}

/// `es` reports exactly `issues`, in order, each with `severity`.
pub open spec fn reports_entry_issues(
    es: Seq<ValidationError>,
    issues: Seq<EntryIssue>,
    severity: Severity,
) -> bool {
    &&& es.len() == issues.len()
    &&& forall|k: int| 0 <= k < es.len() ==> is_entry_issue(#[trigger] es[k], issues[k], severity)
}

/// Some item before position `n` carries the id `id`.
pub open spec fn id_seen_before(items: Seq<ManifestItemView>, n: int, id: Seq<char>) -> bool {
    exists|j: int| 0 <= j < n && #[trigger] items[j].id == id
}

/// The errors found in a manifest: an empty id, or an id already used by an
/// earlier item. Each names the offending item's href.
pub open spec fn manifest_errors(items: Seq<ManifestItemView>) -> Seq<EntryIssue>
    decreases items.len(),
{
    if items.len() == 0 {
        Seq::empty()
    } else {
        let rest = manifest_errors(items.drop_last());
        let item = items.last();
        if item.id.len() == 0 {
            rest.push(EntryIssue { code: ErrorCode::InvalidManifestId, path: item.href })
        } else if id_seen_before(items, items.len() - 1, item.id) {
            rest.push(EntryIssue { code: ErrorCode::DuplicateManifestId, path: item.href })
        } else {
            rest
        }
    }
}

/// The warnings found in a manifest: an item with a non-empty id but no
/// media type.
pub open spec fn manifest_warnings(items: Seq<ManifestItemView>) -> Seq<EntryIssue>
    decreases items.len(),
{
    if items.len() == 0 {
        Seq::empty()
    } else {
        let rest = manifest_warnings(items.drop_last());
        let item = items.last();
        if item.id.len() != 0 && item.media_type.len() == 0 {
            rest.push(EntryIssue { code: ErrorCode::MissingMediaType, path: item.href })
        } else {
            rest
        }
    }
}

/// A manifest without errors has non-empty, pairwise distinct ids.
pub proof fn lemma_no_errors_unique_ids(items: Seq<ManifestItemView>)
    requires
        manifest_errors(items).len() == 0,
    ensures
        forall|j: int| 0 <= j < items.len() ==> #[trigger] items[j].id.len() > 0,
        forall|j: int, k: int|
            0 <= j < k < items.len() ==> #[trigger] items[j].id != #[trigger] items[k].id,
    decreases items.len(),
{
    if items.len() > 0 {
        let rest = items.drop_last();
        assert(manifest_errors(rest).len() == 0);
        lemma_no_errors_unique_ids(rest);
        assert forall|j: int, k: int| 0 <= j < k < items.len() implies #[trigger] items[j].id
            != #[trigger] items[k].id by {
            if k == items.len() - 1 {
                if items[j].id == items[k].id {
                    assert(id_seen_before(items, items.len() - 1, items.last().id));
                }
            } else {
                assert(rest[j] == items[j] && rest[k] == items[k]);
            }
        }
        assert forall|j: int| 0 <= j < items.len() implies #[trigger] items[j].id.len() > 0 by {
            if j < items.len() - 1 {
                assert(rest[j] == items[j]);
            }
        }
    }
}

proof fn lemma_manifest_views_push(s: Seq<ManifestItem>, x: ManifestItem)
    ensures
        manifest_views(s.push(x)) == manifest_views(s).push(x@),
{
    assert(manifest_views(s.push(x)) =~= manifest_views(s).push(x@));
}

/// What validating a manifest whose items are `items` gives: without items,
/// the missing-manifest error; with errors, all errors and warnings found;
/// otherwise the items and an index from each id to its item.
pub open spec fn manifest_outcome(items: Seq<ManifestItemView>, r: Result<ManifestInfo, ValidationResult>) -> bool {
    &&& r is Ok <==> items.len() > 0 && manifest_errors(items).len() == 0
    &&& items.len() == 0 ==> (r matches Err(res) && single_error(res@, ErrorCode::MissingManifest, LocationView::Manifest))
    &&& items.len() > 0 ==> (r matches Err(res) ==> {
        &&& reports_entry_issues(res@.errors, manifest_errors(items), Severity::Error)
        &&& reports_entry_issues(res@.warnings, manifest_warnings(items), Severity::Error)
        &&& !res@.passed
    })
    &&& r matches Ok(info) ==> {
        &&& manifest_views(info.items@) == items
        &&& forall|id: Seq<char>| #[trigger] index_contents(info.id_to_item).contains_key(id)
            <==> id_seen_before(items, items.len() as int, id)
        &&& forall|j: int| 0 <= j < items.len()
            ==> (#[trigger] index_contents(info.id_to_item)[items[j].id])@ == items[j]
        &&& index_contents(info.id_to_item).dom().finite()
        &&& index_contents(info.id_to_item).len() == items.len()
    }
}

/// The ids of manifest items, in order.
pub open spec fn item_ids(items: Seq<ManifestItemView>) -> Seq<Seq<char>> {
    items.map_values(|v: ManifestItemView| v.id)
}

/// A set of keys that holds exactly the ids of distinct-id items has as many
/// keys as there are items.
proof fn lemma_index_size(keys: Set<Seq<char>>, items: Seq<ManifestItemView>)
    requires
        manifest_errors(items).len() == 0,
        forall|id: Seq<char>| keys.contains(id) <==> id_seen_before(items, items.len() as int, id),
    ensures
        keys.finite(),
        keys.len() == items.len(),
{
    lemma_no_errors_unique_ids(items);
    let ids = item_ids(items);
    assert(ids.no_duplicates()) by {
        assert forall|i: int, j: int| 0 <= i < ids.len() && 0 <= j < ids.len() && i != j implies ids[i] != ids[j] by {
            if i < j {
                assert(items[i].id != items[j].id);
            } else {
                assert(items[j].id != items[i].id);
            }
        }
    }
    assert(keys =~= ids.to_set()) by {
        assert forall|id: Seq<char>| keys.contains(id) <==> ids.to_set().contains(id) by {
            if keys.contains(id) {
                let j = choose|j: int| 0 <= j < items.len() && #[trigger] items[j].id == id;
                assert(ids[j] == id);
            }
            if ids.to_set().contains(id) {
                let j = choose|j: int| 0 <= j < ids.len() && ids[j] == id;
                assert(items[j].id == id);
            }
        }
    }
    ids.unique_seq_to_set();
    vstd::seq_lib::seq_to_set_is_finite(ids);
}

/// Validates the manifest structure.
///
/// An empty manifest is an error on its own. Otherwise every item is checked:
/// an empty id and a repeated id are errors, a missing media type is a
/// warning. The manifest is accepted when no error was found; it is then
/// returned whole, with an index from each id to its item.
pub fn validate_manifest(manifest_items: &[ManifestItem]) -> (r: Result<ManifestInfo, ValidationResult>)
    ensures
        manifest_outcome(manifest_views(manifest_items@), r),
{
    let mut result = ValidationResult::new();
    if manifest_items.len() == 0 {
        result.add_error(ValidationError::new(ErrorCode::MissingManifest, ValidationLocation::Manifest));
        return Err(result);
    }
    let ghost all = manifest_views(manifest_items@);
    let mut id_to_item = index_new();
    let mut items: Vec<ManifestItem> = Vec::new();
    let mut i: usize = 0;
    while i < manifest_items.len()
        invariant
            i <= manifest_items@.len(),
            all == manifest_views(manifest_items@),
            manifest_views(items@) == all.take(i as int),
            reports_entry_issues(result@.errors, manifest_errors(all.take(i as int)), Severity::Error),
            reports_entry_issues(result@.warnings, manifest_warnings(all.take(i as int)), Severity::Error),
            result@.passed == (result@.errors.len() == 0 && result@.warnings.len() == 0),
            forall|id: Seq<char>| #[trigger] index_contents(id_to_item).contains_key(id)
                <==> (id.len() > 0 && id_seen_before(all, i as int, id)),
            forall|id: Seq<char>| #[trigger] index_contents(id_to_item).contains_key(id)
                ==> exists|j: int| 0 <= j < i && all[j].id == id && (#[trigger] index_contents(id_to_item)[id])@ == all[j],
        decreases manifest_items@.len() - i,
    {
        let item = &manifest_items[i];
        let ghost prefix = all.take(i as int);
        let ghost next = all.take(i + 1);
        proof {
            assert(next.drop_last() =~= prefix);
            assert(next.last() == item@);
            assert forall|id: Seq<char>| id_seen_before(next, next.len() - 1, id) == id_seen_before(all, i as int, id) by {
                if id_seen_before(all, i as int, id) {
                    let j = choose|j: int| 0 <= j < i && #[trigger] all[j].id == id;
                    assert(next[j] == all[j]);
                }
                if id_seen_before(next, next.len() - 1, id) {
                    let j = choose|j: int| 0 <= j < next.len() - 1 && #[trigger] next[j].id == id;
                    assert(next[j] == all[j]);
                }
            }
        }
        let c = item.clone();
        proof { lemma_manifest_views_push(items@, c); }
        items.push(c);
        if item.id.as_str().is_empty() {
            result.add_error(ValidationError::new(
                ErrorCode::InvalidManifestId,
                ValidationLocation::ArchiveEntry { path: item.href.clone() },
            ));
            proof {
                assert(manifest_errors(next) == manifest_errors(prefix).push(
                    EntryIssue { code: ErrorCode::InvalidManifestId, path: item.href@ },
                ));
                assert(manifest_warnings(next) == manifest_warnings(prefix));
                assert forall|id: Seq<char>| #[trigger] index_contents(id_to_item).contains_key(id)
                    <==> (id.len() > 0 && id_seen_before(all, i + 1, id)) by {
                    if id.len() > 0 && id_seen_before(all, i + 1, id) {
                        let j = choose|j: int| 0 <= j < i + 1 && #[trigger] all[j].id == id;
                        assert(j != i);
                        assert(id_seen_before(all, i as int, id));
                    }
                }
            }
        } else {
            let ghost seen = id_seen_before(all, i as int, item.id@);
            if index_get(&id_to_item, item.id.as_str()).is_some() {
                result.add_error(ValidationError::new(
                    ErrorCode::DuplicateManifestId,
                    ValidationLocation::ArchiveEntry { path: item.href.clone() },
                ));
            }
            if item.media_type.as_str().is_empty() {
                result.add_warning(ValidationError::new(
                    ErrorCode::MissingMediaType,
                    ValidationLocation::ArchiveEntry { path: item.href.clone() },
                ));
            }
            let ghost before = index_contents(id_to_item);
            index_insert(&mut id_to_item, item.id.clone(), item.clone());
            proof {
                assert(seen == id_seen_before(next, next.len() - 1, item.id@));
                assert forall|id: Seq<char>| #[trigger] index_contents(id_to_item).contains_key(id)
                    <==> (id.len() > 0 && id_seen_before(all, i + 1, id)) by {
                    if id.len() > 0 && id_seen_before(all, i + 1, id) && id != item.id@ {
                        let j = choose|j: int| 0 <= j < i + 1 && #[trigger] all[j].id == id;
                        assert(j != i);
                        assert(id_seen_before(all, i as int, id));
                    }
                    if id == item.id@ {
                        assert(all[i as int].id == id);
                    }
                    if before.contains_key(id) {
                        assert(id_seen_before(all, i as int, id));
                        let j = choose|j: int| 0 <= j < i && #[trigger] all[j].id == id;
                        assert(all[j].id == id);
                    }
                }
                assert forall|id: Seq<char>| #[trigger] index_contents(id_to_item).contains_key(id)
                    implies exists|j: int| 0 <= j < i + 1 && all[j].id == id && (#[trigger] index_contents(id_to_item)[id])@ == all[j] by {
                    if id == item.id@ {
                        assert(all[i as int].id == id);
                    } else {
                        assert(before.contains_key(id));
                        let j = choose|j: int| 0 <= j < i && all[j].id == id && (#[trigger] before[id])@ == all[j];
                        assert(all[j].id == id);
                    }
                }
            }
        }
        i = i + 1;
    }
    proof {
        assert(all.take(manifest_items@.len() as int) =~= all);
    }
    if result.has_errors() {
        return Err(result);
    }
    proof {
        lemma_no_errors_unique_ids(all);
        assert forall|id: Seq<char>| #[trigger] index_contents(id_to_item).contains_key(id)
            <==> id_seen_before(all, manifest_items@.len() as int, id) by {
            if id_seen_before(all, manifest_items@.len() as int, id) {
                let j = choose|j: int| 0 <= j < manifest_items@.len() && #[trigger] all[j].id == id;
                assert(all[j].id.len() > 0);
            }
        }
        assert forall|j: int| 0 <= j < all.len()
            implies (#[trigger] index_contents(id_to_item)[all[j].id])@ == all[j] by {
            assert(all[j] == manifest_items@[j]@);
            let id = manifest_items@[j].id@;
            assert(all[j].id == id);
            assert(all[j].id.len() > 0);
            assert(index_contents(id_to_item).contains_key(id));
            let k = choose|k: int| 0 <= k < i && all[k].id == id
                && (#[trigger] index_contents(id_to_item)[id])@ == all[k];
            assert(0 <= k < i && all[k].id == id && index_contents(id_to_item)[id]@ == all[k]);
            if k < j {
                assert(all[k].id != all[j].id);
            } else if j < k {
                assert(all[j].id != all[k].id);
            }
        }
        lemma_index_size(index_contents(id_to_item).dom(), all);
    }
    Ok(ManifestInfo { items, id_to_item })
}

} // verus!
