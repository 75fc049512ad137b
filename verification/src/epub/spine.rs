//! Phase 3b: the spine, the reading order of the publication.

use vstd::prelude::*;

use crate::base::result::{ResultView, ValidationResult};
use crate::base::types::{
    ErrorCode, LocationView, Severity, SpineInfo, SpineItem, SpineItemView, ValidationError, ValidationLocation,
    reports,
};
use crate::text::same_text;

verus! {

/// A spine item is read in order when its `linear` attribute is "yes".
pub open spec fn is_linear(item: SpineItemView) -> bool {
    item.linear == "yes"@
}

/// The models of a sequence of spine items.
pub open spec fn spine_views(items: Seq<SpineItem>) -> Seq<SpineItemView> {
    items.map_values(|x: SpineItem| x@)
}

proof fn lemma_spine_views_push(s: Seq<SpineItem>, x: SpineItem)
    ensures
        spine_views(s.push(x)) == spine_views(s).push(x@),
{
    assert(spine_views(s.push(x)) =~= spine_views(s).push(x@));
}

/// The linear items among `items`, in their original order.
pub open spec fn linear_items_of(items: Seq<SpineItemView>) -> Seq<SpineItemView>
    decreases items.len(),
{
    if items.len() == 0 {
        Seq::empty()
    } else if is_linear(items.last()) {
        linear_items_of(items.drop_last()).push(items.last())
    } else {
        linear_items_of(items.drop_last())
    }
}

/// `r` holds exactly one issue: an error with `code` at `location`.
pub open spec fn single_error(r: ResultView, code: ErrorCode, location: LocationView) -> bool {
    &&& r.errors.len() == 1
    &&& reports(r.errors[0], code, location, Severity::Error)
    &&& r.warnings.len() == 0
    &&& !r.passed
}

/// What validating a spine whose items are `items` gives: the spine and its
/// linear items when there is a linear item, the empty-spine error otherwise.
pub open spec fn spine_outcome(items: Seq<SpineItemView>, r: Result<SpineInfo, ValidationResult>) -> bool {
    &&& r is Ok <==> linear_items_of(items).len() > 0
    &&& r matches Err(res) ==> single_error(res@, ErrorCode::EmptySpine, LocationView::Spine)
    &&& r matches Ok(info) ==> {
        &&& spine_views(info.items@) == items
        &&& spine_views(info.linear_items@) == linear_items_of(items)
    }
}

/// Validates the spine structure: it must hold at least one linear item.
/// On success the spine is returned whole, together with its linear items in
/// reading order.
pub fn validate_spine(spine_items: &[SpineItem]) -> (r: Result<SpineInfo, ValidationResult>)
    ensures
        spine_outcome(spine_views(spine_items@), r),
{
    let mut result = ValidationResult::new();
    if spine_items.len() == 0 {
        result.add_error(ValidationError::new(ErrorCode::EmptySpine, ValidationLocation::Spine));
        return Err(result);
    }
    let mut items: Vec<SpineItem> = Vec::new();
    let mut linear_items: Vec<SpineItem> = Vec::new();
    let mut i: usize = 0;
    while i < spine_items.len()
        invariant
            i <= spine_items@.len(),
            spine_views(items@) == spine_views(spine_items@.take(i as int)),
            spine_views(linear_items@) == linear_items_of(spine_views(spine_items@.take(i as int))),
        decreases spine_items@.len() - i,
    {
        let item = &spine_items[i];
        let ghost prefix = spine_views(spine_items@.take(i as int));
        let ghost next = spine_views(spine_items@.take(i + 1));
        proof {
            assert(next.drop_last() =~= prefix);
            assert(next.last() == item@);
        }
        if same_text(item.linear.as_str(), "yes") {
            let c = item.clone();
            proof { lemma_spine_views_push(linear_items@, c); }
            linear_items.push(c);
        }
        let c = item.clone();
        proof { lemma_spine_views_push(items@, c); }
        items.push(c);
        i = i + 1;
    }
    assert(spine_items@.take(spine_items@.len() as int) =~= spine_items@);
    if linear_items.len() == 0 {
        result.add_error(ValidationError::new(ErrorCode::EmptySpine, ValidationLocation::Spine));
        return Err(result);
    }
    Ok(SpineInfo { items, linear_items })
}

} // verus!
