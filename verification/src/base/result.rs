//! Validation reports: the errors and warnings gathered by a validation run,
//! and whether the run passed.

use vstd::prelude::*;

use crate::base::types::{ErrorCode, Severity, ValidationError, ValidationLocation, reports};

verus! {

/// Result of a complete EPUB validation.
#[derive(Debug, Clone)]
pub struct ValidationResult {
    pub errors: Vec<ValidationError>,
    pub warnings: Vec<ValidationError>,
    pub passed: bool,
}

/// The mathematical model of a validation result.
pub struct ResultView {
    pub errors: Seq<ValidationError>,
    pub warnings: Seq<ValidationError>,
    pub passed: bool,
}

impl View for ValidationResult {
    type V = ResultView;

    open spec fn view(&self) -> ResultView {
        ResultView { errors: self.errors@, warnings: self.warnings@, passed: self.passed }
    }
}

/// The result of a run that found nothing.
pub open spec fn empty_report() -> ResultView {
    ResultView { errors: Seq::empty(), warnings: Seq::empty(), passed: true }
}

impl ResultView {
    /// A report passes exactly when it holds no issue at all.
    pub open spec fn consistent(self) -> bool {
        self.passed <==> (self.errors.len() == 0 && self.warnings.len() == 0)
    }

    /// Every entry of the error list has error severity.
    pub open spec fn errors_are_errors(self) -> bool {
        forall|i: int| 0 <= i < self.errors.len() ==> #[trigger] self.errors[i].severity == Severity::Error
    }

    /// The report after recording `e`: errors go to the error list, anything
    /// else to the warning list, and the report no longer passes.
    pub open spec fn with_issue(self, e: ValidationError) -> ResultView {
        if e.severity == Severity::Error {
            ResultView { errors: self.errors.push(e), warnings: self.warnings, passed: false }
        } else {
            ResultView { errors: self.errors, warnings: self.warnings.push(e), passed: false }
        }
    }

    /// The report after recording `e` as a warning, whatever its severity.
    pub open spec fn with_warning(self, e: ValidationError) -> ResultView {
        ResultView { errors: self.errors, warnings: self.warnings.push(e), passed: false }
    }

    /// Two reports combined: issues concatenated, passing only if both passed.
    pub open spec fn merge(self, other: ResultView) -> ResultView {
        ResultView {
            errors: self.errors + other.errors,
            warnings: self.warnings + other.warnings,
            passed: self.passed && other.passed,
        }
    }

    /// The report after recording every issue of `es` in order.
    pub open spec fn with_issues(self, es: Seq<ValidationError>) -> ResultView
        decreases es.len(),
    {
        if es.len() == 0 {
            self
        } else {
            self.with_issues(es.drop_last()).with_issue(es.last())
        }
    }
}

/// Combining with an empty report changes nothing, on either side.
pub proof fn law_merge_identity(r: ResultView)
    ensures
        empty_report().merge(r) == r,
        r.merge(empty_report()) == r,
{
    assert(empty_report().merge(r).errors =~= r.errors);
    assert(empty_report().merge(r).warnings =~= r.warnings);
    assert(r.merge(empty_report()).errors =~= r.errors);
    assert(r.merge(empty_report()).warnings =~= r.warnings);
}

/// Combining reports is associative: extending in stages gives the same report.
pub proof fn law_merge_associative(a: ResultView, b: ResultView, c: ResultView)
    ensures
        a.merge(b).merge(c) == a.merge(b.merge(c)),
{
    assert(a.merge(b).merge(c).errors =~= a.merge(b.merge(c)).errors);
    assert(a.merge(b).merge(c).warnings =~= a.merge(b.merge(c)).warnings);
}

/// Combining reports adds their error and warning counts.
pub proof fn law_merge_counts(a: ResultView, b: ResultView)
    ensures
        a.merge(b).errors.len() == a.errors.len() + b.errors.len(),
        a.merge(b).warnings.len() == a.warnings.len() + b.warnings.len(),
{
}

/// A report passes exactly when it holds no issue: a new report does, and
/// recording issues or combining reports keeps it so.
pub proof fn law_passed_iff_no_issues(r: ResultView, other: ResultView, e: ValidationError)
    requires
        r.consistent(),
        other.consistent(),
    ensures
        empty_report().consistent(),
        r.with_issue(e).consistent(),
        r.with_warning(e).consistent(),
        r.merge(other).consistent(),
{
}

/// Recording an issue files it by severity: the error list only ever holds
/// error-severity issues, and a recorded issue always makes the report fail.
pub proof fn law_issue_routing(r: ResultView, other: ResultView, e: ValidationError)
    requires
        r.errors_are_errors(),
        other.errors_are_errors(),
    ensures
        empty_report().errors_are_errors(),
        r.with_issue(e).errors_are_errors(),
        r.with_warning(e).errors_are_errors(),
        r.merge(other).errors_are_errors(),
        e.severity == Severity::Error ==> r.with_issue(e).errors.last() == e,
        e.severity != Severity::Error ==> r.with_issue(e).warnings.last() == e,
        !r.with_issue(e).passed,
{
    let m = r.merge(other);
    assert forall|i: int| 0 <= i < m.errors.len() implies #[trigger] m.errors[i].severity == Severity::Error by {
        if i >= r.errors.len() {
            assert(m.errors[i] == other.errors[i - r.errors.len()]);
        }
    }
}

impl ValidationResult {
    /// An empty, passing result.
    pub fn new() -> (r: Self)
        ensures
            r@ == empty_report(),
    {
        ValidationResult { errors: Vec::new(), warnings: Vec::new(), passed: true }
    }

    /// Records an issue: one of error severity goes to the errors, any other
    /// to the warnings. The result no longer passes.
    pub fn add_error(&mut self, error: ValidationError)
        ensures
            final(self)@ == old(self)@.with_issue(error),
    {
        if error.severity == Severity::Error {
            self.errors.push(error);
        } else {
            self.warnings.push(error);
        }
        self.passed = false;
    }

    /// Records an issue as a warning. The result no longer passes.
    pub fn add_warning(&mut self, error: ValidationError)
        ensures
            final(self)@ == old(self)@.with_warning(error),
    {
        self.warnings.push(error);
        self.passed = false;
    }

    /// Records an issue according to its severity.
    pub fn add(&mut self, error: ValidationError)
        ensures
            final(self)@ == old(self)@.with_issue(error),
    {
        match error.severity {
            Severity::Error => self.add_error(error),
            Severity::Warning => self.add_warning(error),
        }
    }

    pub fn error_count(&self) -> (n: usize)
        ensures
            n == self.errors@.len(),
    {
        self.errors.len()
    }

    pub fn warning_count(&self) -> (n: usize)
        ensures
            n == self.warnings@.len(),
    {
        self.warnings.len()
    }

    pub fn has_errors(&self) -> (b: bool)
        ensures
            b == (self.errors@.len() > 0),
    {
        !self.errors.is_empty()
    }

    pub fn has_warnings(&self) -> (b: bool)
        ensures
            b == (self.warnings@.len() > 0),
    {
        !self.warnings.is_empty()
    }

    /// Appends the issues of `other`; the result passes only if both passed.
    pub fn extend(&mut self, other: ValidationResult)
        ensures
            final(self)@ == old(self)@.merge(other@),
    {
        let mut other = other;
        self.errors.append(&mut other.errors);
        self.warnings.append(&mut other.warnings);
        self.passed = self.passed && other.passed;
    }
}

impl Default for ValidationResult {
    fn default() -> (r: Self)
        ensures
            r@ == empty_report(),
    {
        Self::new()
    }
}

/// Builder for constructing validation results.
pub struct ValidationResultBuilder {
    result: ValidationResult,
}

impl View for ValidationResultBuilder {
    type V = ResultView;

    closed spec fn view(&self) -> ResultView {
        self.result@
    }
}

impl ValidationResultBuilder {
    pub fn new() -> (b: Self)
        ensures
            b@ == empty_report(),
    {
        ValidationResultBuilder { result: ValidationResult::new() }
    }

    /// Adds an error-severity issue with the code's standard message.
    pub fn with_error(self, code: ErrorCode, location: ValidationLocation) -> (b: Self)
        ensures
            b@.warnings == self@.warnings,
            b@.errors.len() == self@.errors.len() + 1,
            b@.errors.drop_last() == self@.errors,
            reports(b@.errors.last(), code, location@, Severity::Error),
            !b@.passed,
    {
        let mut b = self;
        b.result.add_error(ValidationError::new(code, location));
        b
    }

    /// Adds a warning-severity issue with the code's standard message.
    pub fn with_warning(self, code: ErrorCode, location: ValidationLocation) -> (b: Self)
        ensures
            b@.errors == self@.errors,
            b@.warnings.len() == self@.warnings.len() + 1,
            b@.warnings.drop_last() == self@.warnings,
            reports(b@.warnings.last(), code, location@, Severity::Warning),
            !b@.passed,
    {
        let mut b = self;
        b.result.add_warning(ValidationError::warning(code, location));
        b
    }

    /// Adds every issue of `errors`, in order, according to its severity.
    pub fn with_errors(self, errors: Vec<ValidationError>) -> (b: Self)
        ensures
            b@ == self@.with_issues(errors@),
    {
        let mut b = self;
        let mut errors = errors;
        let ghost all = errors@;
        let ghost start = b@;
        let mut pending: Vec<ValidationError> = Vec::new();
        // Reverse into `pending` so that popping yields the original order.
        while errors.len() > 0
            invariant
                all == errors@ + pending@.reverse(),
            decreases errors@.len(),
        {
            let e = errors.pop().unwrap();
            proof {
                assert(pending@.push(e).reverse() == seq![e] + pending@.reverse());
            }
            pending.push(e);
        }
        assert(all == pending@.reverse());
        assert forall|k: int| 0 <= k < pending@.len() implies #[trigger] pending@[k] == all[all.len() - 1 - k] by {
            assert(pending@.reverse()[all.len() - 1 - k] == pending@[k]);
        }
        while pending.len() > 0
            invariant
                pending@.len() <= all.len(),
                forall|k: int| 0 <= k < pending@.len() ==> #[trigger] pending@[k] == all[all.len() - 1 - k],
                b@ == start.with_issues(all.subrange(0, all.len() - pending@.len())),
            decreases pending@.len(),
        {
            let ghost before = all.subrange(0, all.len() - pending@.len());
            let e = pending.pop().unwrap();
            proof {
                let after = all.subrange(0, all.len() - pending@.len());
                assert(after.drop_last() == before);
                assert(after.last() == e);
            }
            b.result.add(e);
        }
        assert(all.subrange(0, all.len() as int) == all);
        b
    }

    pub fn build(self) -> (r: ValidationResult)
        ensures
            r@ == self@,
    {
        self.result
    }
}

impl Default for ValidationResultBuilder {
    fn default() -> (b: Self)
        ensures
            b@ == empty_report(),
    {
        Self::new()
    }
}

} // verus!
