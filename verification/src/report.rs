//! The plain-text report of a validation.

use vstd::prelude::*;

use crate::base::result::{ResultView, ValidationResult};
use crate::base::types::{location_text, message_of, ValidationError};
use crate::text::{decimal, push_str, usize_to_decimal};

verus! {

/// The report line of one issue: `lead`, then `[code] location: message`.
pub open spec fn issue_line(lead: Seq<char>, e: ValidationError) -> Seq<char> {
    lead + message_of(e.code) + "] "@ + location_text(e.location@) + ": "@ + e.message@ + "\n"@
}

/// The report lines of several issues, in order.
pub open spec fn issue_lines(lead: Seq<char>, es: Seq<ValidationError>) -> Seq<char>
    decreases es.len(),
{
    if es.len() == 0 {
        Seq::empty()
    } else {
        issue_lines(lead, es.drop_last()) + issue_line(lead, es.last())
    }
}

/// The text report of a validation result: a verdict (with the counts when it
/// failed), the warnings when `include_warnings` is on and there are any,
/// and the errors when there are any.
pub open spec fn report_text(r: ResultView, include_warnings: bool) -> Seq<char> {
    let verdict = if r.passed {
        "✓ EPUB validation passed\n"@
    } else {
        "✗ EPUB validation failed\n"@ + "  "@ + decimal(r.errors.len()) + " errors, "@
            + decimal(r.warnings.len()) + " warnings\n"@ + "\n"@
    };
    let warnings = if include_warnings && r.warnings.len() > 0 {
        "Warnings:\n"@ + issue_lines("  ⚠ ["@, r.warnings) + "\n"@
    } else {
        Seq::empty()
    };
    let errors = if r.errors.len() > 0 {
        "Errors:\n"@ + issue_lines("  ✗ ["@, r.errors) + "\n"@
    } else {
        Seq::empty()
    };
    verdict + warnings + errors
}

fn push_issue_lines(out: &mut String, lead: &str, es: &Vec<ValidationError>)
    ensures
        final(out)@ == old(out)@ + issue_lines(lead@, es@),
{
    let ghost start = out@;
    let mut i: usize = 0;
    while i < es.len()
        invariant
            i <= es@.len(),
            out@ == start + issue_lines(lead@, es@.take(i as int)),
        decreases es@.len() - i,
    {
        let e = &es[i];
        let ghost before = out@;
        push_str(out, lead);
        let code = e.code.to_display_string();
        push_str(out, code.as_str());
        push_str(out, "] ");
        let loc = e.location.to_display_string();
        push_str(out, loc.as_str());
        push_str(out, ": ");
        push_str(out, e.message.as_str());
        push_str(out, "\n");
        proof {
            assert(es@.take(i + 1).drop_last() =~= es@.take(i as int));
            assert(es@.take(i + 1).last() == *e);
            assert(out@ =~= before + issue_line(lead@, *e));
        }
        i = i + 1;
    }
    assert(es@.take(es@.len() as int) =~= es@);
}

/// Formats a validation result as the text the command line prints: the
/// verdict, with the error and warning counts when validation failed; the
/// warnings when `include_warnings` is on and there are warnings; and the
/// errors, one `[code] location: message` line each.
pub fn print_text_output(result: &ValidationResult, include_warnings: bool) -> (r: String)
    ensures
        r@ == report_text(result@, include_warnings),
{
    let mut output = String::new();
    if result.passed {
        push_str(&mut output, "✓ EPUB validation passed\n");
    } else {
        push_str(&mut output, "✗ EPUB validation failed\n");
        push_str(&mut output, "  ");
        let e = usize_to_decimal(result.errors.len());
        push_str(&mut output, e.as_str());
        push_str(&mut output, " errors, ");
        let w = usize_to_decimal(result.warnings.len());
        push_str(&mut output, w.as_str());
        push_str(&mut output, " warnings\n");
        push_str(&mut output, "\n");
    }
    let ghost after_verdict = output@;
    if include_warnings && result.warnings.len() > 0 {
        push_str(&mut output, "Warnings:\n");
        push_issue_lines(&mut output, "  ⚠ [", &result.warnings);
        push_str(&mut output, "\n");
    }
    let ghost after_warnings = output@;
    if result.errors.len() > 0 {
        push_str(&mut output, "Errors:\n");
        push_issue_lines(&mut output, "  ✗ [", &result.errors);
        push_str(&mut output, "\n");
    }
    assert(output@ =~= report_text(result@, include_warnings));
    output
}

} // verus!
