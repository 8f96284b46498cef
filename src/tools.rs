//! What the four tool operations hand back besides the records themselves: the summary
//! items and the error texts.
use vstd::prelude::*;

use crate::diagnostics::{retain_only_syntax_errors, syntax_errors_of, Diagnostic};

verus! {

/// The decimal digits of `n`, most significant first.
pub open spec fn decimal(n: nat) -> Seq<char>
    decreases n,
{
    if n < 10 {
        seq![digit(n)]
    } else {
        decimal(n / 10) + seq![digit(n % 10)]
    }
}

pub open spec fn digit(d: nat) -> char {
    if d == 0 {
        '0'
    } else if d == 1 {
        '1'
    } else if d == 2 {
        '2'
    } else if d == 3 {
        '3'
    } else if d == 4 {
        '4'
    } else if d == 5 {
        '5'
    } else if d == 6 {
        '6'
    } else if d == 7 {
        '7'
    } else if d == 8 {
        '8'
    } else {
        '9'
    }
}

/// Relies on `ToString` for `usize`: its decimal rendering.
#[verifier::external_body]
fn usize_text(n: usize) -> (r: String)
    ensures
        r@ == decimal(n as nat),
{
    n.to_string()
}

/// The closing item of a verification response.
pub fn report_summary(success: bool) -> (r: String)
    ensures
        r@ == (if success {
            "Verification Succeeded"@
        } else {
            "Verification Failed"@
        }),
{
    if success {
        "Verification Succeeded".to_owned()
    } else {
        "Verification Failed".to_owned()
    }
}

/// The closing item of a syntax-error response: `Found <count> syntax errors`.
pub fn syntax_errors_summary(count: usize) -> (r: String)
    ensures
        r@ == "Found "@ + decimal(count as nat) + " syntax errors"@,
{
    let mut r = "Found ".to_owned();
    let n = usize_text(count);
    r.append(n.as_str());
    r.append(" syntax errors");
    r
}

/// The syntax errors of a run and the summary item that counts them.
pub fn syntax_errors_response(diagnostics: Vec<Diagnostic>) -> (r: (Vec<Diagnostic>, String))
    ensures
        r.0@ == syntax_errors_of(diagnostics@),
        r.1@ == "Found "@ + decimal(r.0@.len()) + " syntax errors"@,
{
    let kept = retain_only_syntax_errors(diagnostics);
    let summary = syntax_errors_summary(kept.len());
    (kept, summary)
}

/// The text of the error a verification operation returns when the run itself failed.
pub fn verification_error(reason: &str) -> (r: String)
    ensures
        r@ == "Verification failed "@ + reason@,
{
    let mut r = "Verification failed ".to_owned();
    r.append(reason);
    r
}

/// The text of the error the lemma operation returns when the run itself failed.
pub fn lemmas_error(reason: &str) -> (r: String)
    ensures
        r@ == "Failed to fetch lemmas "@ + reason@,
{
    let mut r = "Failed to fetch lemmas ".to_owned();
    r.append(reason);
    r
}

} // verus!
