//! Cron expressions as text: which expressions the store accepts.
//!
//! Parsing is the cron crate's. Its parser hands the step of a period
//! (`start/step`) to `Iterator::step_by`, which panics on zero, so an
//! expression with a step of zero is turned away here before the parser
//! sees it. The parser accepts no such expression, so none is lost.

use cron::Schedule;
use std::str::FromStr;
use vstd::prelude::*;

verus! {

/// `cron::Schedule`: a parsed expression. Nothing of it is read here.
#[verifier::external_type_specification]
#[verifier::external_body]
pub struct ExSchedule(Schedule);

/// `cron::error::Error`: what the parser returns for a text it rejects.
#[verifier::external_type_specification]
#[verifier::external_body]
pub struct ExCronError(cron::error::Error);

/// Whether `cron::Schedule::from_str` returns `Ok` on this text.
pub uninterp spec fn cron_parses(expression: Seq<char>) -> bool;

/// White space as the parser skips it around a number.
pub open spec fn is_blank(c: char) -> bool {
    c == ' ' || c == '\t' || c == '\r' || c == '\n'
}

/// A decimal digit.
pub open spec fn is_digit(c: char) -> bool {
    '0' <= c && c <= '9'
}

/// Every symbol strictly between `from` and `to` is blank.
pub open spec fn blanks_between(s: Seq<char>, from: int, to: int) -> bool {
    forall|k: int| from < k < to ==> is_blank(#[trigger] s[k])
}

/// Every symbol from `from` up to, not including, `to` is the digit zero.
pub open spec fn zeros_between(s: Seq<char>, from: int, to: int) -> bool {
    forall|k: int| from <= k < to ==> #[trigger] s[k] == '0'
}

/// A slash at `slash`, blanks up to `start`, and from `start` to `end` a whole
/// number written with zeros only: a period whose step is zero.
pub open spec fn zero_step_at(s: Seq<char>, slash: int, start: int, end: int) -> bool {
    &&& 0 <= slash < start < end <= s.len()
    &&& s[slash] == '/'
    &&& blanks_between(s, slash, start)
    &&& zeros_between(s, start, end)
    &&& (end == s.len() || !is_digit(s[end]))
}

/// Whether the text holds a period with a step of zero.
pub open spec fn has_zero_step(s: Seq<char>) -> bool {
    exists|slash: int, start: int, end: int| zero_step_at(s, slash, start, end)
}

/// The expressions the store accepts: those without a zero step that the
/// cron parser accepts.
pub open spec fn cron_accepts(expression: Seq<char>) -> bool {
    !has_zero_step(expression) && cron_parses(expression)
}

/// Calls `cron::Schedule::from_str`. The result is `Ok` exactly on the texts
/// that `cron_parses` names; the error carries no detail. A step of zero makes
/// the parser panic, so such a text is not to be passed.
#[verifier::external_body]
fn schedule_from_str(expression: &str) -> (parsed: Result<Schedule, cron::error::Error>)
    requires
        !has_zero_step(expression@),
    ensures
        parsed is Ok <==> cron_parses(expression@),
{
    Schedule::from_str(expression)
}

/// Whether the text holds a period with a step of zero.
pub fn contains_zero_step(expression: &str) -> (found: bool)
    ensures
        found == has_zero_step(expression@),
{
    let ghost s = expression@;
    // `pending`: a slash followed by blanks only; `zeros`: a slash, blanks,
    // then zeros only, up to the symbol about to be read.
    let mut pending = false;
    let mut zeros = false;
    let ghost mut slash: int = 0;
    let ghost mut start: int = 0;
    for c in it: expression.chars()
        invariant
            s == expression@,
            it.seq() == s,
            !(pending && zeros),
            forall|i: int, j: int, m: int| m < it.index() ==> !zero_step_at(s, i, j, m),
            zeros ==> 0 <= slash < start < it.index() && s[slash] == '/' && blanks_between(
                s,
                slash,
                start,
            ) && zeros_between(s, start, it.index() as int),
            !zeros ==> forall|i: int, j: int|
                0 <= i < j < it.index() && s[i] == '/' && blanks_between(s, i, j) ==> !zeros_between(
                    s,
                    j,
                    it.index() as int,
                ),
            pending ==> 0 <= slash < it.index() && s[slash] == '/' && blanks_between(
                s,
                slash,
                it.index() as int,
            ),
            !pending ==> forall|i: int|
                0 <= i < it.index() && s[i] == '/' ==> !blanks_between(s, i, it.index() as int),
    {
        let ghost n = it.index() as int;
        assert(c == s[n]);
        if zeros {
            if c == '0' {
                assert(zeros_between(s, start, n + 1));
            } else if '0' <= c && c <= '9' {
                zeros = false;
                assert forall|i: int, j: int|
                    0 <= i < j < n + 1 && s[i] == '/' && blanks_between(
                        s,
                        i,
                        j,
                    ) implies !zeros_between(s, j, n + 1) by {
                    assert(s[n] != '0');
                }
            } else {
                assert(zero_step_at(s, slash, start, n));
                return true;
            }
            assert forall|i: int| 0 <= i < n + 1 && s[i] == '/' implies !blanks_between(
                s,
                i,
                n + 1,
            ) by {
                if i < n {
                    assert(!is_blank(s[n]));
                }
            }
        } else {
            assert forall|i: int, j: int, m: int| m < n + 1 implies !zero_step_at(s, i, j, m) by {
                if m == n && zero_step_at(s, i, j, m) {
                    assert(zeros_between(s, j, n));
                }
            }
            let was_pending = pending;
            if was_pending && c == '0' {
                pending = false;
                zeros = true;
                proof {
                    start = n;
                }
                assert(zeros_between(s, start, n + 1));
            } else if c == '/' {
                pending = true;
                proof {
                    slash = n;
                }
                assert(blanks_between(s, slash, n + 1));
            } else if was_pending && (c == ' ' || c == '\t' || c == '\r' || c == '\n') {
                assert(blanks_between(s, slash, n + 1));
            } else {
                pending = false;
            }
            if !zeros {
                assert forall|i: int, j: int|
                    0 <= i < j < n + 1 && s[i] == '/' && blanks_between(
                        s,
                        i,
                        j,
                    ) implies !zeros_between(s, j, n + 1) by {
                    if zeros_between(s, j, n + 1) {
                        if j < n {
                            assert(zeros_between(s, j, n));
                        } else {
                            assert(s[n] == '0');
                            assert(blanks_between(s, i, n));
                        }
                    }
                }
            }
            if !pending {
                assert forall|i: int| 0 <= i < n + 1 && s[i] == '/' implies !blanks_between(
                    s,
                    i,
                    n + 1,
                ) by {
                    if blanks_between(s, i, n + 1) {
                        if i < n {
                            assert(is_blank(s[n]));
                            assert(blanks_between(s, i, n));
                        }
                    }
                }
            }
        }
    }
    proof {
        let n = s.len() as int;
        if zeros {
            assert(zero_step_at(s, slash, start, n));
        } else {
            assert forall|i: int, j: int, m: int| !zero_step_at(s, i, j, m) by {
                if zero_step_at(s, i, j, m) {
                    assert(m == n);
                    assert(zeros_between(s, j, n));
                }
            }
        }
    }
    zeros
}

/// Parses an expression that the store accepts.
pub(crate) fn parse_cron(expression: &str) -> (parsed: Option<Schedule>)
    ensures
        parsed is Some <==> cron_accepts(expression@),
{
    if contains_zero_step(expression) {
        None
    } else {
        match schedule_from_str(expression) {
            Ok(schedule) => Some(schedule),
            Err(_) => None,
        }
    }
}

/// Whether the store accepts the expression.
pub fn is_valid_cron(expression: &str) -> (valid: bool)
    ensures
        valid == cron_accepts(expression@),
{
    parse_cron(expression).is_some()
}

} // verus!
