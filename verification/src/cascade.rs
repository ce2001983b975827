//! The cascade engine: standardize once, then try each strategy family in
//! a fixed priority order, from the strictest grammar to the brute-force
//! token heuristic, short-circuiting on the first success.  Exhaustion of
//! every family is the sole terminal failure.

use crate::chars_util::chars_of;
use crate::heuristic::brute_family;
use crate::heuristic::brute_spec;
use crate::model::DateTimeFixedOffset;
use crate::model::LocalClockContext;
use crate::model::ParseFailure;
use crate::normalize::normalize_spec;
use crate::normalize::standardize_chars;
use crate::rfc3339::is_valid_rfc3339;
use crate::rfc3339::lemma_normalize_identity;
use crate::rfc3339::lemma_valid_value_wf;
use crate::rfc3339::rfc3339_value;
use crate::strategies::alpha_tz_family;
use crate::strategies::alpha_tz_spec;
use crate::strategies::date_only_family;
use crate::strategies::date_only_spec;
use crate::strategies::epoch_family;
use crate::strategies::epoch_spec;
use crate::strategies::local_implied_family;
use crate::strategies::local_implied_spec;
use crate::strategies::strict_family;
use crate::strategies::strict_spec;
use crate::strategies::time_only_family;
use crate::strategies::time_only_spec;
use vstd::prelude::*;
use vstd::string::StringExecFns;

verus! {

/// The whole cascade on standardized text: the first family that yields an
/// instant decides; later families are never consulted.
pub open spec fn cascade_spec(s: Seq<char>, ctx: LocalClockContext) -> Option<
    DateTimeFixedOffset,
> {
    let a = strict_spec(s);
    if a is Some {
        a
    } else {
        let b = local_implied_spec(s, ctx);
        if b is Some {
            b
        } else {
            let c = date_only_spec(s, ctx);
            if c is Some {
                c
            } else {
                let d = time_only_spec(s, ctx);
                if d is Some {
                    d
                } else {
                    let e = alpha_tz_spec(s, ctx);
                    if e is Some {
                        e
                    } else {
                        let f = epoch_spec(s);
                        if f is Some {
                            f
                        } else {
                            brute_spec(s, ctx)
                        }
                    }
                }
            }
        }
    }
}

/// Order sensitivity: a text that any strict numeric-offset template
/// accepts resolves through the strict family, never through a later one —
/// in particular never through the brute-force heuristic.
pub proof fn lemma_strict_has_first_refusal(s: Seq<char>, ctx: LocalClockContext)
    ensures
        strict_spec(s) is Some ==> cascade_spec(s, ctx) == strict_spec(s),
{
}

/// Every instant the cascade yields satisfies the result invariant.
pub proof fn lemma_cascade_wf(s: Seq<char>, ctx: LocalClockContext)
    ensures
        cascade_spec(s, ctx) is Some ==> cascade_spec(s, ctx)->Some_0.wf(),
{
}

/// Parses loosely formatted date/time text against the caller's clock: the
/// raw text is standardized once, then the cascade decides.  The operation
/// is total: every input yields either a normalized instant or a terminal
/// failure with a non-empty diagnostic.  A text of the strict RFC 3339
/// grammar always succeeds, with exactly the fields written in it.
pub fn parse(text: &str, ctx: &LocalClockContext) -> (r: Result<DateTimeFixedOffset, ParseFailure>)
    requires
        ctx.wf(),
    ensures
        (match r {
            Ok(v) => cascade_spec(normalize_spec(text@), *ctx) == Some(v) && v.wf(),
            Err(e) => cascade_spec(normalize_spec(text@), *ctx) is None && e.message@.len() > 0,
        }),
        is_valid_rfc3339(text@) ==> r is Ok && r->Ok_0 == rfc3339_value(text@),
{
    let raw = chars_of(text);
    let s = standardize_chars(&raw);
    proof {
        if is_valid_rfc3339(text@) {
            lemma_normalize_identity(text@);
            lemma_valid_value_wf(text@);
        }
        lemma_cascade_wf(s@, *ctx);
    }
    let a = strict_family(&s);
    if let Some(x) = a {
        return Ok(x);
    }
    let b = local_implied_family(&s, ctx);
    if let Some(x) = b {
        return Ok(x);
    }
    let c = date_only_family(&s, ctx);
    if let Some(x) = c {
        return Ok(x);
    }
    let d = time_only_family(&s, ctx);
    if let Some(x) = d {
        return Ok(x);
    }
    let e = alpha_tz_family(&s, ctx);
    if let Some(x) = e {
        return Ok(x);
    }
    let f = epoch_family(&s);
    if let Some(x) = f {
        return Ok(x);
    }
    let g = brute_family(&s, ctx);
    if let Some(x) = g {
        return Ok(x);
    }
    proof {
        reveal_strlit("no strategy matched the input");
    }
    Err(ParseFailure { message: String::from_str("no strategy matched the input") })
}

} // verus!
