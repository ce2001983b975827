//! The standardizer.  Before any strategy runs, date-part separators in the
//! first eight characters are unified to `-`, and the literal substrings
//! `" UTC"` and `" UT"` are rewritten to `" GMT"`, the canonical name of the
//! offset table used later.

use crate::chars_util::chars_of;
use crate::chars_util::string_from_chars;
use vstd::prelude::*;

verus! {

/// Separator mapping: within the first eight characters only, `.` and `/`
/// become `-`; everything later is left untouched.
pub open spec fn sep_mapped(s: Seq<char>) -> Seq<char> {
    Seq::new(
        s.len(),
        |i: int|
            if i < 8 && (s[i] == '.' || s[i] == '/') {
                '-'
            } else {
                s[i]
            },
    )
}

/// Every occurrence of `pat` in `s` replaced by `rep`, left to right and
/// without rescanning replaced text, as std's `str::replace` does.
pub open spec fn replace_from(s: Seq<char>, pat: Seq<char>, rep: Seq<char>) -> Seq<char>
    decreases s.len(),
    when pat.len() > 0
{
    if s.len() < pat.len() {
        s
    } else if s.subrange(0, pat.len() as int) == pat {
        rep + replace_from(s.skip(pat.len() as int), pat, rep)
    } else {
        seq![s[0]] + replace_from(s.skip(1), pat, rep)
    }
}

/// The full standardizer: separator mapping, then the two timezone-name
/// rewrites (`" UTC"` first, so that the shorter `" UT"` only hits what is
/// left).
pub open spec fn normalize_spec(s: Seq<char>) -> Seq<char> {
    replace_from(replace_from(sep_mapped(s), " UTC"@, " GMT"@), " UT"@, " GMT"@)
}

/// Applies the separator mapping.
fn map_separators(v: &Vec<char>) -> (r: Vec<char>)
    ensures
        r@ == sep_mapped(v@),
{
    let mut out: Vec<char> = Vec::new();
    let mut i: usize = 0;
    while i < v.len()
        invariant
            i <= v@.len(),
            out@ == sep_mapped(v@).subrange(0, i as int),
        decreases v@.len() - i,
    {
        let c = v[i];
        if i < 8 && (c == '.' || c == '/') {
            out.push('-');
        } else {
            out.push(c);
        }
        i += 1;
        assert(out@ =~= sep_mapped(v@).subrange(0, i as int));
    }
    assert(out@ =~= sep_mapped(v@));
    out
}

/// Whether `pat` occurs in `s` starting at position `i`.
fn matches_at(s: &Vec<char>, pat: &Vec<char>, i: usize) -> (b: bool)
    requires
        i + pat@.len() <= s@.len(),
    ensures
        b == (s@.subrange(i as int, i + pat@.len()) == pat@),
{
    let n = s.len();
    let mut j: usize = 0;
    while j < pat.len()
        invariant
            n == s@.len(),
            i + pat@.len() <= s@.len(),
            j <= pat@.len(),
            forall|k: int| 0 <= k < j ==> s@[i + k] == #[trigger] pat@[k],
        decreases pat@.len() - j,
    {
        assert(i + j < n);
        if s[i + j] != pat[j] {
            assert(s@.subrange(i as int, i + pat@.len())[j as int] != pat@[j as int]);
            return false;
        }
        j += 1;
    }
    assert(s@.subrange(i as int, i + pat@.len()) =~= pat@);
    true
}

/// Replaces every occurrence of `pat` in `s` by `rep`.
fn replace_chars(s: &Vec<char>, pat: &Vec<char>, rep: &Vec<char>) -> (r: Vec<char>)
    requires
        pat@.len() > 0,
    ensures
        r@ == replace_from(s@, pat@, rep@),
{
    let mut out: Vec<char> = Vec::new();
    let mut i: usize = 0;
    assert(s@.skip(0) =~= s@);
    while i < s.len()
        invariant
            pat@.len() > 0,
            i <= s@.len(),
            replace_from(s@, pat@, rep@) == out@ + replace_from(s@.skip(i as int), pat@, rep@),
        decreases s@.len() - i,
    {
        let ghost tail = s@.skip(i as int);
        if pat.len() <= s.len() - i && matches_at(s, pat, i) {
            proof {
                assert(tail.subrange(0, pat@.len() as int) =~= s@.subrange(
                    i as int,
                    i + pat@.len(),
                ));
                assert(tail.skip(pat@.len() as int) =~= s@.skip(i + pat@.len()));
                assert(replace_from(tail, pat@, rep@) == rep@ + replace_from(
                    s@.skip(i + pat@.len()),
                    pat@,
                    rep@,
                ));
            }
            let ghost prev = out@;
            let mut j: usize = 0;
            while j < rep.len()
                invariant
                    j <= rep@.len(),
                    out@ == prev + rep@.subrange(0, j as int),
                decreases rep@.len() - j,
            {
                out.push(rep[j]);
                j += 1;
                assert(out@ =~= prev + rep@.subrange(0, j as int));
            }
            assert(out@ =~= prev + rep@);
            i += pat.len();
        } else {
            proof {
                if tail.len() >= pat@.len() {
                    assert(tail.subrange(0, pat@.len() as int) =~= s@.subrange(
                        i as int,
                        i + pat@.len(),
                    ));
                    assert(tail.subrange(0, pat@.len() as int) != pat@);
                    assert(replace_from(tail, pat@, rep@) == seq![tail[0]] + replace_from(
                        tail.skip(1),
                        pat@,
                        rep@,
                    ));
                } else {
                    assert(replace_from(tail, pat@, rep@) == tail);
                    assert(replace_from(tail.skip(1), pat@, rep@) == tail.skip(1));
                    assert(replace_from(tail, pat@, rep@) =~= seq![tail[0]] + replace_from(
                        tail.skip(1),
                        pat@,
                        rep@,
                    ));
                }
                assert(tail[0] == s@[i as int]);
                assert(tail.skip(1) =~= s@.skip(i + 1));
            }
            out.push(s[i]);
            i += 1;
        }
    }
    proof {
        assert(s@.skip(i as int) =~= Seq::<char>::empty());
        assert(replace_from(s@.skip(i as int), pat@, rep@) == s@.skip(i as int));
        assert(out@ + s@.skip(i as int) =~= out@);
    }
    out
}

/// Standardizes a character vector.
pub fn standardize_chars(v: &Vec<char>) -> (r: Vec<char>)
    ensures
        r@ == normalize_spec(v@),
{
    proof {
        reveal_strlit(" UTC");
        reveal_strlit(" UT");
        reveal_strlit(" GMT");
    }
    let mapped = map_separators(v);
    let utc = chars_of(" UTC");
    let ut = chars_of(" UT");
    let gmt = chars_of(" GMT");
    let first = replace_chars(&mapped, &utc, &gmt);
    replace_chars(&first, &ut, &gmt)
}

/// Standardizes the raw text; every strategy of the cascade sees only this
/// form, never the raw input.
pub fn standardize_date(s: &str) -> (r: String)
    ensures
        r@ == normalize_spec(s@),
{
    let v = chars_of(s);
    let w = standardize_chars(&v);
    string_from_chars(&w)
}

} // verus!
