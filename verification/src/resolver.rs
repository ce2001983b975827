//! The timezone resolver: detaching a trailing purely-alphabetic token from
//! the text, canonicalizing the `UT`/`UTC` aliases to `GMT`, and recomposing
//! a date-and-time with such a token into the fixed-form line that the
//! offset-name table of the calendar primitive validates.

use crate::chars_util::all_alpha;
use crate::chars_util::chars_of;
use crate::chars_util::is_alpha;
use crate::chars_util::is_alpha_char;
use crate::chars_util::pad2;
use crate::chars_util::pad4;
use crate::chars_util::push_pad2;
use crate::chars_util::push_pad4;
use crate::chars_util::string_from_chars;
use crate::model::NaiveFields;
use vstd::prelude::*;

verus! {

/// Whitespace for the purposes of edge trimming.
pub open spec fn is_space_char(c: char) -> bool {
    c == ' ' || c == '\t' || c == '\n' || c == '\r'
}

/// `s` without leading whitespace.
pub open spec fn trim_front(s: Seq<char>) -> Seq<char>
    decreases s.len(),
{
    if s.len() > 0 && is_space_char(s[0]) {
        trim_front(s.skip(1))
    } else {
        s
    }
}

/// `s` without trailing whitespace.
pub open spec fn trim_back(s: Seq<char>) -> Seq<char>
    decreases s.len(),
{
    if s.len() > 0 && is_space_char(s.last()) {
        trim_back(s.drop_last())
    } else {
        s
    }
}

/// `s` without whitespace at either edge.
pub open spec fn trim_spec(s: Seq<char>) -> Seq<char> {
    trim_back(trim_front(s))
}

/// Index of the last space in `t`, or minus one if there is none.
pub open spec fn last_space(t: Seq<char>) -> int
    decreases t.len(),
{
    if t.len() == 0 {
        -1
    } else if t.last() == ' ' {
        t.len() - 1
    } else {
        last_space(t.drop_last())
    }
}

/// The trailing-timezone split: after trimming, the text after the last
/// space is the candidate token; the split stands only if that token is
/// purely alphabetic.  A numeric-offset suffix is thereby rejected and left
/// for the strict strategies.
pub open spec fn tz_split(s: Seq<char>) -> Option<(Seq<char>, Seq<char>)> {
    let t = trim_spec(s);
    let i = last_space(t);
    let dt = if i >= 0 {
        t.subrange(0, i)
    } else {
        Seq::<char>::empty()
    };
    let z = t.subrange(i + 1, t.len() as int);
    if all_alpha(z) {
        Some((dt, z))
    } else {
        None
    }
}

/// The two characters are the same ASCII letter up to case, or equal.
pub open spec fn eq_letter_ci(a: char, b: char) -> bool {
    a == b || (is_alpha_char(a) && is_alpha_char(b) && (a as int == b as int + 32 || a as int + 32
        == b as int))
}

/// Character-wise case-insensitive equality.
pub open spec fn seq_eq_ci(x: Seq<char>, y: Seq<char>) -> bool {
    x.len() == y.len() && (forall|i: int| 0 <= i < x.len() ==> eq_letter_ci(#[trigger] x[i], y[i]))
}

/// The canonical form of a timezone token: the `UT` and `UTC` aliases
/// become `GMT`, case-insensitively; everything else is left for the
/// offset-name table to accept or reject.
pub open spec fn canonical_tz(z: Seq<char>) -> Seq<char> {
    if seq_eq_ci(z, "UT"@) || seq_eq_ci(z, "UTC"@) {
        "GMT"@
    } else {
        z
    }
}

/// Three-letter English month name, months counted from 1.
pub open spec fn month_abbr(m: int) -> Seq<char> {
    if m == 1 {
        seq!['J', 'a', 'n']
    } else if m == 2 {
        seq!['F', 'e', 'b']
    } else if m == 3 {
        seq!['M', 'a', 'r']
    } else if m == 4 {
        seq!['A', 'p', 'r']
    } else if m == 5 {
        seq!['M', 'a', 'y']
    } else if m == 6 {
        seq!['J', 'u', 'n']
    } else if m == 7 {
        seq!['J', 'u', 'l']
    } else if m == 8 {
        seq!['A', 'u', 'g']
    } else if m == 9 {
        seq!['S', 'e', 'p']
    } else if m == 10 {
        seq!['O', 'c', 't']
    } else if m == 11 {
        seq!['N', 'o', 'v']
    } else {
        seq!['D', 'e', 'c']
    }
}

/// The fixed-form line `DD Mon YYYY HH:MM:SS TZ` handed to the offset-name
/// validation; sub-seconds are deliberately dropped, as the recomposition
/// grammar has no place for them.
pub open spec fn rfc2822_line(f: NaiveFields, tz: Seq<char>) -> Seq<char> {
    pad2(f.date.day as int) + seq![' '] + month_abbr(f.date.month as int) + seq![' '] + pad4(
        f.date.year as int,
    ) + seq![' '] + pad2(f.time.hour as int) + seq![':'] + pad2(f.time.minute as int) + seq![':']
        + pad2(f.time.second as int) + seq![' '] + tz
}

/// Trimmed front scan: the first `k` characters are spaces and the next is
/// not, so trimming the front drops exactly `k`.
proof fn lemma_trim_front_skip(s: Seq<char>, k: int)
    requires
        0 <= k <= s.len(),
        forall|j: int| 0 <= j < k ==> is_space_char(#[trigger] s[j]),
        k == s.len() || !is_space_char(s[k]),
    ensures
        trim_front(s) == s.skip(k),
    decreases k,
{
    if k > 0 {
        assert(is_space_char(s[0]));
        lemma_trim_front_skip(s.skip(1), k - 1);
        assert(s.skip(1).skip(k - 1) =~= s.skip(k));
    } else {
        assert(s.skip(0) =~= s);
    }
}

/// Trimmed back scan: everything from `h` on is a space and `h` ends a
/// non-space, so trimming the back keeps exactly the first `h`.
proof fn lemma_trim_back_take(t: Seq<char>, h: int)
    requires
        0 <= h <= t.len(),
        forall|j: int| h <= j < t.len() ==> is_space_char(#[trigger] t[j]),
        h == 0 || !is_space_char(t[h - 1]),
    ensures
        trim_back(t) == t.subrange(0, h),
    decreases t.len(),
{
    if t.len() > h {
        assert(is_space_char(t.last()));
        lemma_trim_back_take(t.drop_last(), h);
        assert(t.drop_last().subrange(0, h) =~= t.subrange(0, h));
    } else {
        if h > 0 {
            assert(!is_space_char(t.last()));
        }
        assert(t.subrange(0, h) =~= t);
    }
}

/// What the last-space index means.
proof fn lemma_last_space(t: Seq<char>)
    ensures
        -1 <= last_space(t) < t.len(),
        last_space(t) >= 0 ==> t[last_space(t)] == ' ',
        forall|k: int| last_space(t) < k < t.len() ==> #[trigger] t[k] != ' ',
    decreases t.len(),
{
    if t.len() > 0 && t.last() != ' ' {
        lemma_last_space(t.drop_last());
        assert(forall|k: int|
            0 <= k < t.len() - 1 ==> #[trigger] t[k] == t.drop_last()[k]);
    }
}

/// Copies `v[a..b]`.
pub fn sub_chars(v: &Vec<char>, a: usize, b: usize) -> (r: Vec<char>)
    requires
        a <= b <= v@.len(),
    ensures
        r@ == v@.subrange(a as int, b as int),
{
    let mut out: Vec<char> = Vec::new();
    let mut i: usize = a;
    while i < b
        invariant
            a <= i <= b <= v@.len(),
            out@ == v@.subrange(a as int, i as int),
        decreases b - i,
    {
        out.push(v[i]);
        i += 1;
        assert(out@ =~= v@.subrange(a as int, i as int));
    }
    out
}

/// Executable whitespace test.
fn is_space(c: char) -> (b: bool)
    ensures
        b == is_space_char(c),
{
    c == ' ' || c == '\t' || c == '\n' || c == '\r'
}

/// Trims whitespace from both edges.
fn trim_chars(v: &Vec<char>) -> (r: Vec<char>)
    ensures
        r@ == trim_spec(v@),
{
    let n = v.len();
    let mut lo: usize = 0;
    while lo < n && is_space(v[lo])
        invariant
            n == v@.len(),
            lo <= n,
            forall|j: int| 0 <= j < lo ==> is_space_char(#[trigger] v@[j]),
        decreases n - lo,
    {
        lo += 1;
    }
    proof {
        lemma_trim_front_skip(v@, lo as int);
    }
    let mut hi: usize = n;
    while hi > lo && is_space(v[hi - 1])
        invariant
            lo <= hi <= n,
            n == v@.len(),
            forall|j: int| hi <= j < n ==> is_space_char(#[trigger] v@[j]),
        decreases hi,
    {
        hi -= 1;
    }
    proof {
        let t = v@.skip(lo as int);
        assert(forall|j: int|
            hi - lo <= j < t.len() ==> is_space_char(#[trigger] t[j]) && t[j] == v@[j + lo]);
        if hi > lo {
            assert(t[hi - lo - 1] == v@[hi - 1]);
        }
        lemma_trim_back_take(t, hi - lo);
        assert(t.subrange(0, hi - lo) =~= v@.subrange(lo as int, hi as int));
    }
    sub_chars(v, lo, hi)
}

/// The trailing-timezone split on a character vector.
pub fn tz_split_chars(v: &Vec<char>) -> (r: Option<(Vec<char>, Vec<char>)>)
    ensures
        match r {
            Some(p) => tz_split(v@) == Some((p.0@, p.1@)),
            None => tz_split(v@) is None,
        },
{
    let t = trim_chars(v);
    proof {
        lemma_last_space(t@);
    }
    let n = t.len();
    let mut j: usize = n;
    while j > 0 && t[j - 1] != ' '
        invariant
            n == t@.len(),
            j <= n,
            forall|k: int| j <= k < n ==> #[trigger] t@[k] != ' ',
        decreases j,
    {
        j -= 1;
    }
    // `j` is one past the last space, or zero when there is none.
    proof {
        if j > 0 {
            assert(t@[j - 1] == ' ');
            assert(last_space(t@) == j - 1);
        } else {
            assert(last_space(t@) == -1);
        }
    }
    let dt = if j > 0 {
        sub_chars(&t, 0, j - 1)
    } else {
        Vec::new()
    };
    let z = sub_chars(&t, j, n);
    let mut k: usize = 0;
    let mut alpha = true;
    while k < z.len()
        invariant
            k <= z@.len(),
            alpha == (forall|q: int| 0 <= q < k ==> is_alpha_char(#[trigger] z@[q])),
        decreases z@.len() - k,
    {
        if !is_alpha(z[k]) {
            alpha = false;
            assert(!is_alpha_char(z@[k as int]));
            k = z.len();
        } else {
            k += 1;
        }
    }
    if alpha {
        assert(all_alpha(z@));
        Some((dt, z))
    } else {
        assert(!all_alpha(z@));
        None
    }
}

/// Detects a trailing purely-alphabetic token, assumed to be a timezone
/// abbreviation, and returns the date-and-time part with that token.
pub fn is_tz_alpha(s: &str) -> (r: Option<(String, String)>)
    ensures
        match r {
            Some(p) => tz_split(s@) == Some((p.0@, p.1@)),
            None => tz_split(s@) is None,
        },
{
    let v = chars_of(s);
    match tz_split_chars(&v) {
        Some((d, z)) => Some((string_from_chars(&d), string_from_chars(&z))),
        None => None,
    }
}

/// Executable case-insensitive letter comparison.
fn eq_ci(a: char, b: char) -> (r: bool)
    ensures
        r == eq_letter_ci(a, b),
{
    let x = a as u32;
    let y = b as u32;
    x == y || (is_alpha(a) && is_alpha(b) && (x == y + 32 || x + 32 == y))
}

/// Canonicalizes a timezone token: `UT`/`UTC` become `GMT`, anything else is
/// kept as written.
pub fn canonize_tz(z: &Vec<char>) -> (r: Vec<char>)
    ensures
        r@ == canonical_tz(z@),
{
    proof {
        reveal_strlit("UT");
        reveal_strlit("UTC");
        reveal_strlit("GMT");
    }
    let is_ut = z.len() == 2 && eq_ci(z[0], 'U') && eq_ci(z[1], 'T');
    let is_utc = z.len() == 3 && eq_ci(z[0], 'U') && eq_ci(z[1], 'T') && eq_ci(z[2], 'C');
    if is_ut {
        assert(seq_eq_ci(z@, "UT"@));
        chars_of("GMT")
    } else if is_utc {
        assert(seq_eq_ci(z@, "UTC"@));
        chars_of("GMT")
    } else {
        proof {
            if seq_eq_ci(z@, "UT"@) {
                assert(eq_letter_ci(z@[0], 'U') && eq_letter_ci(z@[1], 'T'));
            }
            if seq_eq_ci(z@, "UTC"@) {
                assert(eq_letter_ci(z@[0], 'U') && eq_letter_ci(z@[1], 'T') && eq_letter_ci(
                    z@[2],
                    'C',
                ));
            }
        }
        sub_chars(z, 0, z.len())
    }
}

/// Composes the fixed-form line `DD Mon YYYY HH:MM:SS TZ`.
pub fn compose_2822(f: &NaiveFields, tz: &Vec<char>) -> (r: Vec<char>)
    requires
        1 <= f.date.month <= 12,
        f.date.day <= 99,
        0 <= f.date.year <= 9999,
        f.time.hour <= 99,
        f.time.minute <= 99,
        f.time.second <= 99,
    ensures
        r@ == rfc2822_line(*f, tz@),
{
    let mut v: Vec<char> = Vec::new();
    push_pad2(&mut v, f.date.day);
    v.push(' ');
    let m = f.date.month;
    if m == 1 {
        v.push('J');
        v.push('a');
        v.push('n');
    } else if m == 2 {
        v.push('F');
        v.push('e');
        v.push('b');
    } else if m == 3 {
        v.push('M');
        v.push('a');
        v.push('r');
    } else if m == 4 {
        v.push('A');
        v.push('p');
        v.push('r');
    } else if m == 5 {
        v.push('M');
        v.push('a');
        v.push('y');
    } else if m == 6 {
        v.push('J');
        v.push('u');
        v.push('n');
    } else if m == 7 {
        v.push('J');
        v.push('u');
        v.push('l');
    } else if m == 8 {
        v.push('A');
        v.push('u');
        v.push('g');
    } else if m == 9 {
        v.push('S');
        v.push('e');
        v.push('p');
    } else if m == 10 {
        v.push('O');
        v.push('c');
        v.push('t');
    } else if m == 11 {
        v.push('N');
        v.push('o');
        v.push('v');
    } else {
        v.push('D');
        v.push('e');
        v.push('c');
    }
    v.push(' ');
    push_pad4(&mut v, f.date.year as u32);
    v.push(' ');
    push_pad2(&mut v, f.time.hour);
    v.push(':');
    push_pad2(&mut v, f.time.minute);
    v.push(':');
    push_pad2(&mut v, f.time.second);
    v.push(' ');
    let mut i: usize = 0;
    let ghost head = v@;
    while i < tz.len()
        invariant
            i <= tz@.len(),
            v@ == head + tz@.subrange(0, i as int),
        decreases tz@.len() - i,
    {
        v.push(tz[i]);
        i += 1;
        assert(v@ =~= head + tz@.subrange(0, i as int));
    }
    assert(v@ =~= rfc2822_line(*f, tz@));
    v
}

} // verus!
