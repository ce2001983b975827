//! The strict RFC 3339 grammar: which texts are valid, and which instant a
//! valid text denotes.  This is the yardstick both for the contract of the
//! strict parsing primitive and for the canonical serialization's round trip.
//!
//! The grammar here is deliberately a strict subset of what the calendar
//! primitive accepts: an uppercase `T` separator, seconds below sixty, one to
//! nine fraction digits, and an offset written `Z` or `+HH:MM`/`-HH:MM`.

use crate::chars_util::all_digits;
use crate::chars_util::digit_val;
use crate::chars_util::is_digit_char;
use crate::chars_util::lemma_num_of_digits_bound;
use crate::chars_util::lemma_pow10_pos;
use crate::chars_util::num_of_digits;
use crate::chars_util::digit_char;
use crate::chars_util::pad3;
use crate::chars_util::pow10;
use crate::model::days_in_month;
use crate::model::DateParts;
use crate::model::DateTimeFixedOffset;
use crate::model::TimeParts;
use crate::normalize::normalize_spec;
use crate::normalize::replace_from;
use crate::normalize::sep_mapped;
use vstd::prelude::*;

verus! {

/// The two-digit number written at position `i`.
pub open spec fn num2(s: Seq<char>, i: int) -> int {
    digit_val(s[i]) * 10 + digit_val(s[i + 1])
}

/// The four-digit number written at position `i`.
pub open spec fn num4(s: Seq<char>, i: int) -> int {
    digit_val(s[i]) * 1000 + digit_val(s[i + 1]) * 100 + digit_val(s[i + 2]) * 10 + digit_val(
        s[i + 3],
    )
}

/// Positions `i` up to `i + n` all hold digits.
pub open spec fn digits_at(s: Seq<char>, i: int, n: int) -> bool {
    forall|k: int| i <= k < i + n ==> is_digit_char(#[trigger] s[k])
}

/// Length of the run of digits starting at position `i`.
pub open spec fn digit_run(s: Seq<char>, i: int) -> int
    decreases s.len() - i,
    when 0 <= i <= s.len()
{
    if i < s.len() && is_digit_char(s[i]) {
        1 + digit_run(s, i + 1)
    } else {
        0
    }
}

/// Where the offset part starts: after the seconds, skipping a fraction if
/// one is written.
pub open spec fn offset_start(s: Seq<char>) -> int {
    if s.len() > 19 && s[19] == '.' {
        20 + digit_run(s, 20)
    } else {
        19
    }
}

/// The fixed-position date-and-time head `YYYY-MM-DDTHH:MM:SS`, with every
/// field in range and the day real for its month and year.
pub open spec fn head_ok(s: Seq<char>) -> bool {
    &&& s.len() >= 20
    &&& digits_at(s, 0, 4)
    &&& s[4] == '-'
    &&& digits_at(s, 5, 2)
    &&& s[7] == '-'
    &&& digits_at(s, 8, 2)
    &&& s[10] == 'T'
    &&& digits_at(s, 11, 2)
    &&& s[13] == ':'
    &&& digits_at(s, 14, 2)
    &&& s[16] == ':'
    &&& digits_at(s, 17, 2)
    &&& 1 <= num2(s, 5) <= 12
    &&& 1 <= num2(s, 8) <= days_in_month(num4(s, 0), num2(s, 5))
    &&& num2(s, 11) <= 23
    &&& num2(s, 14) <= 59
    &&& num2(s, 17) <= 59
}

/// If a fraction is written it has one to nine digits.
pub open spec fn frac_ok(s: Seq<char>) -> bool {
    s.len() > 19 && s[19] == '.' ==> 1 <= digit_run(s, 20) <= 9
}

/// The offset tail: `Z`, or a sign with `HH:MM`, and nothing after it.
pub open spec fn offset_ok(s: Seq<char>, e: int) -> bool {
    if e >= s.len() {
        false
    } else if s[e] == 'Z' {
        s.len() == e + 1
    } else {
        &&& (s[e] == '+' || s[e] == '-')
        &&& s.len() == e + 6
        &&& digits_at(s, e + 1, 2)
        &&& s[e + 3] == ':'
        &&& digits_at(s, e + 4, 2)
        &&& num2(s, e + 1) <= 23
        &&& num2(s, e + 4) <= 59
    }
}

/// A text the strict RFC 3339 grammar accepts.
pub open spec fn is_valid_rfc3339(s: Seq<char>) -> bool {
    head_ok(s) && frac_ok(s) && offset_ok(s, offset_start(s))
}

/// Nanoseconds denoted by the fraction part, if any: the written digits,
/// scaled up to nine places.
pub open spec fn frac_nanos(s: Seq<char>) -> int {
    if s.len() > 19 && s[19] == '.' {
        num_of_digits(s.subrange(20, 20 + digit_run(s, 20))) * pow10((9 - digit_run(s, 20)) as nat)
    } else {
        0
    }
}

/// Offset seconds denoted by the tail starting at `e`.
pub open spec fn offset_val(s: Seq<char>, e: int) -> int {
    if s[e] == 'Z' {
        0
    } else {
        let m = num2(s, e + 1) * 3600 + num2(s, e + 4) * 60;
        if s[e] == '-' {
            -m
        } else {
            m
        }
    }
}

/// The instant a valid RFC 3339 text denotes: exactly the fields written in
/// it.
pub open spec fn rfc3339_value(s: Seq<char>) -> DateTimeFixedOffset {
    DateTimeFixedOffset {
        date: DateParts {
            year: num4(s, 0) as i32,
            month: num2(s, 5) as u32,
            day: num2(s, 8) as u32,
        },
        time: TimeParts {
            hour: num2(s, 11) as u32,
            minute: num2(s, 14) as u32,
            second: num2(s, 17) as u32,
            nanosecond: frac_nanos(s) as u32,
        },
        offset_seconds: offset_val(s, offset_start(s)) as i32,
    }
}

/// The digit run really is made of digits and stays inside the text.
pub proof fn lemma_digit_run_props(s: Seq<char>, i: int)
    requires
        0 <= i <= s.len(),
    ensures
        0 <= digit_run(s, i),
        i + digit_run(s, i) <= s.len(),
        forall|j: int| i <= j < i + digit_run(s, i) ==> is_digit_char(#[trigger] s[j]),
    decreases s.len() - i,
{
    if i < s.len() && is_digit_char(s[i]) {
        lemma_digit_run_props(s, i + 1);
    }
}

/// Powers of ten multiply by adding exponents.
pub proof fn lemma_pow10_add(a: nat, b: nat)
    ensures
        pow10(a) * pow10(b) == pow10((a + b) as nat),
    decreases a,
{
    if a == 0 {
    } else {
        lemma_pow10_add((a - 1) as nat, b);
        assert(pow10(a) * pow10(b) == 10 * (pow10((a - 1) as nat) * pow10(b)))
            by (nonlinear_arith)
            requires
                pow10(a) == 10 * pow10((a - 1) as nat),
        ;
    }
}

/// A written fraction denotes fewer than a billion nanoseconds.
pub proof fn lemma_frac_nanos_bound(s: Seq<char>)
    requires
        head_ok(s),
        frac_ok(s),
    ensures
        0 <= frac_nanos(s) < 1_000_000_000,
{
    if s.len() > 19 && s[19] == '.' {
        let r = digit_run(s, 20);
        let d = s.subrange(20, 20 + r);
        lemma_digit_run_props(s, 20);
        assert(all_digits(d)) by {
            assert(forall|j: int| 0 <= j < d.len() ==> d[j] == #[trigger] s[20 + j]);
        }
        lemma_num_of_digits_bound(d);
        lemma_pow10_pos((9 - r) as nat);
        lemma_pow10_add(r as nat, (9 - r) as nat);
        assert(pow10(9) == 1_000_000_000) by {
            reveal_with_fuel(pow10, 10);
        }
        assert(d.len() == r);
        assert(num_of_digits(d) * pow10((9 - r) as nat) < pow10(r as nat) * pow10((9 - r) as nat))
            by (nonlinear_arith)
            requires
                num_of_digits(d) < pow10(r as nat),
                pow10((9 - r) as nat) > 0,
        ;
        assert(num_of_digits(d) * pow10((9 - r) as nat) >= 0) by (nonlinear_arith)
            requires
                num_of_digits(d) >= 0,
                pow10((9 - r) as nat) > 0,
        ;
    }
}

/// A valid text denotes a well-formed instant, with a plain (non-leap)
/// sub-second.
pub proof fn lemma_valid_value_wf(s: Seq<char>)
    requires
        is_valid_rfc3339(s),
    ensures
        rfc3339_value(s).wf(),
        rfc3339_value(s).time.nanosecond < 1_000_000_000,
{
    let e = offset_start(s);
    if s.len() > 19 && s[19] == '.' {
        lemma_digit_run_props(s, 20);
    }
    lemma_frac_nanos_bound(s);
    assert(0 <= num4(s, 0) <= 9999);
    if s[e] != 'Z' {
        let h = num2(s, e + 1);
        let m = num2(s, e + 4);
        let v = h * 3600 + m * 60;
        assert(v == 60 * (h * 60 + m));
        assert(v % 60 == 0) by (nonlinear_arith)
            requires
                v == 60 * (h * 60 + m),
        ;
        assert((-v) % 60 == 0);
    }
}

/// Valid texts hold no space, so the timezone-name rewrites leave them
/// alone.
proof fn lemma_no_space(s: Seq<char>)
    requires
        is_valid_rfc3339(s),
    ensures
        forall|i: int| 0 <= i < s.len() ==> #[trigger] s[i] != ' ',
{
    let e = offset_start(s);
    lemma_digit_run_props(s, 20);
    assert forall|i: int| 0 <= i < s.len() implies #[trigger] s[i] != ' ' by {
        if i < 20 {
            if i == 4 || i == 7 {
                assert(s[i] == '-');
            } else if i == 10 {
                assert(s[i] == 'T');
            } else if i == 13 || i == 16 {
                assert(s[i] == ':');
            } else if i == 19 {
                if s.len() > 19 && s[19] == '.' {
                } else {
                    assert(e == 19);
                    assert(s[i] == 'Z' || s[i] == '+' || s[i] == '-');
                }
            } else {
                assert(is_digit_char(s[i]));
            }
        } else if s.len() > 19 && s[19] == '.' && i < e {
            assert(is_digit_char(s[i]));
        } else {
            assert(i >= e);
            if s[e] == 'Z' {
                assert(i == e);
            } else {
                if i == e {
                    assert(s[i] == '+' || s[i] == '-');
                } else if i == e + 3 {
                    assert(s[i] == ':');
                } else {
                    assert(is_digit_char(s[i]));
                }
            }
        }
    }
}

/// If no character of `s` starts the pattern, replacement changes nothing.
proof fn lemma_replace_absent(s: Seq<char>, pat: Seq<char>, rep: Seq<char>)
    requires
        pat.len() > 0,
        pat[0] == ' ',
        forall|i: int| 0 <= i < s.len() ==> #[trigger] s[i] != ' ',
    ensures
        replace_from(s, pat, rep) == s,
    decreases s.len(),
{
    if s.len() < pat.len() {
    } else {
        assert(s.subrange(0, pat.len() as int)[0] == s[0]);
        assert(s.subrange(0, pat.len() as int) != pat);
        lemma_replace_absent(s.skip(1), pat, rep);
        assert(forall|i: int| 0 <= i < s.skip(1).len() ==> s.skip(1)[i] == #[trigger] s[i + 1]);
        assert(seq![s[0]] + s.skip(1) =~= s);
    }
}

/// A digit character carries its digit.
proof fn lemma_digit_char_ok(d: int)
    requires
        0 <= d <= 9,
    ensures
        is_digit_char(digit_char(d)),
        digit_val(digit_char(d)) == d,
{
}

/// Concatenating digit strings multiplies the left value by ten to the
/// length of the right.
proof fn lemma_num_concat(a: Seq<char>, b: Seq<char>)
    ensures
        num_of_digits(a + b) == num_of_digits(a) * pow10(b.len()) + num_of_digits(b),
    decreases b.len(),
{
    if b.len() == 0 {
        assert(a + b =~= a);
    } else {
        lemma_num_concat(a, b.drop_last());
        assert((a + b).drop_last() =~= a + b.drop_last());
        assert((a + b).last() == b.last());
        assert(num_of_digits(a) * pow10((b.len() - 1) as nat) * 10 == num_of_digits(a) * pow10(
            b.len(),
        ))
            by (nonlinear_arith)
            requires
                pow10(b.len()) == 10 * pow10((b.len() - 1) as nat),
        ;
    }
}

/// Value of a two-digit rendering.
proof fn lemma_pad2_num(s: Seq<char>, i: int, n: int)
    requires
        0 <= n <= 99,
        0 <= i,
        i + 2 <= s.len(),
        s[i] == digit_char(n / 10),
        s[i + 1] == digit_char(n % 10),
    ensures
        num2(s, i) == n,
        is_digit_char(s[i]),
        is_digit_char(s[i + 1]),
{
    lemma_digit_char_ok(n / 10);
    lemma_digit_char_ok(n % 10);
}

/// Value of a three-digit rendering as a digit string.
proof fn lemma_pad3_num(x: int)
    requires
        0 <= x <= 999,
    ensures
        num_of_digits(pad3(x)) == x,
        all_digits(pad3(x)),
{
    lemma_digit_char_ok(x / 100);
    lemma_digit_char_ok((x / 10) % 10);
    lemma_digit_char_ok(x % 10);
    let d = pad3(x);
    let d2 = seq![digit_char(x / 100), digit_char((x / 10) % 10)];
    let d1 = seq![digit_char(x / 100)];
    assert(d.drop_last() =~= d2);
    assert(d2.drop_last() =~= d1);
    assert(d1.drop_last() =~= Seq::<char>::empty());
    assert(num_of_digits(Seq::<char>::empty()) == 0);
    assert(num_of_digits(d1) == digit_val(d1.last()));
    assert(num_of_digits(d2) == num_of_digits(d1) * 10 + digit_val(d2.last()));
    assert(num_of_digits(d) == num_of_digits(d2) * 10 + digit_val(d.last()));
    assert(num_of_digits(d) == (x / 100) * 100 + ((x / 10) % 10) * 10 + x % 10);
    assert((x / 100) * 100 + ((x / 10) % 10) * 10 + x % 10 == x) by (nonlinear_arith)
        requires
            0 <= x <= 999,
    ;
}

/// The canonical serialization of a well-formed instant with a plain
/// sub-second is itself a valid text of the strict grammar, and it denotes
/// exactly the instant it was printed from.  Together with the success
/// contract of `parse`, this is the round-trip law: serializing and
/// re-parsing the canonical form yields the identical instant and offset.
#[verifier::rlimit(100)]
pub proof fn lemma_canonical_round_trip(ts: DateTimeFixedOffset)
    requires
        ts.wf(),
        ts.time.nanosecond < 1_000_000_000,
    ensures
        is_valid_rfc3339(ts.canonical_seq()),
        rfc3339_value(ts.canonical_seq()) == ts,
{
    let s = ts.canonical_seq();
    let y = ts.date.year as int;
    let mo = ts.date.month as int;
    let d = ts.date.day as int;
    let h = ts.time.hour as int;
    let mi = ts.time.minute as int;
    let sec = ts.time.second as int;
    let n = ts.time.nanosecond as int;
    let off = ts.offset_seconds as int;
    let head = seq![
        digit_char(y / 1000),
        digit_char((y / 100) % 10),
        digit_char((y / 10) % 10),
        digit_char(y % 10),
        '-',
        digit_char(mo / 10),
        digit_char(mo % 10),
        '-',
        digit_char(d / 10),
        digit_char(d % 10),
        'T',
        digit_char(h / 10),
        digit_char(h % 10),
        ':',
        digit_char(mi / 10),
        digit_char(mi % 10),
        ':',
        digit_char(sec / 10),
        digit_char(sec % 10),
    ];
    let fr = crate::model::frac_part(n);
    let a = if off < 0 {
        -off
    } else {
        off
    };
    let sign = if off < 0 {
        '-'
    } else {
        '+'
    };
    assert(a % 60 == 0);
    let hh = a / 3600;
    let mm = (a % 3600) / 60;
    let ofs = seq![
        sign,
        digit_char(hh / 10),
        digit_char(hh % 10),
        ':',
        digit_char(mm / 10),
        digit_char(mm % 10),
    ];
    assert(s =~= head + fr + ofs);
    // The head: every field re-reads to its own value.
    lemma_digit_char_ok(y / 1000);
    lemma_digit_char_ok((y / 100) % 10);
    lemma_digit_char_ok((y / 10) % 10);
    lemma_digit_char_ok(y % 10);
    assert((y / 1000) * 1000 + ((y / 100) % 10) * 100 + ((y / 10) % 10) * 10 + y % 10 == y)
        by (nonlinear_arith)
        requires
            0 <= y <= 9999,
    ;
    assert(num4(s, 0) == y);
    lemma_pad2_num(s, 5, mo);
    lemma_pad2_num(s, 8, d);
    lemma_pad2_num(s, 11, h);
    lemma_pad2_num(s, 14, mi);
    lemma_pad2_num(s, 17, sec);
    assert(head_ok(s));
    // The fraction: the run re-reads to the printed nanoseconds.
    let e = offset_start(s);
    if n == 0 {
        assert(fr =~= Seq::<char>::empty());
        assert(s[19] == sign);
        assert(e == 19);
        assert(frac_nanos(s) == 0);
    } else {
        assert(s[19] == '.');
        if n % 1_000_000 == 0 {
            let x = n / 1_000_000;
            assert(fr =~= seq!['.'] + pad3(x));
            lemma_pad3_num(x);
            assert(s[23] == sign);
            assert(digit_run(s, 23) == 0);
            assert(digit_run(s, 22) == 1);
            assert(digit_run(s, 21) == 2);
            assert(digit_run(s, 20) == 3);
            assert(e == 23);
            assert(s.subrange(20, 23) =~= pad3(x));
            assert(pow10(6) == 1_000_000) by {
                reveal_with_fuel(pow10, 7);
            }
            assert(frac_nanos(s) == x * 1_000_000);
            assert(x * 1_000_000 == n) by (nonlinear_arith)
                requires
                    x == n / 1_000_000,
                    n % 1_000_000 == 0,
                    n >= 0,
            ;
        } else if n % 1_000 == 0 {
            let x = n / 1_000_000;
            let z = (n / 1_000) % 1_000;
            assert(fr =~= seq!['.'] + (pad3(x) + pad3(z)));
            lemma_pad3_num(x);
            lemma_pad3_num(z);
            assert(s[26] == sign);
            assert(digit_run(s, 26) == 0);
            assert(digit_run(s, 25) == 1);
            assert(digit_run(s, 24) == 2);
            assert(digit_run(s, 23) == 3);
            assert(digit_run(s, 22) == 4);
            assert(digit_run(s, 21) == 5);
            assert(digit_run(s, 20) == 6);
            assert(e == 26);
            assert(s.subrange(20, 26) =~= pad3(x) + pad3(z));
            lemma_num_concat(pad3(x), pad3(z));
            assert(pow10(3) == 1_000) by {
                reveal_with_fuel(pow10, 4);
            }
            assert(num_of_digits(pad3(x) + pad3(z)) == x * 1_000 + z);
            assert((x * 1_000 + z) * 1_000 == n) by (nonlinear_arith)
                requires
                    x == n / 1_000_000,
                    z == (n / 1_000) % 1_000,
                    n % 1_000 == 0,
                    0 <= n < 1_000_000_000,
            ;
            assert(frac_nanos(s) == (x * 1_000 + z) * pow10(3));
        } else {
            let x = n / 1_000_000;
            let z = (n / 1_000) % 1_000;
            let w = n % 1_000;
            assert(fr =~= seq!['.'] + (pad3(x) + pad3(z) + pad3(w)));
            lemma_pad3_num(x);
            lemma_pad3_num(z);
            lemma_pad3_num(w);
            assert(s.len() == 35);
            assert(digit_run(s, 29) == 0);
            assert(digit_run(s, 28) == 1);
            assert(digit_run(s, 27) == 2);
            assert(digit_run(s, 26) == 3);
            assert(digit_run(s, 25) == 4);
            assert(digit_run(s, 24) == 5);
            assert(digit_run(s, 23) == 6);
            assert(digit_run(s, 22) == 7);
            assert(digit_run(s, 21) == 8);
            assert(digit_run(s, 20) == 9);
            assert(e == 29);
            assert(s.subrange(20, 29) =~= pad3(x) + pad3(z) + pad3(w));
            lemma_num_concat(pad3(x) + pad3(z), pad3(w));
            lemma_num_concat(pad3(x), pad3(z));
            assert(pow10(3) == 1_000 && pow10(0) == 1) by {
                reveal_with_fuel(pow10, 4);
            }
            assert(num_of_digits(pad3(x) + pad3(z) + pad3(w)) == (x * 1_000 + z) * 1_000 + w);
            assert((x * 1_000 + z) * 1_000 + w == n) by (nonlinear_arith)
                requires
                    x == n / 1_000_000,
                    z == (n / 1_000) % 1_000,
                    w == n % 1_000,
                    0 <= n < 1_000_000_000,
            ;
            assert(frac_nanos(s) == ((x * 1_000 + z) * 1_000 + w) * pow10(0));
        }
    }
    assert(frac_nanos(s) == n);
    assert(frac_ok(s));
    // The offset tail.
    assert(s.len() == e + 6);
    assert(s[e] == sign && s[e + 1] == digit_char(hh / 10) && s[e + 2] == digit_char(hh % 10)
        && s[e + 3] == ':' && s[e + 4] == digit_char(mm / 10) && s[e + 5] == digit_char(mm % 10));
    lemma_pad2_num(s, e + 1, hh);
    lemma_pad2_num(s, e + 4, mm);
    assert(offset_ok(s, e));
    assert((a % 3600) % 60 == 0 && a == 3600 * hh + 60 * mm) by (nonlinear_arith)
        requires
            0 <= a <= 86399,
            a % 60 == 0,
            hh == a / 3600,
            mm == (a % 3600) / 60,
    ;
    assert(num2(s, e + 1) * 3600 + num2(s, e + 4) * 60 == a);
    if off < 0 {
        assert(offset_val(s, e) == -a == off);
    } else {
        assert(offset_val(s, e) == a == off);
    }
    assert(is_valid_rfc3339(s));
    assert(rfc3339_value(s) == ts);
}

/// The standardizer does not touch a valid RFC 3339 text.
pub proof fn lemma_normalize_identity(s: Seq<char>)
    requires
        is_valid_rfc3339(s),
    ensures
        normalize_spec(s) == s,
{
    assert(sep_mapped(s) =~= s) by {
        assert(forall|i: int|
            0 <= i < 8 ==> is_digit_char(#[trigger] s[i]) || s[i] == '-');
    }
    lemma_no_space(s);
    reveal_strlit(" UTC");
    reveal_strlit(" UT");
    reveal_strlit(" GMT");
    lemma_replace_absent(s, " UTC"@, " GMT"@);
    lemma_replace_absent(s, " UT"@, " GMT"@);
}

} // verus!
