//! Character-level helpers shared by the standardizer, the strategies and
//! the serializer: ASCII classification, digit arithmetic, and conversion
//! between `&str`, `String` and `Vec<char>`.

use vstd::prelude::*;

verus! {

/// `c` is an ASCII decimal digit.
pub open spec fn is_digit_char(c: char) -> bool {
    48 <= c as int && c as int <= 57
}

/// `c` is an ASCII letter.
pub open spec fn is_alpha_char(c: char) -> bool {
    (65 <= c as int && c as int <= 90) || (97 <= c as int && c as int <= 122)
}

/// Numeric value of an ASCII digit character.
pub open spec fn digit_val(c: char) -> int {
    c as int - 48
}

/// The ASCII digit character for a value between 0 and 9.
pub open spec fn digit_char(d: int) -> char {
    if d == 0 {
        '0'
    } else if d == 1 {
        '1'
    } else if d == 2 {
        '2'
    } else if d == 3 {
        '3'
    } else if d == 4 {
        '4'
    } else if d == 5 {
        '5'
    } else if d == 6 {
        '6'
    } else if d == 7 {
        '7'
    } else if d == 8 {
        '8'
    } else {
        '9'
    }
}

/// A non-negative value rendered as exactly two digits.
pub open spec fn pad2(n: int) -> Seq<char> {
    seq![digit_char(n / 10), digit_char(n % 10)]
}

/// A non-negative value rendered as exactly three digits.
pub open spec fn pad3(n: int) -> Seq<char> {
    seq![digit_char(n / 100), digit_char((n / 10) % 10), digit_char(n % 10)]
}

/// A non-negative value rendered as exactly four digits.
pub open spec fn pad4(n: int) -> Seq<char> {
    seq![
        digit_char(n / 1000),
        digit_char((n / 100) % 10),
        digit_char((n / 10) % 10),
        digit_char(n % 10),
    ]
}

/// Ten to the power `k`.
pub open spec fn pow10(k: nat) -> int
    decreases k,
{
    if k == 0 {
        1
    } else {
        10 * pow10((k - 1) as nat)
    }
}

/// The number denoted by a sequence of decimal digit characters, most
/// significant first.
pub open spec fn num_of_digits(s: Seq<char>) -> int
    decreases s.len(),
{
    if s.len() == 0 {
        0
    } else {
        num_of_digits(s.drop_last()) * 10 + digit_val(s.last())
    }
}

/// Every character of `s` is an ASCII digit.
pub open spec fn all_digits(s: Seq<char>) -> bool {
    forall|i: int| 0 <= i < s.len() ==> is_digit_char(#[trigger] s[i])
}

/// Every character of `s` is an ASCII letter.
pub open spec fn all_alpha(s: Seq<char>) -> bool {
    forall|i: int| 0 <= i < s.len() ==> is_alpha_char(#[trigger] s[i])
}

/// A digit string is bounded by ten to the power of its length.
pub proof fn lemma_num_of_digits_bound(s: Seq<char>)
    requires
        all_digits(s),
    ensures
        0 <= num_of_digits(s) < pow10(s.len()),
    decreases s.len(),
{
    if s.len() > 0 {
        assert(all_digits(s.drop_last())) by {
            assert(forall|i: int|
                0 <= i < s.drop_last().len() ==> s.drop_last()[i] == #[trigger] s[i]);
        }
        lemma_num_of_digits_bound(s.drop_last());
        assert(0 <= digit_val(s.last()) <= 9);
    }
}

/// The characters of `s`, in order, as a vector.
pub fn chars_of(s: &str) -> (r: Vec<char>)
    ensures
        r@ == s@,
{
    let n = s.unicode_len();
    let mut v: Vec<char> = Vec::new();
    let mut i: usize = 0;
    while i < n
        invariant
            n == s@.len(),
            i <= n,
            v@ == s@.subrange(0, i as int),
        decreases n - i,
    {
        let c = s.get_char(i);
        v.push(c);
        i += 1;
        assert(v@ =~= s@.subrange(0, i as int));
    }
    assert(v@ =~= s@);
    v
}

/// Relies on std's `char` iterator collected into a `String`: the collected
/// string holds exactly the characters of `v`, in order.
#[verifier::external_body]
pub fn string_from_chars(v: &Vec<char>) -> (r: String)
    ensures
        r@ == v@,
{
    v.iter().collect()
}

/// Executable ASCII-digit test.
pub fn is_digit(c: char) -> (b: bool)
    ensures
        b == is_digit_char(c),
{
    let u = c as u32;
    48 <= u && u <= 57
}

/// Executable ASCII-letter test.
pub fn is_alpha(c: char) -> (b: bool)
    ensures
        b == is_alpha_char(c),
{
    let u = c as u32;
    (65 <= u && u <= 90) || (97 <= u && u <= 122)
}

/// The digit character for a small value.
pub fn digit_to_char(d: u32) -> (c: char)
    requires
        d <= 9,
    ensures
        c == digit_char(d as int),
{
    match d {
        0 => '0',
        1 => '1',
        2 => '2',
        3 => '3',
        4 => '4',
        5 => '5',
        6 => '6',
        7 => '7',
        8 => '8',
        _ => '9',
    }
}

/// Appends `n` to `out` as exactly two digits.
pub fn push_pad2(out: &mut Vec<char>, n: u32)
    requires
        n <= 99,
    ensures
        final(out)@ == old(out)@ + pad2(n as int),
{
    out.push(digit_to_char(n / 10));
    out.push(digit_to_char(n % 10));
    assert(out@ =~= old(out)@ + pad2(n as int));
}

/// Appends `n` to `out` as exactly three digits.
pub fn push_pad3(out: &mut Vec<char>, n: u32)
    requires
        n <= 999,
    ensures
        final(out)@ == old(out)@ + pad3(n as int),
{
    out.push(digit_to_char(n / 100));
    out.push(digit_to_char((n / 10) % 10));
    out.push(digit_to_char(n % 10));
    assert(out@ =~= old(out)@ + pad3(n as int));
}

/// Appends `n` to `out` as exactly four digits.
pub fn push_pad4(out: &mut Vec<char>, n: u32)
    requires
        n <= 9999,
    ensures
        final(out)@ == old(out)@ + pad4(n as int),
{
    out.push(digit_to_char(n / 1000));
    out.push(digit_to_char((n / 100) % 10));
    out.push(digit_to_char((n / 10) % 10));
    out.push(digit_to_char(n % 10));
    assert(out@ =~= old(out)@ + pad4(n as int));
}

/// Appends the characters of `p` to `out`.
pub fn append_chars(out: &mut Vec<char>, p: &Vec<char>)
    ensures
        final(out)@ == old(out)@ + p@,
{
    let ghost head = out@;
    let mut i: usize = 0;
    while i < p.len()
        invariant
            i <= p@.len(),
            out@ == head + p@.subrange(0, i as int),
        decreases p@.len() - i,
    {
        out.push(p[i]);
        i += 1;
        assert(out@ =~= head + p@.subrange(0, i as int));
    }
    assert(out@ =~= head + p@);
}

/// Reads a run of up to 19 digits as a number.
pub fn num_from_digits(v: &Vec<char>) -> (r: u64)
    requires
        all_digits(v@),
        v@.len() <= 19,
    ensures
        r == num_of_digits(v@),
{
    proof {
        reveal_with_fuel(pow10, 20);
        assert(pow10(19) == 10_000_000_000_000_000_000);
    }
    let mut r: u64 = 0;
    let mut i: usize = 0;
    while i < v.len()
        invariant
            all_digits(v@),
            v@.len() <= 19,
            i <= v@.len(),
            r == num_of_digits(v@.subrange(0, i as int)),
        decreases v@.len() - i,
    {
        proof {
            reveal_with_fuel(pow10, 20);
            assert(pow10(19) == 10_000_000_000_000_000_000);
            lemma_prefix_bound(v@, i as int);
            assert(pow10((i + 1) as nat) == 10 * pow10(i as nat));
            assert(r * 10 + 9 < pow10((i + 1) as nat));
        }
        let c = v[i];
        assert(is_digit_char(c));
        let d = (c as u32) - 48;
        r = r * 10 + (d as u64);
        i += 1;
        proof {
            let p = v@.subrange(0, i as int);
            assert(p.drop_last() =~= v@.subrange(0, i - 1));
            assert(p.last() == v@[i - 1]);
            assert(num_of_digits(p) == num_of_digits(p.drop_last()) * 10 + digit_val(p.last()));
        }
    }
    proof {
        assert(v@.subrange(0, v@.len() as int) =~= v@);
    }
    r
}

/// Powers of ten are positive.
pub proof fn lemma_pow10_pos(k: nat)
    ensures
        pow10(k) > 0,
    decreases k,
{
    if k > 0 {
        lemma_pow10_pos((k - 1) as nat);
    }
}

/// Larger exponents give at least as large powers of ten.
pub proof fn lemma_pow10_mono(a: nat, b: nat)
    requires
        a <= b,
    ensures
        0 < pow10(a) <= pow10(b),
    decreases b,
{
    lemma_pow10_pos(a);
    if a < b {
        lemma_pow10_mono(a, (b - 1) as nat);
    }
}

/// The value of a strict prefix of a digit string stays below what one more
/// digit could reach.
proof fn lemma_prefix_bound(s: Seq<char>, i: int)
    requires
        all_digits(s),
        0 <= i < s.len(),
        s.len() <= 19,
    ensures
        num_of_digits(s.subrange(0, i)) < pow10(i as nat),
        pow10((i + 1) as nat) <= pow10(19),
{
    assert(all_digits(s.subrange(0, i)));
    lemma_num_of_digits_bound(s.subrange(0, i));
    lemma_pow10_mono((i + 1) as nat, 19);
}

} // verus!
