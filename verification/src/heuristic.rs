//! The last-resort brute-force strategy: split the standardized text on
//! whitespace, classify the token count and which token is alphabetic (a
//! month name), and recompose a fixed-form line with the clock's current
//! year, commas removed, for the textual-month templates.

use crate::chars_util::all_alpha;
use crate::chars_util::append_chars;
use crate::chars_util::is_alpha;
use crate::chars_util::pad4;
use crate::chars_util::push_pad4;
use crate::chrono_calls::naive_date_parsed;
use crate::chrono_calls::naive_datetime_parsed;
use crate::chrono_calls::parse_naive_date;
use crate::chrono_calls::parse_naive_datetime;
use crate::model::DateTimeFixedOffset;
use crate::model::LocalClockContext;
use crate::model::NaiveFields;
use crate::model::TimeParts;
use crate::resolver::is_space_char;
use crate::resolver::sub_chars;
use crate::strategies::clamp_naive;
use crate::strategies::first_naive;
use crate::strategies::midnight;
use crate::strategies::run_naive;
use vstd::prelude::*;

verus! {

/// First non-space position at or after `i`.
pub open spec fn skip_spaces(s: Seq<char>, i: int) -> int
    decreases s.len() - i,
    when 0 <= i <= s.len()
{
    if i < s.len() && is_space_char(s[i]) {
        skip_spaces(s, i + 1)
    } else {
        i
    }
}

/// First space position at or after `i`.
pub open spec fn token_end(s: Seq<char>, i: int) -> int
    decreases s.len() - i,
    when 0 <= i <= s.len()
{
    if i < s.len() && !is_space_char(s[i]) {
        token_end(s, i + 1)
    } else {
        i
    }
}

/// Bounds and meaning of the space scan.
pub proof fn lemma_skip_spaces(s: Seq<char>, i: int)
    requires
        0 <= i <= s.len(),
    ensures
        i <= skip_spaces(s, i) <= s.len(),
        skip_spaces(s, i) == s.len() || !is_space_char(s[skip_spaces(s, i)]),
    decreases s.len() - i,
{
    if i < s.len() && is_space_char(s[i]) {
        lemma_skip_spaces(s, i + 1);
    }
}

/// Bounds and meaning of the token scan.
pub proof fn lemma_token_end(s: Seq<char>, i: int)
    requires
        0 <= i <= s.len(),
    ensures
        i <= token_end(s, i) <= s.len(),
        token_end(s, i) == s.len() || is_space_char(s[token_end(s, i)]),
    decreases s.len() - i,
{
    if i < s.len() && !is_space_char(s[i]) {
        lemma_token_end(s, i + 1);
    }
}

/// The token scan ends exactly where the characters say it does.
proof fn lemma_token_end_at(s: Seq<char>, i: int, k: int)
    requires
        0 <= i <= k <= s.len(),
        forall|j: int| i <= j < k ==> !is_space_char(#[trigger] s[j]),
        k == s.len() || is_space_char(s[k]),
    ensures
        token_end(s, i) == k,
    decreases k - i,
{
    if i < k {
        assert(!is_space_char(s[i]));
        lemma_token_end_at(s, i + 1, k);
    }
}

/// The whitespace-separated tokens of `s`, from position `i` on.
pub open spec fn split_ws_from(s: Seq<char>, i: int) -> Seq<Seq<char>>
    decreases s.len() - i,
    when 0 <= i <= s.len()
    via split_ws_from_dec
{
    let j = skip_spaces(s, i);
    if j >= s.len() {
        Seq::<Seq<char>>::empty()
    } else {
        let k = token_end(s, j);
        seq![s.subrange(j, k)] + split_ws_from(s, k)
    }
}

#[via_fn]
proof fn split_ws_from_dec(s: Seq<char>, i: int) {
    lemma_skip_spaces(s, i);
    let j = skip_spaces(s, i);
    if j < s.len() {
        lemma_token_end(s, j);
    }
}

/// The whitespace-separated tokens of `s`.
pub open spec fn split_ws(s: Seq<char>) -> Seq<Seq<char>> {
    split_ws_from(s, 0)
}

/// `t` with every comma removed.
pub open spec fn strip_commas(t: Seq<char>) -> Seq<char>
    decreases t.len(),
{
    if t.len() == 0 {
        Seq::<char>::empty()
    } else if t.last() == ',' {
        strip_commas(t.drop_last())
    } else {
        strip_commas(t.drop_last()).push(t.last())
    }
}

/// A month-name candidate: purely alphabetic once commas are gone.
pub open spec fn alpha_tok(t: Seq<char>) -> bool {
    all_alpha(strip_commas(t))
}

/// The two-token line: the whole standardized text, a space, and the
/// clock's four-digit year.
pub open spec fn line2(s: Seq<char>, y: int) -> Seq<char> {
    s + seq![' '] + pad4(y)
}

/// The three-token line `t0 t1 YYYY t2`, commas removed.
pub open spec fn line3(t0: Seq<char>, t1: Seq<char>, y: int, t2: Seq<char>) -> Seq<char> {
    strip_commas(t0 + seq![' '] + t1 + seq![' '] + pad4(y) + seq![' '] + t2)
}

/// The four-token line `t0 t1 YYYY t2 t3`, commas removed.
pub open spec fn line4(
    t0: Seq<char>,
    t1: Seq<char>,
    y: int,
    t2: Seq<char>,
    t3: Seq<char>,
) -> Seq<char> {
    strip_commas(t0 + seq![' '] + t1 + seq![' '] + pad4(y) + seq![' '] + t2 + seq![' '] + t3)
}

/// Month-first templates for a three-token layout.
pub open spec fn brute3_month_first() -> Seq<Seq<char>> {
    seq!["%B %d %Y %H:%M"@, "%B %d %Y %T"@, "%B %d %Y %I:%M%P"@]
}

/// Day-first templates for a three-token layout.
pub open spec fn brute3_day_first() -> Seq<Seq<char>> {
    seq!["%d %B %Y %H:%M"@, "%d %B %Y %T"@, "%d %B %Y %I:%M%P"@]
}

/// What the brute-force stage yields: a fixed classification of the token
/// layout, each class recomposed and matched against its own templates,
/// with the clock's year and offset filling the gaps.
pub open spec fn brute_spec(s: Seq<char>, ctx: LocalClockContext) -> Option<DateTimeFixedOffset> {
    let toks = split_ws(s);
    let y = ctx.date.year as int;
    let off = ctx.offset_seconds as int;
    if toks.len() == 2 && alpha_tok(toks[0]) {
        match naive_date_parsed(line2(s, y), "%B %d %Y"@) {
            Some(d) => clamp_naive(Some(NaiveFields { date: d, time: midnight() }), off),
            None => None,
        }
    } else if toks.len() == 2 && alpha_tok(toks[1]) {
        match naive_date_parsed(line2(s, y), "%d %B %Y"@) {
            Some(d) => clamp_naive(Some(NaiveFields { date: d, time: midnight() }), off),
            None => None,
        }
    } else if toks.len() == 3 && alpha_tok(toks[0]) {
        clamp_naive(first_naive(line3(toks[0], toks[1], y, toks[2]), brute3_month_first()), off)
    } else if toks.len() == 3 && alpha_tok(toks[1]) {
        clamp_naive(first_naive(line3(toks[0], toks[1], y, toks[2]), brute3_day_first()), off)
    } else if toks.len() == 4 && alpha_tok(toks[0]) {
        clamp_naive(
            naive_datetime_parsed(line4(toks[0], toks[1], y, toks[2], toks[3]), "%B %d %Y %I:%M %P"@),
            off,
        )
    } else if toks.len() == 4 && alpha_tok(toks[1]) {
        clamp_naive(
            naive_datetime_parsed(line4(toks[0], toks[1], y, toks[2], toks[3]), "%d %B %Y %I:%M %P"@),
            off,
        )
    } else {
        None
    }
}

/// Splits on whitespace.
fn split_ws_chars(v: &Vec<char>) -> (r: Vec<Vec<char>>)
    ensures
        r@.map_values(|t: Vec<char>| t@) == split_ws(v@),
{
    let n = v.len();
    let mut toks: Vec<Vec<char>> = Vec::new();
    let mut i: usize = 0;
    while i < n
        invariant
            n == v@.len(),
            i <= n,
            split_ws(v@) == toks@.map_values(|t: Vec<char>| t@) + split_ws_from(v@, i as int),
        decreases n - i,
    {
        if is_space_exec(v[i]) {
            proof {
                assert(skip_spaces(v@, i as int) == skip_spaces(v@, i + 1));
                assert(split_ws_from(v@, i as int) == split_ws_from(v@, i + 1));
            }
            i += 1;
        } else {
            let mut k: usize = i;
            while k < n && !is_space_exec(v[k])
                invariant
                    n == v@.len(),
                    i <= k <= n,
                    forall|j: int| i <= j < k ==> !is_space_char(#[trigger] v@[j]),
                decreases n - k,
            {
                k += 1;
            }
            proof {
                lemma_token_end_at(v@, i as int, k as int);
                assert(skip_spaces(v@, i as int) == i);
                assert(split_ws_from(v@, i as int) =~= seq![v@.subrange(i as int, k as int)]
                    + split_ws_from(v@, k as int));
            }
            let tok = sub_chars(v, i, k);
            let ghost before = toks@.map_values(|t: Vec<char>| t@);
            toks.push(tok);
            proof {
                assert(toks@.map_values(|t: Vec<char>| t@) =~= before + seq![v@.subrange(
                    i as int,
                    k as int,
                )]);
            }
            i = k;
        }
    }
    proof {
        assert(skip_spaces(v@, i as int) == i);
        assert(split_ws_from(v@, i as int) =~= Seq::<Seq<char>>::empty());
        assert(toks@.map_values(|t: Vec<char>| t@) + split_ws_from(v@, i as int)
            =~= toks@.map_values(|t: Vec<char>| t@));
    }
    toks
}

/// Executable whitespace test (shared with the resolver's spec).
fn is_space_exec(c: char) -> (b: bool)
    ensures
        b == is_space_char(c),
{
    c == ' ' || c == '\t' || c == '\n' || c == '\r'
}

/// Removes every comma.
fn strip_commas_chars(t: &Vec<char>) -> (r: Vec<char>)
    ensures
        r@ == strip_commas(t@),
{
    let mut out: Vec<char> = Vec::new();
    let mut i: usize = 0;
    while i < t.len()
        invariant
            i <= t@.len(),
            out@ == strip_commas(t@.subrange(0, i as int)),
        decreases t@.len() - i,
    {
        let c = t[i];
        proof {
            let p = t@.subrange(0, i + 1);
            assert(p.drop_last() =~= t@.subrange(0, i as int));
            assert(p.last() == t@[i as int]);
        }
        if c != ',' {
            out.push(c);
        }
        i += 1;
    }
    proof {
        assert(t@.subrange(0, t@.len() as int) =~= t@);
    }
    out
}

/// A month-name candidate: purely alphabetic once commas are gone.
fn token_alpha(t: &Vec<char>) -> (b: bool)
    ensures
        b == alpha_tok(t@),
{
    let stripped = strip_commas_chars(t);
    let mut k: usize = 0;
    let mut alpha = true;
    while k < stripped.len()
        invariant
            k <= stripped@.len(),
            alpha == (forall|q: int| 0 <= q < k ==> crate::chars_util::is_alpha_char(
                #[trigger] stripped@[q],
            )),
        decreases stripped@.len() - k,
    {
        if !is_alpha(stripped[k]) {
            alpha = false;
            assert(!crate::chars_util::is_alpha_char(stripped@[k as int]));
            k = stripped.len();
        } else {
            k += 1;
        }
    }
    alpha
}

/// Joins pieces with single spaces: `a b YYYY c [d]`, commas removed.
fn compose_tokens(
    t0: &Vec<char>,
    t1: &Vec<char>,
    y: u32,
    t2: &Vec<char>,
    t3: Option<&Vec<char>>,
) -> (r: Vec<char>)
    requires
        y <= 9999,
    ensures
        match t3 {
            Some(t) => r@ == line4(t0@, t1@, y as int, t2@, t@),
            None => r@ == line3(t0@, t1@, y as int, t2@),
        },
{
    let mut raw: Vec<char> = Vec::new();
    append_chars(&mut raw, t0);
    raw.push(' ');
    append_chars(&mut raw, t1);
    raw.push(' ');
    push_pad4(&mut raw, y);
    raw.push(' ');
    append_chars(&mut raw, t2);
    match t3 {
        Some(t) => {
            raw.push(' ');
            append_chars(&mut raw, t);
            assert(raw@ =~= t0@ + seq![' '] + t1@ + seq![' '] + pad4(y as int) + seq![' '] + t2@
                + seq![' '] + t@);
        },
        None => {
            assert(raw@ =~= t0@ + seq![' '] + t1@ + seq![' '] + pad4(y as int) + seq![' '] + t2@);
        },
    }
    strip_commas_chars(&raw)
}

/// The brute-force token strategy.
pub fn brute_family(s: &Vec<char>, ctx: &LocalClockContext) -> (r: Option<DateTimeFixedOffset>)
    requires
        ctx.wf(),
    ensures
        r == brute_spec(s@, *ctx),
{
    let toks = split_ws_chars(s);
    let ghost gt = toks@.map_values(|t: Vec<char>| t@);
    let y = ctx.date.year as u32;
    let off = ctx.offset_seconds;
    if toks.len() == 2 && token_alpha(&toks[0]) {
        let mut line: Vec<char> = Vec::new();
        append_chars(&mut line, s);
        line.push(' ');
        push_pad4(&mut line, y);
        assert(line@ =~= line2(s@, y as int));
        match parse_naive_date(&line, "%B %d %Y") {
            Some(d) => accept_brute_date(d, off),
            None => None,
        }
    } else if toks.len() == 2 && token_alpha(&toks[1]) {
        let mut line: Vec<char> = Vec::new();
        append_chars(&mut line, s);
        line.push(' ');
        push_pad4(&mut line, y);
        assert(line@ =~= line2(s@, y as int));
        match parse_naive_date(&line, "%d %B %Y") {
            Some(d) => accept_brute_date(d, off),
            None => None,
        }
    } else if toks.len() == 3 && token_alpha(&toks[0]) {
        let line = compose_tokens(&toks[0], &toks[1], y, &toks[2], None);
        let mut fs: Vec<&str> = Vec::new();
        fs.push("%B %d %Y %H:%M");
        fs.push("%B %d %Y %T");
        fs.push("%B %d %Y %I:%M%P");
        assert(fs@.map_values(|f: &str| f@) =~= brute3_month_first());
        accept_brute_naive(run_naive(&line, &fs), off)
    } else if toks.len() == 3 && token_alpha(&toks[1]) {
        let line = compose_tokens(&toks[0], &toks[1], y, &toks[2], None);
        let mut fs: Vec<&str> = Vec::new();
        fs.push("%d %B %Y %H:%M");
        fs.push("%d %B %Y %T");
        fs.push("%d %B %Y %I:%M%P");
        assert(fs@.map_values(|f: &str| f@) =~= brute3_day_first());
        accept_brute_naive(run_naive(&line, &fs), off)
    } else if toks.len() == 4 && token_alpha(&toks[0]) {
        let line = compose_tokens(&toks[0], &toks[1], y, &toks[2], Some(&toks[3]));
        accept_brute_naive(parse_naive_datetime(&line, "%B %d %Y %I:%M %P"), off)
    } else if toks.len() == 4 && token_alpha(&toks[1]) {
        let line = compose_tokens(&toks[0], &toks[1], y, &toks[2], Some(&toks[3]));
        accept_brute_naive(parse_naive_datetime(&line, "%d %B %Y %I:%M %P"), off)
    } else {
        None
    }
}

/// Midnight of a parsed date at the clock's offset, clamped.
fn accept_brute_date(d: crate::model::DateParts, off: i32) -> (r: Option<DateTimeFixedOffset>)
    requires
        crate::model::valid_date(d),
        -86399 <= off <= 86399,
        off as int % 60 == 0,
    ensures
        r == clamp_naive(Some(NaiveFields { date: d, time: midnight() }), off as int),
{
    let f = NaiveFields {
        date: d,
        time: TimeParts { hour: 0, minute: 0, second: 0, nanosecond: 0 },
    };
    if 0 <= f.date.year && f.date.year <= 9999 {
        Some(DateTimeFixedOffset { date: f.date, time: f.time, offset_seconds: off })
    } else {
        None
    }
}

/// A parsed naive instant at the clock's offset, clamped.
fn accept_brute_naive(v: Option<NaiveFields>, off: i32) -> (r: Option<DateTimeFixedOffset>)
    requires
        v is Some ==> crate::chrono_calls::fields_naive_ok(v->Some_0),
        -86399 <= off <= 86399,
        off as int % 60 == 0,
    ensures
        r == clamp_naive(v, off as int),
{
    match v {
        Some(f) => {
            if 0 <= f.date.year && f.date.year <= 9999 {
                Some(DateTimeFixedOffset { date: f.date, time: f.time, offset_seconds: off })
            } else {
                None
            }
        },
        None => None,
    }
}

} // verus!
