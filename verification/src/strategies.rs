//! The strategy catalog: the ordered format templates of each family and
//! the family functions themselves.  Every family is a pure function from
//! standardized text (and the caller's clock) to an optional normalized
//! instant; its contract is exact over the named results of the calendar
//! primitive.

use crate::chrono_calls::epoch_civil;
use crate::chrono_calls::fields_fixed_ok;
use crate::chrono_calls::fields_naive_ok;
use crate::chrono_calls::civil_from_epoch;
use crate::chrono_calls::format_parsed;
use crate::chrono_calls::naive_date_parsed;
use crate::chrono_calls::naive_datetime_parsed;
use crate::chrono_calls::naive_time_parsed;
use crate::chrono_calls::parse_fixed_format;
use crate::chrono_calls::parse_naive_date;
use crate::chrono_calls::parse_naive_datetime;
use crate::chrono_calls::parse_naive_time;
use crate::chrono_calls::parse_rfc2822_text;
use crate::chrono_calls::parse_rfc3339_text;
use crate::chrono_calls::rfc2822_parsed;
use crate::chrono_calls::rfc3339_parsed;
use crate::chars_util::all_digits;
use crate::chars_util::is_digit;
use crate::chars_util::num_from_digits;
use crate::chars_util::num_of_digits;
use crate::model::valid_time;
use crate::model::DateParts;
use crate::model::DateTimeFixedOffset;
use crate::model::LocalClockContext;
use crate::model::NaiveFields;
use crate::model::TimeParts;
use crate::resolver::canonical_tz;
use crate::resolver::canonize_tz;
use crate::resolver::compose_2822;
use crate::resolver::rfc2822_line;
use crate::resolver::tz_split;
use crate::resolver::tz_split_chars;
use vstd::prelude::*;

verus! {

/// A parsed instant survives only if it satisfies the result invariant; an
/// out-of-era year or a ragged offset fails the strategy instead.
pub open spec fn clamp_fixed(v: Option<DateTimeFixedOffset>) -> Option<DateTimeFixedOffset> {
    match v {
        Some(f) => if f.wf() {
            Some(f)
        } else {
            None
        },
        None => None,
    }
}

/// Naive fields joined with an offset taken from elsewhere (the clock).
pub open spec fn with_offset(f: NaiveFields, off: int) -> DateTimeFixedOffset {
    DateTimeFixedOffset { date: f.date, time: f.time, offset_seconds: off as i32 }
}

/// As `clamp_fixed`, for naive fields plus a borrowed offset.
pub open spec fn clamp_naive(v: Option<NaiveFields>, off: int) -> Option<DateTimeFixedOffset> {
    match v {
        Some(f) => clamp_fixed(Some(with_offset(f, off))),
        None => None,
    }
}

/// Midnight, the default time of the date-only family.
pub open spec fn midnight() -> TimeParts {
    TimeParts { hour: 0, minute: 0, second: 0, nanosecond: 0 }
}

/// First offset-carrying template that matches.
pub open spec fn first_fixed(s: Seq<char>, fmts: Seq<Seq<char>>) -> Option<DateTimeFixedOffset>
    decreases fmts.len(),
{
    if fmts.len() == 0 {
        None
    } else if format_parsed(s, fmts[0]) is Some {
        format_parsed(s, fmts[0])
    } else {
        first_fixed(s, fmts.skip(1))
    }
}

/// First naive date-and-time template that matches.
pub open spec fn first_naive(s: Seq<char>, fmts: Seq<Seq<char>>) -> Option<NaiveFields>
    decreases fmts.len(),
{
    if fmts.len() == 0 {
        None
    } else if naive_datetime_parsed(s, fmts[0]) is Some {
        naive_datetime_parsed(s, fmts[0])
    } else {
        first_naive(s, fmts.skip(1))
    }
}

/// First date-only template that matches.
pub open spec fn first_date(s: Seq<char>, fmts: Seq<Seq<char>>) -> Option<DateParts>
    decreases fmts.len(),
{
    if fmts.len() == 0 {
        None
    } else if naive_date_parsed(s, fmts[0]) is Some {
        naive_date_parsed(s, fmts[0])
    } else {
        first_date(s, fmts.skip(1))
    }
}

/// First time-only template that matches.
pub open spec fn first_time(s: Seq<char>, fmts: Seq<Seq<char>>) -> Option<TimeParts>
    decreases fmts.len(),
{
    if fmts.len() == 0 {
        None
    } else if naive_time_parsed(s, fmts[0]) is Some {
        naive_time_parsed(s, fmts[0])
    } else {
        first_time(s, fmts.skip(1))
    }
}

proof fn lemma_first_fixed_skip(s: Seq<char>, fmts: Seq<Seq<char>>, i: int)
    requires
        0 <= i <= fmts.len(),
        forall|k: int| 0 <= k < i ==> format_parsed(s, #[trigger] fmts[k]) is None,
    ensures
        first_fixed(s, fmts) == first_fixed(s, fmts.skip(i)),
    decreases i,
{
    if i > 0 {
        lemma_first_fixed_skip(s, fmts.skip(1), i - 1);
        assert(forall|k: int| 0 <= k < i - 1 ==> fmts.skip(1)[k] == #[trigger] fmts[k + 1]);
        assert(fmts.skip(1).skip(i - 1) =~= fmts.skip(i));
    } else {
        assert(fmts.skip(0) =~= fmts);
    }
}

proof fn lemma_first_naive_skip(s: Seq<char>, fmts: Seq<Seq<char>>, i: int)
    requires
        0 <= i <= fmts.len(),
        forall|k: int| 0 <= k < i ==> naive_datetime_parsed(s, #[trigger] fmts[k]) is None,
    ensures
        first_naive(s, fmts) == first_naive(s, fmts.skip(i)),
    decreases i,
{
    if i > 0 {
        lemma_first_naive_skip(s, fmts.skip(1), i - 1);
        assert(forall|k: int| 0 <= k < i - 1 ==> fmts.skip(1)[k] == #[trigger] fmts[k + 1]);
        assert(fmts.skip(1).skip(i - 1) =~= fmts.skip(i));
    } else {
        assert(fmts.skip(0) =~= fmts);
    }
}

proof fn lemma_first_date_skip(s: Seq<char>, fmts: Seq<Seq<char>>, i: int)
    requires
        0 <= i <= fmts.len(),
        forall|k: int| 0 <= k < i ==> naive_date_parsed(s, #[trigger] fmts[k]) is None,
    ensures
        first_date(s, fmts) == first_date(s, fmts.skip(i)),
    decreases i,
{
    if i > 0 {
        lemma_first_date_skip(s, fmts.skip(1), i - 1);
        assert(forall|k: int| 0 <= k < i - 1 ==> fmts.skip(1)[k] == #[trigger] fmts[k + 1]);
        assert(fmts.skip(1).skip(i - 1) =~= fmts.skip(i));
    } else {
        assert(fmts.skip(0) =~= fmts);
    }
}

proof fn lemma_first_time_skip(s: Seq<char>, fmts: Seq<Seq<char>>, i: int)
    requires
        0 <= i <= fmts.len(),
        forall|k: int| 0 <= k < i ==> naive_time_parsed(s, #[trigger] fmts[k]) is None,
    ensures
        first_time(s, fmts) == first_time(s, fmts.skip(i)),
    decreases i,
{
    if i > 0 {
        lemma_first_time_skip(s, fmts.skip(1), i - 1);
        assert(forall|k: int| 0 <= k < i - 1 ==> fmts.skip(1)[k] == #[trigger] fmts[k + 1]);
        assert(fmts.skip(1).skip(i - 1) =~= fmts.skip(i));
    } else {
        assert(fmts.skip(0) =~= fmts);
    }
}

/// Runs the offset-carrying templates in order.
pub(crate) fn run_fixed(s: &Vec<char>, fs: &Vec<&str>) -> (r: Option<DateTimeFixedOffset>)
    ensures
        r == first_fixed(s@, fs@.map_values(|f: &str| f@)),
        r is Some ==> fields_fixed_ok(r->Some_0),
{
    let ghost g = fs@.map_values(|f: &str| f@);
    let mut i: usize = 0;
    while i < fs.len()
        invariant
            g == fs@.map_values(|f: &str| f@),
            i <= fs@.len(),
            forall|k: int| 0 <= k < i ==> format_parsed(s@, #[trigger] g[k]) is None,
        decreases fs@.len() - i,
    {
        let v = parse_fixed_format(s, fs[i]);
        if v.is_some() {
            proof {
                lemma_first_fixed_skip(s@, g, i as int);
                assert(g.skip(i as int)[0] == g[i as int]);
            }
            return v;
        }
        i += 1;
    }
    proof {
        lemma_first_fixed_skip(s@, g, i as int);
        assert(g.skip(i as int) =~= Seq::<Seq<char>>::empty());
    }
    None
}

/// Runs the naive date-and-time templates in order.
pub(crate) fn run_naive(s: &Vec<char>, fs: &Vec<&str>) -> (r: Option<NaiveFields>)
    ensures
        r == first_naive(s@, fs@.map_values(|f: &str| f@)),
        r is Some ==> fields_naive_ok(r->Some_0),
{
    let ghost g = fs@.map_values(|f: &str| f@);
    let mut i: usize = 0;
    while i < fs.len()
        invariant
            g == fs@.map_values(|f: &str| f@),
            i <= fs@.len(),
            forall|k: int| 0 <= k < i ==> naive_datetime_parsed(s@, #[trigger] g[k]) is None,
        decreases fs@.len() - i,
    {
        let v = parse_naive_datetime(s, fs[i]);
        if v.is_some() {
            proof {
                lemma_first_naive_skip(s@, g, i as int);
                assert(g.skip(i as int)[0] == g[i as int]);
            }
            return v;
        }
        i += 1;
    }
    proof {
        lemma_first_naive_skip(s@, g, i as int);
        assert(g.skip(i as int) =~= Seq::<Seq<char>>::empty());
    }
    None
}

/// Runs the date-only templates in order.
pub(crate) fn run_date(s: &Vec<char>, fs: &Vec<&str>) -> (r: Option<DateParts>)
    ensures
        r == first_date(s@, fs@.map_values(|f: &str| f@)),
        r is Some ==> crate::model::valid_date(r->Some_0),
{
    let ghost g = fs@.map_values(|f: &str| f@);
    let mut i: usize = 0;
    while i < fs.len()
        invariant
            g == fs@.map_values(|f: &str| f@),
            i <= fs@.len(),
            forall|k: int| 0 <= k < i ==> naive_date_parsed(s@, #[trigger] g[k]) is None,
        decreases fs@.len() - i,
    {
        let v = parse_naive_date(s, fs[i]);
        if v.is_some() {
            proof {
                lemma_first_date_skip(s@, g, i as int);
                assert(g.skip(i as int)[0] == g[i as int]);
            }
            return v;
        }
        i += 1;
    }
    proof {
        lemma_first_date_skip(s@, g, i as int);
        assert(g.skip(i as int) =~= Seq::<Seq<char>>::empty());
    }
    None
}

/// Runs the time-only templates in order.
pub(crate) fn run_time(s: &Vec<char>, fs: &Vec<&str>) -> (r: Option<TimeParts>)
    ensures
        r == first_time(s@, fs@.map_values(|f: &str| f@)),
        r is Some ==> valid_time(r->Some_0),
{
    let ghost g = fs@.map_values(|f: &str| f@);
    let mut i: usize = 0;
    while i < fs.len()
        invariant
            g == fs@.map_values(|f: &str| f@),
            i <= fs@.len(),
            forall|k: int| 0 <= k < i ==> naive_time_parsed(s@, #[trigger] g[k]) is None,
        decreases fs@.len() - i,
    {
        let v = parse_naive_time(s, fs[i]);
        if v.is_some() {
            proof {
                lemma_first_time_skip(s@, g, i as int);
                assert(g.skip(i as int)[0] == g[i as int]);
            }
            return v;
        }
        i += 1;
    }
    proof {
        lemma_first_time_skip(s@, g, i as int);
        assert(g.skip(i as int) =~= Seq::<Seq<char>>::empty());
    }
    None
}

/// Keeps a parsed instant only when it satisfies the result invariant.
pub(crate) fn accept_fixed(v: Option<DateTimeFixedOffset>) -> (r: Option<DateTimeFixedOffset>)
    requires
        v is Some ==> fields_fixed_ok(v->Some_0),
    ensures
        r == clamp_fixed(v),
{
    match v {
        Some(f) => {
            if 0 <= f.date.year && f.date.year <= 9999 && f.offset_seconds % 60 == 0 {
                Some(f)
            } else {
                None
            }
        },
        None => None,
    }
}

/// Joins naive fields with the borrowed offset, keeping the result only
/// when it satisfies the invariant.
pub(crate) fn accept_naive(v: Option<NaiveFields>, off: i32) -> (r: Option<DateTimeFixedOffset>)
    requires
        v is Some ==> fields_naive_ok(v->Some_0),
        -86399 <= off <= 86399,
        off as int % 60 == 0,
    ensures
        r == clamp_naive(v, off as int),
{
    match v {
        Some(f) => {
            if 0 <= f.date.year && f.date.year <= 9999 {
                Some(DateTimeFixedOffset { date: f.date, time: f.time, offset_seconds: off })
            } else {
                None
            }
        },
        None => None,
    }
}

/// Templates of the strict numeric-offset family, tried after the RFC 3339
/// and RFC 2822 entry points.
pub open spec fn strict_fmts() -> Seq<Seq<char>> {
    seq![
        "%+"@,
        "%Y-%m-%dT%T%.f%z"@,
        "%Y-%m-%d %T%#z"@,
        "%Y-%m-%d %T.%f%#z"@,
        "%B %d, %Y; %T %#z"@,
        "%B %d, %Y; %T.%f%#z"@,
        "%B %d %Y %T %#z"@,
        "%B %d %Y %T.%f%#z"@,
        "%B, %d %Y %T %#z"@,
        "%B, %d %Y %T.%f%#z"@,
        "%A, %d %B %Y %T.%f%#z"@,
        "%A %d %B %Y %T.%f%#z"@,
        "%A, %d %B %Y %T %#z"@,
        "%A %d %B %Y %T %#z"@,
    ]
}

fn strict_fmt_list() -> (r: Vec<&'static str>)
    ensures
        r@.map_values(|f: &str| f@) == strict_fmts(),
{
    let mut v: Vec<&str> = Vec::new();
    v.push("%+");
    v.push("%Y-%m-%dT%T%.f%z");
    v.push("%Y-%m-%d %T%#z");
    v.push("%Y-%m-%d %T.%f%#z");
    v.push("%B %d, %Y; %T %#z");
    v.push("%B %d, %Y; %T.%f%#z");
    v.push("%B %d %Y %T %#z");
    v.push("%B %d %Y %T.%f%#z");
    v.push("%B, %d %Y %T %#z");
    v.push("%B, %d %Y %T.%f%#z");
    v.push("%A, %d %B %Y %T.%f%#z");
    v.push("%A %d %B %Y %T.%f%#z");
    v.push("%A, %d %B %Y %T %#z");
    v.push("%A %d %B %Y %T %#z");
    assert(v@.map_values(|f: &str| f@) =~= strict_fmts());
    v
}

/// Templates of the local-implied family: the same grammars without any
/// offset token, including the month-first numeric forms.
pub open spec fn local_fmts() -> Seq<Seq<char>> {
    seq![
        "%Y-%m-%dT%T"@,
        "%c"@,
        "%Y-%m-%dT%T.%f"@,
        "%Y-%m-%d %T"@,
        "%Y-%m-%d %T.%f"@,
        "%B %d %Y %T"@,
        "%B %d %Y %T.%f"@,
        "%B %d, %Y %T"@,
        "%B %d, %Y %T.%f"@,
        "%A, %d %B %Y %T.%f"@,
        "%A %d %B %Y %T.%f"@,
        "%A, %d %B %Y %T"@,
        "%A %d %B %Y %T"@,
        "%A %d %B %Y %I:%M%P"@,
        "%A %d %B %Y %I:%M %P"@,
        "%A %d %B %Y %I:%M:%S%P"@,
        "%A %d %B %Y %I:%M:%S %P"@,
        "%A, %d %B %Y %I:%M%P"@,
        "%A, %d %B %Y %I:%M %P"@,
        "%A, %d %B %Y %I:%M:%S%P"@,
        "%A, %d %B %Y %I:%M:%S %P"@,
        "%A %d %m %Y %I:%M%P"@,
        "%A %d %m %Y %I:%M %P"@,
        "%A %d %m %Y %I:%M:%S%P"@,
        "%A %d %m %Y %I:%M:%S %P"@,
        "%A, %d %m %Y %I:%M%P"@,
        "%A, %d %m %Y %I:%M %P"@,
        "%A, %d %m %Y %I:%M:%S%P"@,
        "%A, %d %m %Y %I:%M:%S %P"@,
        "%d %B %Y %I:%M%P"@,
        "%d %B %Y %I:%M %P"@,
        "%d %B %Y %I:%M:%S%P"@,
        "%d %B %Y %I:%M:%S %P"@,
        "%d %m %Y %I:%M%P"@,
        "%d %m %Y %I:%M %P"@,
        "%d %m %Y %I:%M:%S%P"@,
        "%d %m %Y %I:%M:%S %P"@,
        "%m-%d-%Y %T"@,
        "%m-%d-%Y %I:%M:%S %P"@,
        "%m-%d-%Y %I:%M %P"@,
        "%m-%d-%Y %H:%M"@,
    ]
}

#[verifier::rlimit(100)]
fn local_fmt_list() -> (r: Vec<&'static str>)
    ensures
        r@.map_values(|f: &str| f@) == local_fmts(),
{
    let mut v: Vec<&str> = Vec::new();
    v.push("%Y-%m-%dT%T");
    v.push("%c");
    v.push("%Y-%m-%dT%T.%f");
    v.push("%Y-%m-%d %T");
    v.push("%Y-%m-%d %T.%f");
    v.push("%B %d %Y %T");
    v.push("%B %d %Y %T.%f");
    v.push("%B %d, %Y %T");
    v.push("%B %d, %Y %T.%f");
    v.push("%A, %d %B %Y %T.%f");
    v.push("%A %d %B %Y %T.%f");
    v.push("%A, %d %B %Y %T");
    v.push("%A %d %B %Y %T");
    v.push("%A %d %B %Y %I:%M%P");
    v.push("%A %d %B %Y %I:%M %P");
    v.push("%A %d %B %Y %I:%M:%S%P");
    v.push("%A %d %B %Y %I:%M:%S %P");
    v.push("%A, %d %B %Y %I:%M%P");
    v.push("%A, %d %B %Y %I:%M %P");
    v.push("%A, %d %B %Y %I:%M:%S%P");
    v.push("%A, %d %B %Y %I:%M:%S %P");
    v.push("%A %d %m %Y %I:%M%P");
    v.push("%A %d %m %Y %I:%M %P");
    v.push("%A %d %m %Y %I:%M:%S%P");
    v.push("%A %d %m %Y %I:%M:%S %P");
    v.push("%A, %d %m %Y %I:%M%P");
    v.push("%A, %d %m %Y %I:%M %P");
    v.push("%A, %d %m %Y %I:%M:%S%P");
    v.push("%A, %d %m %Y %I:%M:%S %P");
    v.push("%d %B %Y %I:%M%P");
    v.push("%d %B %Y %I:%M %P");
    v.push("%d %B %Y %I:%M:%S%P");
    v.push("%d %B %Y %I:%M:%S %P");
    v.push("%d %m %Y %I:%M%P");
    v.push("%d %m %Y %I:%M %P");
    v.push("%d %m %Y %I:%M:%S%P");
    v.push("%d %m %Y %I:%M:%S %P");
    v.push("%m-%d-%Y %T");
    v.push("%m-%d-%Y %I:%M:%S %P");
    v.push("%m-%d-%Y %I:%M %P");
    v.push("%m-%d-%Y %H:%M");
    assert(v@.map_values(|f: &str| f@) =~= local_fmts());
    v
}

/// Templates of the date-only family, numeric and textual-month.
pub open spec fn date_fmts() -> Seq<Seq<char>> {
    seq![
        "%Y-%m-%d"@,
        "%m-%d-%y"@,
        "%D"@,
        "%v"@,
        "%B %d %Y"@,
        "%B, %d %Y"@,
        "%d %B %Y"@,
        "%d %B, %Y"@,
    ]
}

fn date_fmt_list() -> (r: Vec<&'static str>)
    ensures
        r@.map_values(|f: &str| f@) == date_fmts(),
{
    let mut v: Vec<&str> = Vec::new();
    v.push("%Y-%m-%d");
    v.push("%m-%d-%y");
    v.push("%D");
    v.push("%v");
    v.push("%B %d %Y");
    v.push("%B, %d %Y");
    v.push("%d %B %Y");
    v.push("%d %B, %Y");
    assert(v@.map_values(|f: &str| f@) =~= date_fmts());
    v
}

/// Templates of the time-only family.
pub open spec fn time_fmts() -> Seq<Seq<char>> {
    seq!["%T"@, "%I:%M%P"@, "%I:%M %P"@]
}

fn time_fmt_list() -> (r: Vec<&'static str>)
    ensures
        r@.map_values(|f: &str| f@) == time_fmts(),
{
    let mut v: Vec<&str> = Vec::new();
    v.push("%T");
    v.push("%I:%M%P");
    v.push("%I:%M %P");
    assert(v@.map_values(|f: &str| f@) =~= time_fmts());
    v
}

/// Time templates tried on the remainder of an alpha-timezone split.
pub open spec fn alpha_time_fmts() -> Seq<Seq<char>> {
    seq!["%H:%M:%S"@, "%I:%M%P"@, "%I:%M %P"@, "%H:%M"@]
}

fn alpha_time_fmt_list() -> (r: Vec<&'static str>)
    ensures
        r@.map_values(|f: &str| f@) == alpha_time_fmts(),
{
    let mut v: Vec<&str> = Vec::new();
    v.push("%H:%M:%S");
    v.push("%I:%M%P");
    v.push("%I:%M %P");
    v.push("%H:%M");
    assert(v@.map_values(|f: &str| f@) =~= alpha_time_fmts());
    v
}

/// Naive date-and-time templates tried on the remainder of an
/// alpha-timezone split.
pub open spec fn alpha_dt_fmts() -> Seq<Seq<char>> {
    seq![
        "%Y-%m-%d %H:%M:%S"@,
        "%Y-%m-%d %I:%M%P"@,
        "%Y-%m-%d %I:%M %P"@,
        "%Y-%m-%d %H:%M"@,
        "%d %B, %Y %T"@,
        "%d %B, %Y %T.%f"@,
        "%d %B %Y %T"@,
        "%d %B %Y %T.%f"@,
        "%B %d, %Y %H:%M"@,
        "%B %d %Y %H:%M"@,
        "%B %d, %Y %T"@,
        "%B %d, %Y %T.%f"@,
        "%B %d %Y; %T"@,
        "%B %d, %Y; %T"@,
        "%B %d, %Y; %T.%f"@,
        "%B %d %Y %T"@,
        "%B %d %Y %T.%f"@,
        "%A, %B %d %Y %T.%f"@,
        "%A, %B %d %Y %T"@,
        "%A, %d %B %Y %T"@,
        "%A, %d %B %Y %T.%f"@,
        "%A %B %d %Y %T.%f"@,
        "%A %B %d %Y %T"@,
        "%A %d %B %Y %T"@,
        "%A %d %B %Y %T.%f"@,
        "%A, %d %m %Y %T.%f"@,
        "%A, %d %m %Y %T"@,
        "%A %d %m %Y %T.%f"@,
        "%A %d %m %Y %T"@,
    ]
}

#[verifier::rlimit(100)]
fn alpha_dt_fmt_list() -> (r: Vec<&'static str>)
    ensures
        r@.map_values(|f: &str| f@) == alpha_dt_fmts(),
{
    let mut v: Vec<&str> = Vec::new();
    v.push("%Y-%m-%d %H:%M:%S");
    v.push("%Y-%m-%d %I:%M%P");
    v.push("%Y-%m-%d %I:%M %P");
    v.push("%Y-%m-%d %H:%M");
    v.push("%d %B, %Y %T");
    v.push("%d %B, %Y %T.%f");
    v.push("%d %B %Y %T");
    v.push("%d %B %Y %T.%f");
    v.push("%B %d, %Y %H:%M");
    v.push("%B %d %Y %H:%M");
    v.push("%B %d, %Y %T");
    v.push("%B %d, %Y %T.%f");
    v.push("%B %d %Y; %T");
    v.push("%B %d, %Y; %T");
    v.push("%B %d, %Y; %T.%f");
    v.push("%B %d %Y %T");
    v.push("%B %d %Y %T.%f");
    v.push("%A, %B %d %Y %T.%f");
    v.push("%A, %B %d %Y %T");
    v.push("%A, %d %B %Y %T");
    v.push("%A, %d %B %Y %T.%f");
    v.push("%A %B %d %Y %T.%f");
    v.push("%A %B %d %Y %T");
    v.push("%A %d %B %Y %T");
    v.push("%A %d %B %Y %T.%f");
    v.push("%A, %d %m %Y %T.%f");
    v.push("%A, %d %m %Y %T");
    v.push("%A %d %m %Y %T.%f");
    v.push("%A %d %m %Y %T");
    assert(v@.map_values(|f: &str| f@) =~= alpha_dt_fmts());
    v
}

/// The strict numeric-offset family: RFC 3339, RFC 2822, then the explicit
/// offset templates, in that order.
pub open spec fn strict_spec(s: Seq<char>) -> Option<DateTimeFixedOffset> {
    let a = clamp_fixed(rfc3339_parsed(s));
    if a is Some {
        a
    } else {
        let b = clamp_fixed(rfc2822_parsed(s));
        if b is Some {
            b
        } else {
            clamp_fixed(first_fixed(s, strict_fmts()))
        }
    }
}

/// The local-implied family: the offset-free grammars, completed with the
/// clock's current offset.
pub open spec fn local_implied_spec(s: Seq<char>, ctx: LocalClockContext) -> Option<
    DateTimeFixedOffset,
> {
    clamp_naive(first_naive(s, local_fmts()), ctx.offset_seconds as int)
}

/// The date-only family: midnight of the written date, at the clock's
/// offset.
pub open spec fn date_only_spec(s: Seq<char>, ctx: LocalClockContext) -> Option<
    DateTimeFixedOffset,
> {
    match first_date(s, date_fmts()) {
        Some(d) => clamp_naive(
            Some(NaiveFields { date: d, time: midnight() }),
            ctx.offset_seconds as int,
        ),
        None => None,
    }
}

/// The time-only family: the written time on the clock's current date, at
/// the clock's offset.
pub open spec fn time_only_spec(s: Seq<char>, ctx: LocalClockContext) -> Option<
    DateTimeFixedOffset,
> {
    match first_time(s, time_fmts()) {
        Some(t) => clamp_naive(
            Some(NaiveFields { date: ctx.date, time: t }),
            ctx.offset_seconds as int,
        ),
        None => None,
    }
}

/// The alpha-timezone family: split off a trailing alphabetic token, parse
/// the remainder as a bare time (completed with the clock's date) or a
/// naive date-and-time, then recompose with the canonicalized token and let
/// the offset-name table decide.
pub open spec fn alpha_tz_spec(s: Seq<char>, ctx: LocalClockContext) -> Option<
    DateTimeFixedOffset,
> {
    match tz_split(s) {
        Some(p) => {
            let z = canonical_tz(p.1);
            match first_time(p.0, alpha_time_fmts()) {
                Some(t) => clamp_fixed(
                    rfc2822_parsed(rfc2822_line(NaiveFields { date: ctx.date, time: t }, z)),
                ),
                None => match first_naive(p.0, alpha_dt_fmts()) {
                    Some(f) => if 0 <= f.date.year <= 9999 {
                        clamp_fixed(rfc2822_parsed(rfc2822_line(f, z)))
                    } else {
                        None
                    },
                    None => None,
                },
            }
        },
        None => None,
    }
}

/// The epoch-numeral strategy: a pure digit string of exactly ten, thirteen,
/// sixteen or nineteen digits is read as epoch seconds, milliseconds,
/// microseconds or nanoseconds, at offset zero.
pub open spec fn epoch_spec(s: Seq<char>) -> Option<DateTimeFixedOffset> {
    if all_digits(s) && (s.len() == 10 || s.len() == 13 || s.len() == 16 || s.len() == 19) {
        let v = num_of_digits(s);
        let scale: int = if s.len() == 10 {
            1
        } else if s.len() == 13 {
            1000
        } else if s.len() == 16 {
            1000000
        } else {
            1000000000
        };
        let nano_unit: int = 1000000000int / scale;
        match epoch_civil(v / scale) {
            Some(f) => clamp_fixed(
                Some(
                    DateTimeFixedOffset {
                        date: f.date,
                        time: TimeParts {
                            hour: f.time.hour,
                            minute: f.time.minute,
                            second: f.time.second,
                            nanosecond: ((v % scale) * nano_unit) as u32,
                        },
                        offset_seconds: 0,
                    },
                ),
            ),
            None => None,
        }
    } else {
        None
    }
}

/// Strict numeric-offset strategies.  A text of the strict RFC 3339
/// grammar is always taken here, with exactly the fields written in it.
pub fn strict_family(s: &Vec<char>) -> (r: Option<DateTimeFixedOffset>)
    ensures
        r == strict_spec(s@),
        crate::rfc3339::is_valid_rfc3339(s@) ==> r == Some(crate::rfc3339::rfc3339_value(s@)),
{
    proof {
        if crate::rfc3339::is_valid_rfc3339(s@) {
            crate::rfc3339::lemma_valid_value_wf(s@);
        }
    }
    let a = accept_fixed(parse_rfc3339_text(s));
    if a.is_some() {
        return a;
    }
    let b = accept_fixed(parse_rfc2822_text(s));
    if b.is_some() {
        return b;
    }
    let fs = strict_fmt_list();
    accept_fixed(run_fixed(s, &fs))
}

/// Local-implied strategies.
pub fn local_implied_family(s: &Vec<char>, ctx: &LocalClockContext) -> (r: Option<
    DateTimeFixedOffset,
>)
    requires
        ctx.wf(),
    ensures
        r == local_implied_spec(s@, *ctx),
{
    let fs = local_fmt_list();
    accept_naive(run_naive(s, &fs), ctx.offset_seconds)
}

/// Date-only strategies.
pub fn date_only_family(s: &Vec<char>, ctx: &LocalClockContext) -> (r: Option<DateTimeFixedOffset>)
    requires
        ctx.wf(),
    ensures
        r == date_only_spec(s@, *ctx),
{
    let fs = date_fmt_list();
    match run_date(s, &fs) {
        Some(d) => accept_naive(
            Some(NaiveFields { date: d, time: TimeParts { hour: 0, minute: 0, second: 0, nanosecond: 0 } }),
            ctx.offset_seconds,
        ),
        None => None,
    }
}

/// Time-only strategies.
pub fn time_only_family(s: &Vec<char>, ctx: &LocalClockContext) -> (r: Option<DateTimeFixedOffset>)
    requires
        ctx.wf(),
    ensures
        r == time_only_spec(s@, *ctx),
{
    let fs = time_fmt_list();
    match run_time(s, &fs) {
        Some(t) => accept_naive(Some(NaiveFields { date: ctx.date, time: t }), ctx.offset_seconds),
        None => None,
    }
}

/// Alpha-timezone strategies.
pub fn alpha_tz_family(s: &Vec<char>, ctx: &LocalClockContext) -> (r: Option<DateTimeFixedOffset>)
    requires
        ctx.wf(),
    ensures
        r == alpha_tz_spec(s@, *ctx),
{
    match tz_split_chars(s) {
        Some((dt, z)) => {
            let z2 = canonize_tz(&z);
            let tf = alpha_time_fmt_list();
            match run_time(&dt, &tf) {
                Some(t) => {
                    let f = NaiveFields { date: ctx.date, time: t };
                    let line = compose_2822(&f, &z2);
                    accept_fixed(parse_rfc2822_text(&line))
                },
                None => {
                    let df = alpha_dt_fmt_list();
                    match run_naive(&dt, &df) {
                        Some(f) => {
                            if 0 <= f.date.year && f.date.year <= 9999 {
                                let line = compose_2822(&f, &z2);
                                accept_fixed(parse_rfc2822_text(&line))
                            } else {
                                None
                            }
                        },
                        None => None,
                    }
                },
            }
        },
        None => None,
    }
}

/// The epoch-numeral strategy.
pub fn epoch_family(s: &Vec<char>) -> (r: Option<DateTimeFixedOffset>)
    ensures
        r == epoch_spec(s@),
{
    let n = s.len();
    let mut i: usize = 0;
    let mut digits = true;
    while i < n
        invariant
            n == s@.len(),
            i <= n,
            digits == (forall|q: int| 0 <= q < i ==> crate::chars_util::is_digit_char(
                #[trigger] s@[q],
            )),
        decreases n - i,
    {
        if !is_digit(s[i]) {
            digits = false;
            assert(!crate::chars_util::is_digit_char(s@[i as int]));
            i = n;
        } else {
            i += 1;
        }
    }
    if !(digits && (n == 10 || n == 13 || n == 16 || n == 19)) {
        assert(!(all_digits(s@) && (s@.len() == 10 || s@.len() == 13 || s@.len() == 16 || s@.len()
            == 19)));
        return None;
    }
    assert(all_digits(s@));
    let v = num_from_digits(s);
    let scale: u64 = if n == 10 {
        1
    } else if n == 13 {
        1000
    } else if n == 16 {
        1000000
    } else {
        1000000000
    };
    let nano_unit: u64 = 1000000000 / scale;
    proof {
        reveal_with_fuel(crate::chars_util::pow10, 20);
        crate::chars_util::lemma_num_of_digits_bound(s@);
    }
    let secs = v / scale;
    let rem = v % scale;
    proof {
        if n == 10 {
            assert(scale == 1 && nano_unit == 1000000000 && rem == 0 && v < 10000000000);
        } else if n == 13 {
            assert(scale == 1000 && nano_unit == 1000000 && rem <= 999 && secs < 10000000000);
        } else if n == 16 {
            assert(scale == 1000000 && nano_unit == 1000 && rem <= 999999 && secs < 10000000000);
        } else {
            assert(scale == 1000000000 && nano_unit == 1 && rem <= 999999999 && secs
                < 10000000000);
        }
    }
    let nanos = rem * nano_unit;
    assert(nanos < 1000000000);
    match civil_from_epoch(secs as i64) {
        Some(f) => {
            let dt = DateTimeFixedOffset {
                date: f.date,
                time: TimeParts {
                    hour: f.time.hour,
                    minute: f.time.minute,
                    second: f.time.second,
                    nanosecond: nanos as u32,
                },
                offset_seconds: 0,
            };
            assert(fields_fixed_ok(dt));
            accept_fixed(Some(dt))
        },
        None => None,
    }
}

} // verus!
