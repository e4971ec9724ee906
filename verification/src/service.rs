//! Time stamps written with persisted rows, and the locations of the files
//! that the dashboard reads.
use vstd::prelude::*;
use crate::text::{zero_padded, decimal, push_zero_padded, push_decimal, string_of, chars_of, join_chars};
use crate::model::now_ms;

verus! {

broadcast use vstd::string::group_string_axioms;

/// Gregorian leap year.
pub open spec fn leap(y: int) -> bool {
    (y % 4 == 0 && y % 100 != 0) || y % 400 == 0
}

/// Whether `y` is a leap year.
pub fn is_leap(y: u64) -> (r: bool)
    ensures
        r == leap(y as int),
{
    (y % 4 == 0 && y % 100 != 0) || y % 400 == 0
}

pub open spec fn year_days(y: int) -> int {
    if leap(y) { 366 } else { 365 }
}

fn days_in(y: u64) -> (r: u64)
    ensures
        r as int == year_days(y as int),
{
    if is_leap(y) { 366 } else { 365 }
}

/// Counting `d` down by whole years from year `y`: the year reached and what is left.
pub open spec fn year_split(d: int, y: int) -> (int, int)
    decreases d,
{
    if d < year_days(y) { (y, d) } else { year_split(d - year_days(y), y + 1) }
}

pub open spec fn month_lengths(leap_year: bool) -> Seq<int> {
    seq![31, if leap_year { 29 } else { 28 }, 31, 30, 31, 30, 31, 31, 30, 31, 30, 31]
}

/// Counting `d` down by the month lengths `ms` from month index `k`: the
/// month number reached (1-based) and what is left.
pub open spec fn month_split(d: int, ms: Seq<int>, k: int) -> (int, int)
    decreases ms.len() - k,
{
    if k < 0 || k >= ms.len() || d < ms[k] { (k + 1, d) } else { month_split(d - ms[k], ms, k + 1) }
}

/// The stamp text of `secs` seconds since 1970-01-01T00:00:00Z:
/// `YYYY-MM-DDTHH:MM:SSZ`. The time of day is UTC; the date part is got by
/// counting the seconds count itself down through the years from 1970 and
/// then through the months of the year reached.
pub open spec fn stamp_spec(secs: nat) -> Seq<char> {
    let (year, rest) = year_split(secs as int, 1970);
    let (month, left) = month_split(rest, month_lengths(leap(year)), 0);
    let tod = secs % 86400;
    zero_padded(year as nat, 4) + seq!['-'] + zero_padded(month as nat, 2) + seq!['-'] + zero_padded((left + 1) as nat, 2)
        + seq!['T'] + zero_padded(tod / 3600, 2) + seq![':'] + zero_padded((tod % 3600) / 60, 2) + seq![':']
        + zero_padded(tod % 60, 2) + seq!['Z']
}

proof fn lemma_year_split_nonneg(d: int, y: int)
    requires
        d >= 0,
    ensures
        0 <= year_split(d, y).1 < year_days(year_split(d, y).0),
        year_split(d, y).0 >= y,
    decreases d,
{
    if d >= year_days(y) {
        lemma_year_split_nonneg(d - year_days(y), y + 1);
    }
}

/// The stamp text of `secs` seconds since the epoch.
pub fn stamp_of(secs: u64) -> (r: String)
    ensures
        r@ == stamp_spec(secs as nat),
{
    let mut d: u64 = secs;
    let mut year: u64 = 1970;
    while d >= days_in(year)
        invariant
            d <= secs,
            year >= 1970,
            (year - 1970) * 365 <= secs - d,
            year_split(secs as int, 1970) == year_split(d as int, year as int),
        decreases d,
    {
        d = d - days_in(year);
        year = year + 1;
    }
    proof { lemma_year_split_nonneg(secs as int, 1970); }
    let leap_year = is_leap(year);
    let md: Vec<u64> = vec![31, if leap_year { 29 } else { 28 }, 31, 30, 31, 30, 31, 31, 30, 31, 30, 31];
    let ghost ms = month_lengths(leap(year as int));
    assert(forall|k: int| 0 <= k < 12 ==> md@[k] as int == #[trigger] ms[k]);
    let mut month: u64 = 1;
    let mut k: usize = 0;
    while k < 12 && d >= md[k]
        invariant
            k <= 12,
            d < 366,
            md@.len() == 12,
            ms.len() == 12,
            forall|j: int| 0 <= j < 12 ==> md@[j] as int == #[trigger] ms[j],
            month == k + 1,
            month_split(year_split(secs as int, 1970).1, ms, 0) == month_split(d as int, ms, k as int),
        decreases 12 - k,
    {
        d = d - md[k];
        month = month + 1;
        k += 1;
    }
    let tod = secs % 86400;
    let mut out: Vec<char> = Vec::new();
    push_zero_padded(&mut out, year, 4);
    out.push('-');
    push_zero_padded(&mut out, month, 2);
    out.push('-');
    push_zero_padded(&mut out, d + 1, 2);
    out.push('T');
    push_zero_padded(&mut out, tod / 3600, 2);
    out.push(':');
    push_zero_padded(&mut out, (tod % 3600) / 60, 2);
    out.push(':');
    push_zero_padded(&mut out, tod % 60, 2);
    out.push('Z');
    string_of(&out)
}

/// Whole seconds since the epoch at clock reading `ms` (0 before the epoch).
pub open spec fn clock_secs(ms: int) -> nat {
    if ms < 0 { 0 } else { (ms / 1000) as nat }
}

/// The stamp text of the current time.
pub fn now_iso() -> (r: String)
    ensures
        exists|ms: i64| r@ == #[trigger] stamp_spec(clock_secs(ms as int)),
{
    let ms = now_ms();
    let secs: u64 = if ms < 0 { 0 } else { (ms / 1000) as u64 };
    assert(secs as nat == clock_secs(ms as int));
    stamp_of(secs)
}

/// The current time as decimal seconds since the epoch.
pub fn now_secs() -> (r: String)
    ensures
        exists|ms: i64| r@ == #[trigger] decimal(clock_secs(ms as int)),
{
    let ms = now_ms();
    let secs: u64 = if ms < 0 { 0 } else { (ms / 1000) as u64 };
    let mut out: Vec<char> = Vec::new();
    push_decimal(&mut out, secs);
    assert(out@ =~= decimal(clock_secs(ms as int)));
    string_of(&out)
}

/// The home directory to use: `$HOME` when it is set, else "/tmp".
pub open spec fn home_or_tmp(home: Option<Seq<char>>) -> Seq<char> {
    match home {
        Some(h) => h,
        None => "/tmp"@,
    }
}

/// Path of the hook status file under the home directory: the relative
/// path joined to the home directory, with a separator unless the home
/// directory is empty or already ends with one.
pub open spec fn last_status_path_spec(home: Option<Seq<char>>) -> Seq<char> {
    let h = home_or_tmp(home);
    let sep = if h.len() == 0 || h.last() == '/' { Seq::<char>::empty() } else { seq!['/'] };
    h + sep + ".config/orca/agent-hooks/last-status.json"@
}

/// Where the agents' hooks write their last status, given `$HOME` (None
/// when it is not set).
pub fn last_status_path(home: Option<&str>) -> (r: String)
    ensures
        r@ == last_status_path_spec(match home { Some(h) => Some(h@), None => None }),
{
    let mut base = match home { Some(h) => chars_of(h), None => chars_of("/tmp") };
    if base.len() > 0 && base[base.len() - 1] != '/' {
        base.push('/');
    }
    let p = join_chars(&base, &chars_of(".config/orca/agent-hooks/last-status.json"));
    string_of(&p)
}

} // verus!
