//! The launcher's own log: one line per entry, stamped with the UTC time
//! in civil form. The app appends and rotates the file.

use vstd::prelude::*;

use crate::text::{chars_of, decimal, decimal_chars, push_all, push_str, replace, string_of};

verus! {

/// Rotate the log once it grows past this many bytes.
pub const MAX_BYTES: u64 = 2097152;

/// A leap year of the Gregorian calendar.
pub open spec fn leap(y: int) -> bool {
    (y % 4 == 0 && y % 100 != 0) || y % 400 == 0
}

pub open spec fn year_len(y: int) -> int {
    if leap(y) {
        366
    } else {
        365
    }
}

/// Leap years from year 1 through `y`.
pub open spec fn leaps_through(y: int) -> int {
    y / 4 - y / 100 + y / 400
}

/// Days from 1970-01-01 to January 1st of `y`.
pub open spec fn days_before_year(y: int) -> int {
    365 * (y - 1970) + leaps_through(y - 1) - leaps_through(1969)
}

pub open spec fn month_len(y: int, m: int) -> int {
    if m == 2 {
        if leap(y) {
            29
        } else {
            28
        }
    } else if m == 4 || m == 6 || m == 9 || m == 11 {
        30
    } else {
        31
    }
}

/// Days from January 1st to the first of month `m` in year `y`.
pub open spec fn days_before_month(y: int, m: int) -> int
    decreases m,
{
    if m <= 1 {
        0
    } else {
        days_before_month(y, m - 1) + month_len(y, m - 1)
    }
}

/// The day number (days since 1970-01-01) of a date.
pub open spec fn day_number(y: int, m: int, d: int) -> int {
    days_before_year(y) + days_before_month(y, m) + d - 1
}

/// A real date of the calendar, from 1970 on.
pub open spec fn valid_date(y: int, m: int, d: int) -> bool {
    y >= 1970 && 1 <= m <= 12 && 1 <= d <= month_len(y, m)
}

/// `n` in decimal, zero-padded to `width` digits as `{:0width$}` writes it.
pub open spec fn padded(n: nat, width: nat) -> Seq<char> {
    let d = decimal(n);
    if d.len() >= width {
        d
    } else {
        Seq::new((width - d.len()) as nat, |i: int| '0') + d
    }
}

/// `YYYY-MM-DD HH:MM:SS`.
pub open spec fn stamp(y: nat, mo: nat, d: nat, h: nat, mi: nat, s: nat) -> Seq<char> {
    padded(y, 4) + "-"@ + padded(mo, 2) + "-"@ + padded(d, 2) + " "@ + padded(h, 2) + ":"@ + padded(mi, 2) + ":"@
        + padded(s, 2)
}

fn push_padded(out: &mut Vec<char>, n: u64, width: usize)
    requires
        width <= 8,
    ensures
        final(out)@ == old(out)@ + padded(n as nat, width as nat),
{
    let d = decimal_chars(n);
    let ghost o0 = out@;
    if d.len() < width {
        let zeros = width - d.len();
        let mut k: usize = 0;
        while k < zeros
            invariant
                k <= zeros,
                out@ == o0 + Seq::new(k as nat, |i: int| '0'),
            decreases zeros - k,
        {
            out.push('0');
            k = k + 1;
            assert(out@ =~= o0 + Seq::new(k as nat, |i: int| '0'));
        }
    }
    push_all(out, d.as_slice());
    assert(out@ =~= o0 + padded(n as nat, width as nat));
}

proof fn lemma_year_step(y: int)
    requires
        y >= 1970,
    ensures
        days_before_year(y + 1) == days_before_year(y) + year_len(y),
{
    assert(leaps_through(y) - leaps_through(y - 1) == (if leap(y) { 1int } else { 0int })) by (nonlinear_arith)
        requires
            y >= 1970,
    ;
}

proof fn lemma_cycle(y: int, k: int)
    requires
        y >= 1970,
        k >= 0,
    ensures
        days_before_year(y + 400 * k) == days_before_year(y) + 146097 * k,
{
    assert(leaps_through(y - 1 + 400 * k) == leaps_through(y - 1) + 97 * k) by (nonlinear_arith)
        requires
            y >= 1970,
            k >= 0,
    ;
}

proof fn lemma_months_fill_year(y: int)
    ensures
        days_before_month(y, 13) == year_len(y),
        forall|m: int| 1 <= m <= 12 ==> days_before_month(y, m) + month_len(y, m) == #[trigger] days_before_month(y, m + 1),
{
    reveal_with_fuel(days_before_month, 13);
}

fn year_len_of(y: u64) -> (r: u64)
    ensures
        r == year_len(y as int),
{
    if (y % 4 == 0 && y % 100 != 0) || y % 400 == 0 {
        366
    } else {
        365
    }
}

fn month_len_of(leap_y: bool, mo: u64) -> (r: u64)
    ensures
        forall|y: int| leap(y) == leap_y ==> r == month_len(y, mo as int),
{
    if mo == 2 {
        if leap_y {
            29
        } else {
            28
        }
    } else if mo == 4 || mo == 6 || mo == 9 || mo == 11 {
        30
    } else {
        31
    }
}

/// `t` is the time `secs` (seconds since the Unix epoch) written
/// `YYYY-MM-DD HH:MM:SS` in UTC.
pub open spec fn utc_stamp(secs: u64, t: Seq<char>) -> bool {
    exists|y: int, m: int, d: int|
        valid_date(y, m, d) && day_number(y, m, d) == secs / 86400 && t == stamp(
            y as nat,
            m as nat,
            d as nat,
            ((secs % 86400) / 3600) as nat,
            ((secs % 3600) / 60) as nat,
            (secs % 60) as nat,
        )
}

/// `YYYY-MM-DD HH:MM:SS` in UTC for a Unix time in seconds.
pub fn format_ts(secs: u64) -> (r: String)
    ensures
        utc_stamp(secs, r@),
        exists|y: int, m: int, d: int|
            valid_date(y, m, d) && day_number(y, m, d) == secs / 86400 && r@ == stamp(
                y as nat,
                m as nat,
                d as nat,
                ((secs % 86400) / 3600) as nat,
                ((secs % 3600) / 60) as nat,
                (secs % 60) as nat,
            ),
{
    let days: u64 = secs / 86400;
    let rem: u64 = secs % 86400;
    let h = rem / 3600;
    let mi = (rem % 3600) / 60;
    let s = rem % 60;
    assert(mi == (secs % 3600) / 60 && s == secs % 60) by (nonlinear_arith)
        requires
            rem == secs % 86400,
            mi == (rem % 3600) / 60,
            s == rem % 60,
    ;
    // Whole 400-year cycles first: each has the same number of days.
    let cycles: u64 = days / 146097;
    let mut left: u64 = days - cycles * 146097;
    let mut y: u64 = 1970 + cycles * 400;
    proof {
        lemma_cycle(1970, cycles as int);
        assert(days_before_year(1970) == 0);
    }
    assert(days_before_year(y as int) + left == days);
    assert(left < 146097);
    // Then single years: fewer than 400 of them.
    let ghost y0 = y as int;
    let mut ylen = year_len_of(y);
    while left >= ylen
        invariant
            ylen == year_len(y as int),
            y >= 1970,
            y0 <= y <= y0 + 400,
            y0 >= 1970,
            days_before_year(y as int) + left == days,
            days_before_year(y0) + 146097 > days,
            y + 400 < u64::MAX,
        decreases left,
    {
        proof {
            lemma_year_step(y as int);
            lemma_cycle(y0, 1);
        }
        left = left - ylen;
        y = y + 1;
        ylen = year_len_of(y);
        proof {
            if y > y0 + 400 {
                // 400 whole years are exactly one cycle, more than is left.
                assert(days_before_year(y as int) >= days_before_year(y0 + 400)) by {
                    lemma_before_year_mono(y0 + 400, y as int);
                }
            }
        }
    }
    // Then months: the twelve of them fill the year.
    proof {
        lemma_months_fill_year(y as int);
    }
    let leap_y = (y % 4 == 0 && y % 100 != 0) || y % 400 == 0;
    let mut mo: u64 = 1;
    assert(days_before_month(y as int, 1) == 0);
    let mut mlen = month_len_of(leap_y, mo);
    while left >= mlen
        invariant
            mlen == month_len(y as int, mo as int),
            1 <= mo <= 12,
            leap_y == leap(y as int),
            days_before_year(y as int) + days_before_month(y as int, mo as int) + left == days,
            days_before_month(y as int, mo as int) + left < year_len(y as int),
            days_before_month(y as int, 13) == year_len(y as int),
            forall|m: int| 1 <= m <= 12 ==> days_before_month(y as int, m) + month_len(y as int, m) == #[trigger] days_before_month(y as int, m + 1),
        decreases left,
    {
        assert(days_before_month(y as int, mo as int + 1) == days_before_month(y as int, mo as int) + mlen);
        left = left - mlen;
        mo = mo + 1;
        assert(mo <= 12);
        mlen = month_len_of(leap_y, mo);
    }
    let d = left + 1;
    let mut out: Vec<char> = Vec::new();
    push_padded(&mut out, y, 4);
    push_str(&mut out, "-");
    push_padded(&mut out, mo, 2);
    push_str(&mut out, "-");
    push_padded(&mut out, d, 2);
    push_str(&mut out, " ");
    push_padded(&mut out, h, 2);
    push_str(&mut out, ":");
    push_padded(&mut out, mi, 2);
    push_str(&mut out, ":");
    push_padded(&mut out, s, 2);
    assert(valid_date(y as int, mo as int, d as int));
    assert(day_number(y as int, mo as int, d as int) == secs / 86400);
    string_of(out.as_slice())
}

proof fn lemma_before_year_mono(a: int, b: int)
    requires
        1970 <= a <= b,
    ensures
        days_before_year(a) <= days_before_year(b),
    decreases b - a,
{
    if a < b {
        lemma_before_year_mono(a, b - 1);
        lemma_year_step(b - 1);
    }
}

proof fn lemma_months_mono(y: int, a: int, b: int)
    requires
        1 <= a <= b,
    ensures
        days_before_month(y, a) <= days_before_month(y, b),
    decreases b - a,
{
    if a < b {
        lemma_months_mono(y, a, b - 1);
        assert(days_before_month(y, b) == days_before_month(y, b - 1) + month_len(y, b - 1));
    }
}

/// A date's offset inside its year lies within the year, inside its month.
proof fn lemma_offset_in_month(y: int, m: int, d: int)
    requires
        valid_date(y, m, d),
    ensures
        0 <= days_before_month(y, m) <= days_before_month(y, m) + d - 1 < days_before_month(y, m + 1),
        days_before_month(y, m + 1) <= year_len(y),
{
    lemma_months_fill_year(y);
    lemma_months_mono(y, m + 1, 13);
    lemma_months_mono(y, 1, m);
}

/// Two dates of the calendar with the same day number are the same date, so
/// the time stamp of an instant is determined by it.
pub proof fn lemma_day_number_unique(y1: int, m1: int, d1: int, y2: int, m2: int, d2: int)
    requires
        valid_date(y1, m1, d1),
        valid_date(y2, m2, d2),
        day_number(y1, m1, d1) == day_number(y2, m2, d2),
    ensures
        y1 == y2 && m1 == m2 && d1 == d2,
{
    lemma_offset_in_month(y1, m1, d1);
    lemma_offset_in_month(y2, m2, d2);
    if y1 < y2 {
        lemma_year_step(y1);
        lemma_before_year_mono(y1 + 1, y2);
    } else if y2 < y1 {
        lemma_year_step(y2);
        lemma_before_year_mono(y2 + 1, y1);
    } else {
        if m1 < m2 {
            lemma_months_mono(y1, m1 + 1, m2);
        } else if m2 < m1 {
            lemma_months_mono(y1, m2 + 1, m1);
        }
    }
}

/// A log line: the time stamp, the level in brackets, and the message with
/// its newlines folded so every entry stays on one line.
pub fn log_line(secs: u64, level: &str, msg: &str) -> (r: String)
    ensures
        exists|t: Seq<char>| utc_stamp(secs, t) && r@ == t + " ["@ + level@ + "] "@ + replace(msg@, '\n', " | "@) + "\n"@,
{
    let ts = format_ts(secs);
    let mut out = chars_of(ts.as_str());
    push_str(&mut out, " [");
    push_str(&mut out, level);
    push_str(&mut out, "] ");
    let m = chars_of(msg);
    let sep = chars_of(" | ");
    let folded = crate::text::replace_chars(m.as_slice(), '\n', sep.as_slice());
    push_all(&mut out, folded.as_slice());
    push_str(&mut out, "\n");
    assert(out@ =~= ts@ + " ["@ + level@ + "] "@ + replace(msg@, '\n', " | "@) + "\n"@);
    string_of(out.as_slice())
}

} // verus!
