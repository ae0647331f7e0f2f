//! Log line formatting: UTC timestamps, fixed-width level labels, and the
//! output encoding that keeps one message on one line.
//!
//! Opening, writing and rotating the log file is file I/O and stays with the
//! application shell; the decision of when a write must rotate first is here.
use vstd::prelude::*;

use crate::contract::LogLevel;
use crate::text::{dec, hex, push_char, push_decimal, push_hex_padded, push_padded, push_str, zero_pad};

verus! {

// ---------------------------------------------------------------------------
// Proleptic Gregorian calendar
// ---------------------------------------------------------------------------

/// Leap year rule of the Gregorian calendar.
pub open spec fn is_leap(year: int) -> bool {
    year % 4 == 0 && (year % 100 != 0 || year % 400 == 0)
}

/// Length of month `month` (1..=12) of `year`.
pub open spec fn days_in_month(year: int, month: int) -> int {
    if month == 2 {
        if is_leap(year) {
            29
        } else {
            28
        }
    } else if month == 4 || month == 6 || month == 9 || month == 11 {
        30
    } else {
        31
    }
}

/// Days of `year` before the first of `month`: the lengths of the earlier months.
pub open spec fn days_before_month(year: int, month: int) -> int
    decreases month,
{
    if month <= 1 {
        0
    } else {
        days_before_month(year, month - 1) + days_in_month(year, month - 1)
    }
}

/// Number of leap years among years `1..=n` (negated count of `n+1..=0` when `n < 0`).
pub open spec fn leap_years_through(n: int) -> int {
    n / 4 - n / 100 + n / 400
}

/// Days from 1970-01-01 to the first of January of `year`.
pub open spec fn days_before_year(year: int) -> int {
    365 * (year - 1970) + leap_years_through(year - 1) - leap_years_through(1969)
}

/// Day number of a date: days since 1970-01-01 (negative before it).
pub open spec fn day_number(year: int, month: int, day: int) -> int {
    days_before_year(year) + days_before_month(year, month) + day - 1
}

/// A calendar date that exists.
pub open spec fn valid_date(year: int, month: int, day: int) -> bool {
    1 <= month <= 12 && 1 <= day <= days_in_month(year, month)
}

/// The date whose day number is `days`.
pub open spec fn civil(days: int) -> (int, int, int) {
    choose|d: (int, int, int)| valid_date(d.0, d.1, d.2) && day_number(d.0, d.1, d.2) == days
}

/// Start of each month counted from the first of March (March = 0 … February = 11).
spec fn march_start(mp: int) -> int {
    if mp <= 0 {
        0
    } else if mp == 1 {
        31
    } else if mp == 2 {
        61
    } else if mp == 3 {
        92
    } else if mp == 4 {
        122
    } else if mp == 5 {
        153
    } else if mp == 6 {
        184
    } else if mp == 7 {
        214
    } else if mp == 8 {
        245
    } else if mp == 9 {
        275
    } else if mp == 10 {
        306
    } else if mp == 11 {
        337
    } else {
        366
    }
}

/// Days from the first of March of year 0 of a 400-year cycle to the first of
/// March of year `k` of that cycle.
spec fn cycle_year_start(k: int) -> int {
    365 * k + k / 4 - k / 100 + k / 400
}

proof fn lemma_days_before_month(year: int, month: int)
    requires
        1 <= month <= 12,
    ensures
        month >= 3 ==> days_before_month(year, month) == 59 + (if is_leap(year) { 1int } else {
            0
        }) + march_start(month - 3),
        month == 1 ==> days_before_month(year, month) == 0,
        month == 2 ==> days_before_month(year, month) == 31,
{
    reveal_with_fuel(days_before_month, 13);
}

#[verifier::spinoff_prover]
proof fn lemma_leap_step(n: int)
    ensures
        leap_years_through(n) - leap_years_through(n - 1) == if is_leap(n) { 1int } else { 0 },
{
    assert(n / 4 - (n - 1) / 4 == if n % 4 == 0 { 1int } else { 0 });
    assert(n / 100 - (n - 1) / 100 == if n % 100 == 0 { 1int } else { 0 });
    assert(n / 400 - (n - 1) / 400 == if n % 400 == 0 { 1int } else { 0 });
    if n % 400 == 0 {
        assert(n % 100 == 0 && n % 4 == 0);
    } else if n % 100 == 0 {
        assert(n % 4 == 0);
    }
}

proof fn lemma_cycle_shift(e: int, k: int)
    ensures
        leap_years_through(400 * e + k) == 97 * e + leap_years_through(k),
        is_leap(400 * e + k) == is_leap(k),
{
    assert((400 * e + k) / 4 == 100 * e + k / 4);
    assert((400 * e + k) / 100 == 4 * e + k / 100);
    assert((400 * e + k) / 400 == e + k / 400);
    assert((400 * e + k) % 4 == k % 4);
    assert((400 * e + k) % 100 == k % 100);
    assert((400 * e + k) % 400 == k % 400);
}

proof fn lemma_cycle_year_step(k: int)
    requires
        k >= 0,
    ensures
        cycle_year_start(k + 1) - cycle_year_start(k) == 365 + (if is_leap(k + 1) { 1int } else {
            0
        }),
        cycle_year_start(k) >= 365 * k,
{
    lemma_leap_step(k + 1);
    assert(k / 4 >= k / 100);
}

proof fn lemma_year_length(year: int)
    ensures
        days_before_year(year + 1) - days_before_year(year) == 365 + (if is_leap(year) {
            1int
        } else {
            0
        }),
{
    lemma_leap_step(year);
}

proof fn lemma_years_increase(a: int, b: int)
    requires
        a < b,
    ensures
        days_before_year(a + 1) <= days_before_year(b),
    decreases b - a,
{
    lemma_year_length(b - 1);
    if a + 1 < b {
        lemma_years_increase(a, b - 1);
    }
}

proof fn lemma_month_bounds(year: int, month: int)
    requires
        1 <= month <= 12,
    ensures
        days_before_month(year, month) >= 0,
        days_before_month(year, month) + days_in_month(year, month) <= 365 + (if is_leap(year) {
            1int
        } else {
            0
        }),
        forall|m2: int|
            month < m2 <= 12 ==> days_before_month(year, month) + days_in_month(year, month)
                <= #[trigger] days_before_month(year, m2),
{
    reveal_with_fuel(days_before_month, 13);
}

proof fn lemma_date_unique(y1: int, m1: int, d1: int, y2: int, m2: int, d2: int)
    requires
        valid_date(y1, m1, d1),
        valid_date(y2, m2, d2),
        day_number(y1, m1, d1) == day_number(y2, m2, d2),
    ensures
        y1 == y2 && m1 == m2 && d1 == d2,
{
    lemma_month_bounds(y1, m1);
    lemma_month_bounds(y2, m2);
    lemma_year_length(y1);
    lemma_year_length(y2);
    if y1 < y2 {
        lemma_years_increase(y1, y2);
    } else if y2 < y1 {
        lemma_years_increase(y2, y1);
    }
    assert(y1 == y2);
    if m1 < m2 {
        assert(days_before_month(y1, m1) + days_in_month(y1, m1) <= days_before_month(y1, m2));
    } else if m2 < m1 {
        assert(days_before_month(y1, m2) + days_in_month(y1, m2) <= days_before_month(y1, m1));
    }
}

proof fn lemma_civil_is(days: int, y: int, m: int, d: int)
    requires
        valid_date(y, m, d),
        day_number(y, m, d) == days,
    ensures
        civil(days) == (y, m, d),
{
    let w = (y, m, d);
    assert(valid_date(w.0, w.1, w.2) && day_number(w.0, w.1, w.2) == days);
    let c = civil(days);
    assert(valid_date(c.0, c.1, c.2) && day_number(c.0, c.1, c.2) == days);
    lemma_date_unique(c.0, c.1, c.2, y, m, d);
}

/// The 400-year cycle holding day `z` (counted from 0000-03-01) and the day
/// within that cycle.
fn cycle_of(z: i64) -> (r: (i64, i64))
    ensures
        r.0 == (z as int) / 146_097,
        r.1 == (z as int) % 146_097,
{
    if z >= 0 {
        (z / 146_097, z % 146_097)
    } else {
        let back: i64 = -(z + 1);
        let era: i64 = -(back / 146_097) - 1;
        let doe: i64 = 146_096 - back % 146_097;
        proof {
            vstd::arithmetic::div_mod::lemma_fundamental_div_mod_converse(
                z as int,
                146_097,
                era as int,
                doe as int,
            );
        }
        (era, doe)
    }
}

/// The year of the cycle holding day `doe` of the cycle: the last year that
/// starts on or before it.
fn year_of_cycle(doe: i64) -> (yoe: i64)
    requires
        0 <= doe <= 146_096,
    ensures
        0 <= yoe <= 399,
        cycle_year_start(yoe as int) <= doe < cycle_year_start(yoe + 1),
{
    let mut yoe: i64 = doe / 365;
    proof {
        lemma_cycle_year_step(yoe as int + 1);
    }
    while 365 * yoe + yoe / 4 - yoe / 100 + yoe / 400 > doe
        invariant
            0 <= doe <= 146_096,
            0 <= yoe <= 401,
            cycle_year_start(yoe + 1) > doe,
        decreases yoe,
    {
        assert(yoe > 0);
        yoe = yoe - 1;
    }
    proof {
        if yoe >= 400 {
            assert(cycle_year_start(400) == 146_097);
            lemma_cycle_start_monotone(400, yoe as int);
        }
    }
    yoe
}

/// The month (counted from March) holding day `doy` of a March-based year, and
/// the day on which it starts.
fn month_of_year(doy: i64) -> (r: (i64, i64))
    requires
        0 <= doy <= 365,
    ensures
        0 <= r.0 <= 11,
        r.1 == march_start(r.0 as int),
        r.1 <= doy < march_start(r.0 + 1),
{
    if doy < 31 {
        (0, 0)
    } else if doy < 61 {
        (1, 31)
    } else if doy < 92 {
        (2, 61)
    } else if doy < 122 {
        (3, 92)
    } else if doy < 153 {
        (4, 122)
    } else if doy < 184 {
        (5, 153)
    } else if doy < 214 {
        (6, 184)
    } else if doy < 245 {
        (7, 214)
    } else if doy < 275 {
        (8, 245)
    } else if doy < 306 {
        (9, 275)
    } else if doy < 337 {
        (10, 306)
    } else {
        (11, 337)
    }
}

/// The date assembled from a cycle, a year of the cycle and a day of that year
/// is the date with the matching day number.
proof fn lemma_assembled_date(e: int, k: int, doy: int, mp: int, year: int, month: int, day: int)
    requires
        0 <= k <= 399,
        0 <= doy < cycle_year_start(k + 1) - cycle_year_start(k),
        0 <= mp <= 11,
        march_start(mp) <= doy < march_start(mp + 1),
        day == doy - march_start(mp) + 1,
        month == if mp < 10 { mp + 3 } else { mp - 9 },
        year == 400 * e + k + (if month <= 2 { 1int } else { 0 }),
    ensures
        valid_date(year, month, day),
        day_number(year, month, day) == 146_097 * e + cycle_year_start(k) + doy - 719_468,
{
    lemma_cycle_year_step(k);
    lemma_cycle_shift(e, k);
    lemma_cycle_shift(e, k + 1);
    lemma_leap_step(400 * e + k);
    lemma_days_before_month(year, month);
}

/// Howard Hinnant's `civil_from_days`: the Gregorian date that lies `days`
/// days after 1970-01-01.
pub fn civil_from_days(days: i64) -> (r: (i64, u32, u32))
    requires
        days + 719_468 <= i64::MAX,
        days + 719_468 - 146_096 >= i64::MIN,
    ensures
        valid_date(r.0 as int, r.1 as int, r.2 as int),
        day_number(r.0 as int, r.1 as int, r.2 as int) == days,
        (r.0 as int, r.1 as int, r.2 as int) == civil(days as int),
{
    let z: i64 = days + 719_468;
    let (era, doe) = cycle_of(z);
    let yoe = year_of_cycle(doe);
    let doy: i64 = doe - (365 * yoe + yoe / 4 - yoe / 100 + yoe / 400);
    proof {
        lemma_cycle_year_step(yoe as int);
    }
    let (mp, start) = month_of_year(doy);
    let day: u32 = (doy - start + 1) as u32;
    let month: u32 = if mp < 10 {
        (mp + 3) as u32
    } else {
        (mp - 9) as u32
    };
    let year: i64 = if month <= 2 {
        yoe + era * 400 + 1
    } else {
        yoe + era * 400
    };
    proof {
        lemma_assembled_date(
            era as int,
            yoe as int,
            doy as int,
            mp as int,
            year as int,
            month as int,
            day as int,
        );
        lemma_civil_is(days as int, year as int, month as int, day as int);
    }
    (year, month, day)
}

proof fn lemma_cycle_start_monotone(a: int, b: int)
    requires
        0 <= a <= b,
    ensures
        cycle_year_start(a) <= cycle_year_start(b),
    decreases b - a,
{
    if a < b {
        lemma_cycle_year_step(b - 1);
        lemma_cycle_start_monotone(a, b - 1);
    }
}

// ---------------------------------------------------------------------------
// Timestamps and lines
// ---------------------------------------------------------------------------

/// A signed 64-bit reading of a second count (`u64 as i64`).
pub open spec fn as_signed(secs: u64) -> int {
    if secs > i64::MAX {
        secs - 0x1_0000_0000_0000_0000
    } else {
        secs as int
    }
}

/// `{:04}` of a signed year: the sign, then the digits padded so that the whole
/// field is at least four characters wide.
pub open spec fn year_text(year: int) -> Seq<char> {
    if year < 0 {
        seq!['-'] + zero_pad(dec((-year) as nat), 3)
    } else {
        zero_pad(dec(year as nat), 4)
    }
}

/// Two-digit field (`{:02}`).
pub open spec fn two(n: int) -> Seq<char> {
    zero_pad(dec(n as nat), 2)
}

/// `YYYY-MM-DD HH:MM:SS.mmmZ` (UTC) for a time `secs` seconds and `millis`
/// milliseconds after the Unix epoch.
pub open spec fn timestamp_text(secs: u64, millis: u32) -> Seq<char> {
    let s = as_signed(secs);
    let date = civil(s / 86_400);
    let tod = s % 86_400;
    year_text(date.0) + seq!['-'] + two(date.1) + seq!['-'] + two(date.2) + seq![' '] + two(
        tod / 3600,
    ) + seq![':'] + two((tod % 3600) / 60) + seq![':'] + two(tod % 60) + seq!['.'] + zero_pad(
        dec(millis as nat),
        3,
    ) + seq!['Z']
}

/// Splits a signed second count into the Euclidean day and second of day.
fn split_days(s: i64) -> (r: (i64, i64))
    ensures
        r.0 == (s as int) / 86_400,
        r.1 == (s as int) % 86_400,
{
    if s >= 0 {
        (s / 86_400, s % 86_400)
    } else {
        let back: i64 = -(s + 1);
        let d: i64 = -(back / 86_400) - 1;
        let t: i64 = 86_399 - back % 86_400;
        proof {
            vstd::arithmetic::div_mod::lemma_fundamental_div_mod_converse(
                s as int,
                86_400,
                d as int,
                t as int,
            );
        }
        (d, t)
    }
}

/// The signed reading of a second count.
fn signed_secs(secs: u64) -> (s: i64)
    ensures
        s == as_signed(secs),
{
    if secs > i64::MAX as u64 {
        let high: u64 = secs - (i64::MAX as u64) - 1;
        i64::MIN + (high as i64)
    } else {
        secs as i64
    }
}

/// Appends a year as `{:04}` does.
fn push_year(r: &mut String, year: i64)
    ensures
        final(r)@ == old(r)@ + year_text(year as int),
{
    if year < 0 {
        push_char(r, '-');
        let magnitude: u64 = (-(year + 1)) as u64 + 1;
        push_padded(r, magnitude, 3);
        assert(r@ =~= old(r)@ + year_text(year as int));
    } else {
        push_padded(r, year as u64, 4);
    }
}

/// Formats a UTC timestamp. `secs` and `millis` are the whole seconds and the
/// sub-second milliseconds since the Unix epoch.
#[verifier::rlimit(30)]
pub fn timestamp(secs: u64, millis: u32) -> (r: String)
    ensures
        r@ == timestamp_text(secs, millis),
{
    let s = signed_secs(secs);
    let (days, tod) = split_days(s);
    let (year, month, day) = civil_from_days(days);
    let mut r = String::new();
    push_year(&mut r, year);
    push_char(&mut r, '-');
    push_padded(&mut r, month as u64, 2);
    push_char(&mut r, '-');
    push_padded(&mut r, day as u64, 2);
    push_char(&mut r, ' ');
    push_padded(&mut r, (tod / 3600) as u64, 2);
    push_char(&mut r, ':');
    push_padded(&mut r, ((tod % 3600) / 60) as u64, 2);
    push_char(&mut r, ':');
    push_padded(&mut r, (tod % 60) as u64, 2);
    push_char(&mut r, '.');
    push_padded(&mut r, millis as u64, 3);
    push_char(&mut r, 'Z');
    assert(r@ =~= timestamp_text(secs, millis));
    r
}

/// The three digits of a millisecond count below 1000, hundreds first.
proof fn lemma_three_digits(m: nat)
    requires
        m < 1000,
    ensures
        zero_pad(dec(m), 3) == seq![
            ((m / 100) + 48) as char,
            (((m / 10) % 10) + 48) as char,
            ((m % 10) + 48) as char,
        ],
{
    reveal_with_fuel(dec, 3);
    if m < 10 {
        assert(zero_pad(dec(m), 3) =~= seq!['0', '0', ((m % 10) + 48) as char]);
    } else if m < 100 {
        assert(dec(m) =~= seq![((m / 10) + 48) as char, ((m % 10) + 48) as char]);
        assert(zero_pad(dec(m), 3) =~= seq![
            '0',
            (((m / 10) % 10) + 48) as char,
            ((m % 10) + 48) as char,
        ]);
    } else {
        assert(dec(m / 10) =~= seq![((m / 100) + 48) as char, (((m / 10) % 10) + 48) as char])
            by {
            assert(m / 10 / 10 == m / 100);
        }
        assert(zero_pad(dec(m), 3) =~= seq![
            ((m / 100) + 48) as char,
            (((m / 10) % 10) + 48) as char,
            ((m % 10) + 48) as char,
        ]);
    }
}

/// A timestamp ends in `.mmmZ`: three decimal digits whose value is the
/// millisecond count, hundreds first, for every count below 1000.
pub proof fn law_millisecond_field_is_exact(secs: u64, millis: u32)
    requires
        millis < 1000,
    ensures
        ({
            let t = timestamp_text(secs, millis);
            let n = t.len() as int;
            &&& n >= 5
            &&& t[n - 5] == '.'
            &&& t[n - 1] == 'Z'
            &&& '0' <= t[n - 4] <= '9'
            &&& '0' <= t[n - 3] <= '9'
            &&& '0' <= t[n - 2] <= '9'
            &&& (t[n - 4] as int - 48) * 100 + (t[n - 3] as int - 48) * 10 + (t[n - 2] as int - 48)
                == millis as int
        }),
{
    let m = millis as nat;
    lemma_three_digits(m);
    let s = as_signed(secs);
    let date = civil(s / 86_400);
    let tod = s % 86_400;
    let head = year_text(date.0) + seq!['-'] + two(date.1) + seq!['-'] + two(date.2) + seq![' ']
        + two(tod / 3600) + seq![':'] + two((tod % 3600) / 60) + seq![':'] + two(tod % 60);
    let tail = seq!['.', ((m / 100) + 48) as char, (((m / 10) % 10) + 48) as char, ((m % 10)
        + 48) as char, 'Z'];
    assert(timestamp_text(secs, millis) =~= head + tail);
    let t = timestamp_text(secs, millis);
    let n = t.len() as int;
    assert(t[n - 5] == tail[0]);
    assert(t[n - 4] == tail[1]);
    assert(t[n - 3] == tail[2]);
    assert(t[n - 2] == tail[3]);
    assert(t[n - 1] == tail[4]);
    assert(m == (m / 100) * 100 + ((m / 10) % 10) * 10 + m % 10);
}

/// Fixed-width level label (five characters, so the columns line up).
pub open spec fn spec_level_label(level: LogLevel) -> Seq<char> {
    match level {
        LogLevel::Info => "INFO "@,
        LogLevel::Warn => "WARN "@,
        LogLevel::Error => "ERROR"@,
    }
}

/// Fixed-width level label.
pub fn level_label(level: LogLevel) -> (r: &'static str)
    ensures
        r@ == spec_level_label(level),
{
    match level {
        LogLevel::Info => "INFO ",
        LogLevel::Warn => "WARN ",
        LogLevel::Error => "ERROR",
    }
}

/// One log line: timestamp, bracketed level, message, newline.
pub open spec fn line_text(secs: u64, millis: u32, level: LogLevel, message: Seq<char>) -> Seq<
    char,
> {
    timestamp_text(secs, millis) + seq![' ', '['] + spec_level_label(level) + seq![']', ' ']
        + message + seq!['\n']
}

/// Assembles a whole line (with its newline). The file and the on-screen log
/// share this text.
pub fn format_line(secs: u64, millis: u32, level: LogLevel, message: &str) -> (r: String)
    ensures
        r@ == line_text(secs, millis, level, message@),
{
    let mut r = timestamp(secs, millis);
    push_char(&mut r, ' ');
    push_char(&mut r, '[');
    push_str(&mut r, level_label(level));
    push_char(&mut r, ']');
    push_char(&mut r, ' ');
    push_str(&mut r, message);
    push_char(&mut r, '\n');
    assert(r@ =~= line_text(secs, millis, level, message@));
    r
}

/// Character limit of one message; longer messages are cut and marked.
pub const MAX_MESSAGE_CHARS: usize = 2_000;

/// Unicode general category `Cc` (`char::is_control`).
pub open spec fn is_control(c: char) -> bool {
    (c as u32) <= 0x1F || (0x7F <= (c as u32) && (c as u32) <= 0x9F)
}

/// The visible form of one character: `\n`, `\r` and `\t` as those two-character
/// escapes, other control characters as `\u{XXXX}`, everything else unchanged.
pub open spec fn escape(c: char) -> Seq<char> {
    if c == '\n' {
        seq!['\\', 'n']
    } else if c == '\r' {
        seq!['\\', 'r']
    } else if c == '\t' {
        seq!['\\', 't']
    } else if is_control(c) {
        seq!['\\', 'u', '{'] + zero_pad(hex(c as nat), 4) + seq!['}']
    } else {
        seq![c]
    }
}

/// The escapes of every character of `s`, in order.
pub open spec fn escape_all(s: Seq<char>) -> Seq<char>
    decreases s.len(),
{
    if s.len() == 0 {
        Seq::empty()
    } else {
        escape_all(s.drop_last()) + escape(s.last())
    }
}

/// The encoded message: the escapes of its first `MAX_MESSAGE_CHARS`
/// characters, followed by `…` when it was longer.
pub open spec fn sanitized(message: Seq<char>) -> Seq<char> {
    if message.len() > MAX_MESSAGE_CHARS {
        escape_all(message.take(MAX_MESSAGE_CHARS as int)) + seq!['…']
    } else {
        escape_all(message)
    }
}

/// Appends the visible form of one character.
fn push_escaped(out: &mut String, c: char)
    ensures
        final(out)@ == old(out)@ + escape(c),
{
    let code: u32 = c as u32;
    if c == '\n' {
        push_char(out, '\\');
        push_char(out, 'n');
    } else if c == '\r' {
        push_char(out, '\\');
        push_char(out, 'r');
    } else if c == '\t' {
        push_char(out, '\\');
        push_char(out, 't');
    } else if code <= 0x1F || (0x7F <= code && code <= 0x9F) {
        push_char(out, '\\');
        push_char(out, 'u');
        push_char(out, '{');
        push_hex_padded(out, code as u64, 4);
        push_char(out, '}');
    } else {
        push_char(out, c);
    }
    assert(out@ =~= old(out)@ + escape(c));
}

/// Output encoding of a log message: control characters become visible
/// escapes and over-long messages are truncated, so that one message always
/// stays on one line whatever text a remote peer put into it.
pub fn sanitize(message: &str) -> (r: String)
    ensures
        r@ == sanitized(message@),
{
    let mut out = String::new();
    let mut truncated = false;
    let mut seen: usize = 0;
    for c in it: message.chars()
        invariant
            it.seq() == message@,
            seen == if it.index() <= MAX_MESSAGE_CHARS { it.index() as int } else { MAX_MESSAGE_CHARS + 1 },
            it.index() <= MAX_MESSAGE_CHARS ==> out@ == escape_all(message@.take(it.index() as int)) && !truncated,
            it.index() > MAX_MESSAGE_CHARS ==> out@ == escape_all(message@.take(MAX_MESSAGE_CHARS as int)) && truncated,
    {
        let ghost before = out@;
        let ghost index = it.index();
        if seen < MAX_MESSAGE_CHARS {
            assert(message@.take(index + 1).drop_last() =~= message@.take(index as int));
            assert(message@[index as int] == c);
            push_escaped(&mut out, c);
            assert(out@ =~= before + escape(c));
            seen = seen + 1;
        } else {
            truncated = true;
            seen = MAX_MESSAGE_CHARS + 1;
        }
    }
    if truncated {
        push_char(&mut out, '…');
    }
    proof {
        if message@.len() <= MAX_MESSAGE_CHARS {
            assert(message@.take(message@.len() as int) =~= message@);
        }
    }
    assert(out@ =~= sanitized(message@));
    out
}

/// Whether a write of `length` bytes must rotate the file first: it would
/// take the bytes written so far past the limit.
pub open spec fn spec_rotation_due(written: u64, length: u64, limit: u64) -> bool {
    written + length > limit
}

/// Whether a write must rotate the file first.
pub fn rotation_due(written: u64, length: u64, limit: u64) -> (r: bool)
    ensures
        r == spec_rotation_due(written, length, limit),
{
    length > limit || written > limit - length
}

// ---------------------------------------------------------------------------
// Laws of the log line
// ---------------------------------------------------------------------------

/// No character of `s` is a control character.
pub open spec fn printable(s: Seq<char>) -> bool {
    forall|i: int| 0 <= i < s.len() ==> !is_control(#[trigger] s[i])
}

proof fn lemma_printable_concat(a: Seq<char>, b: Seq<char>)
    requires
        printable(a),
        printable(b),
    ensures
        printable(a + b),
{
    assert forall|i: int| 0 <= i < (a + b).len() implies !is_control(#[trigger] (a + b)[i]) by {
        if i >= a.len() {
            assert((a + b)[i] == b[i - a.len()]);
        }
    }
}

proof fn lemma_dec_printable(n: nat)
    ensures
        printable(dec(n)),
    decreases n,
{
    if n >= 10 {
        lemma_dec_printable(n / 10);
        lemma_printable_concat(dec(n / 10), seq![crate::text::digit(n % 10)]);
        assert(dec(n) == dec(n / 10) + seq![crate::text::digit(n % 10)]);
    }
}

proof fn lemma_hex_printable(n: nat)
    ensures
        printable(hex(n)),
    decreases n,
{
    if n >= 16 {
        lemma_hex_printable(n / 16);
        lemma_printable_concat(hex(n / 16), seq![crate::text::hex_digit(n % 16)]);
        assert(hex(n) == hex(n / 16) + seq![crate::text::hex_digit(n % 16)]);
    }
}

proof fn lemma_pad_printable(digits: Seq<char>, width: nat)
    requires
        printable(digits),
    ensures
        printable(zero_pad(digits, width)),
{
    if digits.len() < width {
        let z = crate::text::zeros((width - digits.len()) as nat);
        assert(printable(z));
        lemma_printable_concat(z, digits);
    }
}

proof fn lemma_escape_printable(c: char)
    ensures
        printable(escape(c)),
{
    if is_control(c) && c != '\n' && c != '\r' && c != '\t' {
        lemma_hex_printable(c as nat);
        lemma_pad_printable(hex(c as nat), 4);
        lemma_printable_concat(seq!['\\', 'u', '{'], zero_pad(hex(c as nat), 4));
        lemma_printable_concat(seq!['\\', 'u', '{'] + zero_pad(hex(c as nat), 4), seq!['}']);
    }
}

proof fn lemma_escape_all_printable(s: Seq<char>)
    ensures
        printable(escape_all(s)),
    decreases s.len(),
{
    if s.len() > 0 {
        lemma_escape_all_printable(s.drop_last());
        lemma_escape_printable(s.last());
        lemma_printable_concat(escape_all(s.drop_last()), escape(s.last()));
    }
}

/// A sanitized message holds no control character: whatever a remote error
/// text contains, it cannot break its log line or forge another one.
pub proof fn law_sanitized_text_is_printable(message: Seq<char>)
    ensures
        printable(sanitized(message)),
{
    if message.len() > MAX_MESSAGE_CHARS {
        lemma_escape_all_printable(message.take(MAX_MESSAGE_CHARS as int));
        lemma_printable_concat(escape_all(message.take(MAX_MESSAGE_CHARS as int)), seq!['…']);
    } else {
        lemma_escape_all_printable(message);
    }
}

proof fn lemma_timestamp_printable(secs: u64, millis: u32)
    ensures
        printable(timestamp_text(secs, millis)),
{
    let s = as_signed(secs);
    let date = civil(s / 86_400);
    let tod = s % 86_400;
    assert(printable(year_text(date.0))) by {
        if date.0 < 0 {
            lemma_dec_printable((-date.0) as nat);
            lemma_pad_printable(dec((-date.0) as nat), 3);
            lemma_printable_concat(seq!['-'], zero_pad(dec((-date.0) as nat), 3));
        } else {
            lemma_dec_printable(date.0 as nat);
            lemma_pad_printable(dec(date.0 as nat), 4);
        }
    }
    assert forall|n: int| printable(#[trigger] two(n)) by {
        lemma_dec_printable(n as nat);
        lemma_pad_printable(dec(n as nat), 2);
    }
    lemma_dec_printable(millis as nat);
    lemma_pad_printable(dec(millis as nat), 3);
    let parts = seq![
        year_text(date.0),
        seq!['-'],
        two(date.1),
        seq!['-'],
        two(date.2),
        seq![' '],
        two(tod / 3600),
        seq![':'],
        two((tod % 3600) / 60),
        seq![':'],
        two(tod % 60),
        seq!['.'],
        zero_pad(dec(millis as nat), 3),
        seq!['Z'],
    ];
    lemma_concat_printable(parts, 14);
    assert(concat_parts(parts, 14) =~= timestamp_text(secs, millis)) by {
        reveal_with_fuel(concat_parts, 15);
    }
}

proof fn lemma_concat_printable(parts: Seq<Seq<char>>, k: int)
    requires
        0 <= k <= parts.len(),
        forall|j: int| 0 <= j < parts.len() ==> printable(#[trigger] parts[j]),
    ensures
        printable(concat_parts(parts, k)),
    decreases k,
{
    if k > 0 {
        lemma_concat_printable(parts, k - 1);
        lemma_printable_concat(concat_parts(parts, k - 1), parts[k - 1]);
    }
}

/// The first `k` parts, end to end.
spec fn concat_parts(parts: Seq<Seq<char>>, k: int) -> Seq<char>
    decreases k,
{
    if k <= 0 {
        Seq::empty()
    } else {
        concat_parts(parts, k - 1) + parts[k - 1]
    }
}

/// A log line of a sanitized message is exactly one line: it ends with a line
/// break and holds no other.
pub proof fn law_one_message_one_line(secs: u64, millis: u32, level: LogLevel, message: Seq<char>)
    ensures
        ({
            let line = line_text(secs, millis, level, sanitized(message));
            &&& line.len() > 0
            &&& line.last() == '\n'
            &&& forall|i: int| 0 <= i < line.len() - 1 ==> line[i] != '\n'
        }),
{
    let body = timestamp_text(secs, millis) + seq![' ', '['] + spec_level_label(level) + seq![
        ']',
        ' ',
    ] + sanitized(message);
    lemma_timestamp_printable(secs, millis);
    law_sanitized_text_is_printable(message);
    assert(printable(spec_level_label(level))) by {
        reveal_strlit("INFO ");
        reveal_strlit("WARN ");
        reveal_strlit("ERROR");
    }
    lemma_printable_concat(timestamp_text(secs, millis), seq![' ', '[']);
    lemma_printable_concat(timestamp_text(secs, millis) + seq![' ', '['], spec_level_label(level));
    lemma_printable_concat(
        timestamp_text(secs, millis) + seq![' ', '['] + spec_level_label(level),
        seq![']', ' '],
    );
    lemma_printable_concat(
        timestamp_text(secs, millis) + seq![' ', '['] + spec_level_label(level) + seq![']', ' '],
        sanitized(message),
    );
    let line = line_text(secs, millis, level, sanitized(message));
    assert(line =~= body + seq!['\n']);
    assert forall|i: int| 0 <= i < line.len() - 1 implies line[i] != '\n' by {
        assert(line[i] == body[i]);
        assert(!is_control(body[i]));
    }
}

proof fn lemma_escape_len(c: char)
    ensures
        1 <= escape(c).len() <= 8,
{
    if is_control(c) && c != '\n' && c != '\r' && c != '\t' {
        let n = c as nat;
        assert(n < 256);
        assert(hex(n).len() <= 2) by {
            reveal_with_fuel(hex, 3);
            if n >= 16 {
                assert(n / 16 < 16);
                assert(hex(n) == hex(n / 16).push(crate::text::hex_digit(n % 16)));
            }
        }
        assert(zero_pad(hex(n), 4).len() == 4);
    }
}

proof fn lemma_escape_all_len(s: Seq<char>)
    ensures
        s.len() <= escape_all(s).len() <= 8 * s.len(),
    decreases s.len(),
{
    if s.len() > 0 {
        lemma_escape_all_len(s.drop_last());
        lemma_escape_len(s.last());
    }
}

/// A sanitized message is bounded: at most eight characters for each of the
/// first [`MAX_MESSAGE_CHARS`] characters of the message, plus the cut mark.
pub proof fn law_sanitized_text_is_bounded(message: Seq<char>)
    ensures
        sanitized(message).len() <= 8 * MAX_MESSAGE_CHARS + 1,
{
    if message.len() > MAX_MESSAGE_CHARS {
        lemma_escape_all_len(message.take(MAX_MESSAGE_CHARS as int));
    } else {
        lemma_escape_all_len(message);
    }
}

// ---------------------------------------------------------------------------
// Log file bookkeeping
// ---------------------------------------------------------------------------

/// Size limit of the log file before it is archived.
pub const MAX_LOG_BYTES: u64 = 4_194_304;

/// What the log writer knows of its file: bytes written into it and the size
/// at which it is archived.
#[derive(Debug, Clone, Copy, PartialEq, Eq, Structural)]
pub struct Ledger {
    pub written: u64,
    pub limit: u64,
}

impl Ledger {
    /// A file that already holds `length` bytes.
    pub fn new(length: u64, limit: u64) -> (r: Self)
        ensures
            r == (Ledger { written: length, limit }),
    {
        Ledger { written: length, limit }
    }

    /// Whether a line of `length` bytes must wait for the file to be archived.
    pub fn must_rotate(&self, length: u64) -> (r: bool)
        ensures
            r == spec_rotation_due(self.written, length, self.limit),
    {
        rotation_due(self.written, length, self.limit)
    }

    /// The file was archived (`archived`), or archiving failed and writing
    /// goes on in the same file, which holds `length` bytes: logs may then
    /// exceed the limit, but none is lost.
    pub fn rotated(&mut self, archived: bool, length: u64)
        ensures
            final(self).limit == old(self).limit,
            final(self).written == if archived {
                0
            } else {
                length
            },
    {
        self.written = if archived {
            0
        } else {
            length
        };
    }

    /// A line of `length` bytes was written.
    pub fn wrote(&mut self, length: u64)
        requires
            old(self).written + length <= u64::MAX,
        ensures
            *final(self) == (Ledger { written: (old(self).written + length) as u64, ..*old(self) }),
    {
        self.written = self.written + length;
    }
}

} // verus!
