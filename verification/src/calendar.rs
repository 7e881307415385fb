//! Dates of the proleptic Gregorian calendar, and points in time in UTC.

use crate::text::{
    decimal, digit, digit_value, digits_value, fixed_decimal, push_decimal, push_fixed_decimal,
};
use vstd::arithmetic::div_mod::lemma_mod_multiples_vanish;
use vstd::prelude::*;
use vstd::string::*;

verus! {

/// Whether a year has a 29th of February.
pub open spec fn is_leap(year: int) -> bool {
    year % 4 == 0 && (year % 100 != 0 || year % 400 == 0)
}

/// The days of a month.
pub open spec fn days_in_month(year: int, month: int) -> int {
    if month == 2 {
        if is_leap(year) {
            29
        } else {
            28
        }
    } else if month == 4 || month == 6 || month == 9 || month == 11 {
        30
    } else {
        31
    }
}

/// Whether there is such a date.
pub open spec fn is_date(year: int, month: int, day: int) -> bool {
    1 <= month <= 12 && 1 <= day <= days_in_month(year, month)
}

/// The days from the first day of the year 1 up to the first day of a year.
pub open spec fn days_before_year(year: int) -> int {
    let past = year - 1;
    365 * past + past / 4 - past / 100 + past / 400
}

/// The days of a year before the first day of a month.
pub open spec fn days_before_month(year: int, month: int) -> int
    decreases month,
{
    if month <= 1 {
        0
    } else {
        days_before_month(year, month - 1) + days_in_month(year, month - 1)
    }
}

/// The days from the first of January 1970 up to a date.
pub open spec fn day_number(year: int, month: int, day: int) -> int {
    days_before_year(year) + days_before_month(year, month) + (day - 1) - 719162
}

/// Whether a date is the one on a day.
pub open spec fn falls_on(year: int, month: int, day: int, days: int) -> bool {
    is_date(year, month, day) && day_number(year, month, day) == days
}

/// Whether year, month and day are the date on a day, where of the year only the
/// lower 32 bits are given.
pub open spec fn is_date_of(days: int, date: (i32, u32, u32)) -> bool {
    exists|year: int| #[trigger]
        falls_on(year, date.1 as int, date.2 as int, days) && date.0 == year as i32
}

/// The date on a day.
pub open spec fn civil_date(days: int) -> (i32, u32, u32) {
    choose|date: (i32, u32, u32)| is_date_of(days, date)
}

proof fn lemma_civil_date(days: int, date: (i32, u32, u32))
    requires
        is_date_of(days, date),
    ensures
        civil_date(days) == date,
{
    let other = civil_date(days);
    assert(is_date_of(days, other));
    let y1 = choose|year: int| #[trigger]
        falls_on(year, date.1 as int, date.2 as int, days) && date.0 == year as i32;
    let y2 = choose|year: int| #[trigger]
        falls_on(year, other.1 as int, other.2 as int, days) && other.0 == year as i32;
    a_day_has_one_date(
        y1,
        date.1 as int,
        date.2 as int,
        y2,
        other.1 as int,
        other.2 as int,
    );
}

/// Every year has 365 days, a leap year one more.
pub proof fn years_follow_one_another(year: int)
    ensures
        days_before_year(year + 1) == days_before_year(year) + 365 + (if is_leap(year) {
            1int
        } else {
            0int
        }),
        days_before_month(year, 13) == 365 + (if is_leap(year) {
            1int
        } else {
            0int
        }),
        day_number(1970, 1, 1) == 0,
{
    lemma_month_table(year);
    lemma_year_step(year);
}

proof fn lemma_year_step(year: int)
    ensures
        days_before_year(year + 1) == days_before_year(year) + 365 + (if is_leap(year) {
            1int
        } else {
            0int
        }),
{
    lemma_quotient_step_4(year);
    lemma_quotient_step_100(year);
    lemma_quotient_step_400(year);
    lemma_multiples(year);
}

proof fn lemma_quotient_step_4(n: int)
    ensures
        n / 4 - (n - 1) / 4 == (if n % 4 == 0 {
            1int
        } else {
            0int
        }),
{
}

proof fn lemma_quotient_step_100(n: int)
    ensures
        n / 100 - (n - 1) / 100 == (if n % 100 == 0 {
            1int
        } else {
            0int
        }),
{
}

proof fn lemma_quotient_step_400(n: int)
    ensures
        n / 400 - (n - 1) / 400 == (if n % 400 == 0 {
            1int
        } else {
            0int
        }),
{
}

proof fn lemma_multiples(n: int)
    ensures
        n % 400 == 0 ==> n % 100 == 0,
        n % 100 == 0 ==> n % 4 == 0,
{
}

proof fn lemma_month_table(year: int)
    ensures
        ({
            let leap = if is_leap(year) {
                1int
            } else {
                0int
            };
            &&& days_before_month(year, 1) == 0
            &&& days_before_month(year, 2) == 31
            &&& days_before_month(year, 3) == 59 + leap
            &&& days_before_month(year, 4) == 90 + leap
            &&& days_before_month(year, 5) == 120 + leap
            &&& days_before_month(year, 6) == 151 + leap
            &&& days_before_month(year, 7) == 181 + leap
            &&& days_before_month(year, 8) == 212 + leap
            &&& days_before_month(year, 9) == 243 + leap
            &&& days_before_month(year, 10) == 273 + leap
            &&& days_before_month(year, 11) == 304 + leap
            &&& days_before_month(year, 12) == 334 + leap
            &&& days_before_month(year, 13) == 365 + leap
        }),
{
    reveal_with_fuel(days_before_month, 14);
}

/// The days of a 400-year era before one of its years, counted from March.
spec fn era_days_before(year: int) -> int {
    365 * year + year / 4 - year / 100
}

/// Which year of its era a day is in.
proof fn lemma_year_of_era(doe: int)
    requires
        0 <= doe < 146097,
    ensures
        ({
            let yoe = (doe - doe / 1460 + doe / 36524 - doe / 146096) / 365;
            &&& 0 <= yoe <= 399
            &&& era_days_before(yoe) <= doe
            &&& doe - era_days_before(yoe) <= 365
            &&& doe - era_days_before(yoe) == 365 ==> (yoe + 1) % 4 == 0 && ((yoe + 1) % 100 != 0
                || (yoe + 1) % 400 == 0)
        }),
{
    let yoe = (doe - doe / 1460 + doe / 36524 - doe / 146096) / 365;
    if doe == 146096 {
        assert(yoe == 399);
    } else {
        let q = doe / 36524;
        let r = doe % 36524;
        assert(0 <= q <= 3);
        assert(doe == 36524 * q + r);
        assert(doe / 146096 == 0);
        assert(doe / 1460 == 25 * q + (24 * q + r) / 1460);
        let a = r / 1461;
        let b = r % 1461;
        assert(r == 1461 * a + b);
        assert(0 <= a <= 24);
        let c = (24 * q + a + b) / 1460;
        assert((24 * q + r) / 1460 == a + c);
        assert(0 <= c <= 1);
        let k = (b - c) / 365;
        assert(doe - doe / 1460 + doe / 36524 - doe / 146096 == 365 * (100 * q + 4 * a) + (b - c));
        assert(yoe == 100 * q + 4 * a + k);
        assert(0 <= k <= 3);
        assert(k == 3 || b - 365 * k < 365);
        assert(yoe / 4 == 25 * q + a);
        assert(0 <= 4 * a + k < 100);
        assert(yoe / 100 == q);
        assert(era_days_before(yoe) == 36524 * q + 1461 * a + 365 * k);
        assert(doe - era_days_before(yoe) == b - 365 * k);
        if b - 365 * k == 365 {
            assert(k == 3 && b == 1460);
            assert((yoe + 1) % 4 == 0);
            assert(r < 36524);
            assert(a < 24);
            assert((yoe + 1) % 100 != 0);
        }
    }
}

/// Which month, counted from March, a day of such a year is in, and which day of
/// the month it is.
proof fn lemma_month_of_year(doy: int)
    requires
        0 <= doy <= 365,
    ensures
        ({
            let mp = (5 * doy + 2) / 153;
            let before = (153 * mp + 2) / 5;
            &&& 0 <= mp <= 11
            &&& before <= doy
            &&& mp == 0 ==> before == 0 && doy < 31
            &&& mp == 1 ==> before == 31 && doy < 61
            &&& mp == 2 ==> before == 61 && doy < 92
            &&& mp == 3 ==> before == 92 && doy < 122
            &&& mp == 4 ==> before == 122 && doy < 153
            &&& mp == 5 ==> before == 153 && doy < 184
            &&& mp == 6 ==> before == 184 && doy < 214
            &&& mp == 7 ==> before == 214 && doy < 245
            &&& mp == 8 ==> before == 245 && doy < 275
            &&& mp == 9 ==> before == 275 && doy < 306
            &&& mp == 10 ==> before == 306 && doy < 337
            &&& mp == 11 ==> before == 337 && doy < 366
        }),
{
}

/// The days before the March of a year, from the year of its era.
proof fn lemma_days_before_march(era: int, yoe: int)
    requires
        0 <= yoe <= 399,
    ensures
        ({
            let y = 400 * era + yoe;
            days_before_year(y) + 59 + (if is_leap(y) {
                1int
            } else {
                0int
            }) - 719162 == 146097 * era + era_days_before(yoe) - 719468
        }),
{
    let y = 400 * era + yoe;
    lemma_year_step(y);
    assert(days_before_year(y + 1) == 365 * y + y / 4 - y / 100 + y / 400);
    assert(y / 4 == 100 * era + yoe / 4);
    assert(y / 100 == 4 * era + yoe / 100);
    assert(y / 400 == era);
}

/// The month and the day of the month of a day of a year that is counted from
/// March.
proof fn lemma_date_in_year(y: int, doy: int)
    requires
        0 <= doy <= 365,
        doy == 365 ==> is_leap(y + 1),
    ensures
        ({
            let mp = (5 * doy + 2) / 153;
            let d = doy - (153 * mp + 2) / 5 + 1;
            let m = if mp < 10 {
                mp + 3
            } else {
                mp - 9
            };
            let full = if m <= 2 {
                y + 1
            } else {
                y
            };
            &&& 0 <= mp <= 11
            &&& is_date(full, m, d)
            &&& day_number(full, m, d) == days_before_year(y) + 59 + (if is_leap(y) {
                1int
            } else {
                0int
            }) + doy - 719162
        }),
{
    lemma_month_of_year(doy);
    lemma_month_table(y);
    lemma_month_table(y + 1);
    lemma_year_step(y);
}

/// The date on a day, step by step.
proof fn lemma_date_of_day(era: int, doe: int)
    requires
        0 <= doe < 146097,
    ensures
        ({
            let yoe = (doe - doe / 1460 + doe / 36524 - doe / 146096) / 365;
            let y = yoe + era * 400;
            let doy = doe - (365 * yoe + yoe / 4 - yoe / 100);
            let mp = (5 * doy + 2) / 153;
            let d = doy - (153 * mp + 2) / 5 + 1;
            let m = if mp < 10 {
                mp + 3
            } else {
                mp - 9
            };
            let full = if m <= 2 {
                y + 1
            } else {
                y
            };
            &&& 0 <= yoe <= 399
            &&& 0 <= doy <= 365
            &&& 0 <= mp <= 11
            &&& is_date(full, m, d)
            &&& day_number(full, m, d) == 146097 * era + doe - 719468
        }),
{
    lemma_year_of_era(doe);
    let yoe = (doe - doe / 1460 + doe / 36524 - doe / 146096) / 365;
    let y = yoe + era * 400;
    let doy = doe - era_days_before(yoe);
    lemma_leap_in_era(era, yoe);
    assert(y + 1 == 400 * era + yoe + 1);
    lemma_date_in_year(y, doy);
    lemma_days_before_march(era, yoe);
    assert(y == 400 * era + yoe);
}

/// The date on a day: the year may lie outside of what 32 bits hold, in which
/// case only its lower bits are given.
pub fn civil_from_days(days_since_epoch: i64) -> (r: Option<(i32, u32, u32)>)
    requires
        days_since_epoch <= i64::MAX - 719468,
    ensures
        r == Some(civil_date(days_since_epoch as int)),
        is_date_of(days_since_epoch as int, civil_date(days_since_epoch as int)),
{
    let z: i64 = days_since_epoch + 719_468;
    let era: i64 = match z.checked_div_euclid(146_097) {
        Some(era) => era,
        None => {
            return None;
        },
    };
    let doe: i64 = match z.checked_rem_euclid(146_097) {
        Some(doe) => doe,
        None => {
            return None;
        },
    };
    proof {
        assert(z == 146097 * era + doe);
        lemma_date_of_day(era as int, doe as int);
    }
    let yoe: i64 = (doe - doe / 1_460 + doe / 36_524 - doe / 146_096) / 365;
    let y: i64 = yoe + era * 400;
    let doy: i64 = doe - (365 * yoe + yoe / 4 - yoe / 100);
    let mp: i64 = (5 * doy + 2) / 153;
    let d: u32 = (doy - (153 * mp + 2) / 5 + 1) as u32;
    let m: u32 = if mp < 10 {
        (mp + 3) as u32
    } else {
        (mp - 9) as u32
    };
    let full: i64 = if m <= 2 {
        y + 1
    } else {
        y
    };
    let year: i32 = #[verifier::truncate] (full as i32);
    proof {
        let date = (year, m, d);
        let y0 = full as int;
        assert(falls_on(y0, date.1 as int, date.2 as int, days_since_epoch as int));
        assert(date.0 == y0 as i32);
        assert(is_date_of(days_since_epoch as int, date));
        lemma_civil_date(days_since_epoch as int, date);
    }
    Some((year, m, d))
}

proof fn lemma_leap_in_era(era: int, yoe: int)
    ensures
        is_leap(400 * era + yoe + 1) == ((yoe + 1) % 4 == 0 && ((yoe + 1) % 100 != 0 || (yoe + 1)
            % 400 == 0)),
{
    lemma_mod_multiples_vanish(100 * era, yoe + 1, 4);
    lemma_mod_multiples_vanish(4 * era, yoe + 1, 100);
    lemma_mod_multiples_vanish(era, yoe + 1, 400);
}

/// No day has two dates.
pub proof fn a_day_has_one_date(y1: int, m1: int, d1: int, y2: int, m2: int, d2: int)
    requires
        is_date(y1, m1, d1),
        is_date(y2, m2, d2),
        day_number(y1, m1, d1) == day_number(y2, m2, d2),
    ensures
        y1 == y2 && m1 == m2 && d1 == d2,
{
    lemma_month_table(y1);
    lemma_month_table(y2);
    lemma_year_step(y1);
    lemma_year_step(y2);
    if y1 < y2 {
        lemma_years_rise(y1 + 1, y2);
    } else if y2 < y1 {
        lemma_years_rise(y2 + 1, y1);
    }
}

proof fn lemma_years_rise(from: int, to: int)
    requires
        from <= to,
    ensures
        days_before_year(from) <= days_before_year(to),
    decreases to - from,
{
    if from < to {
        lemma_years_rise(from, to - 1);
        lemma_year_step(to - 1);
    }
}

/// A year with at least four characters, a sign included.
pub open spec fn year_text(year: i32) -> Seq<char> {
    if 0 <= year < 10000 {
        fixed_decimal(year as nat, 4)
    } else if 0 <= year {
        decimal(year as nat)
    } else if -1000 < year {
        "-"@ + fixed_decimal((-year) as nat, 3)
    } else {
        "-"@ + decimal((-year) as nat)
    }
}

/// A date and a time of day.
pub open spec fn date_time_text(date: (i32, u32, u32), second_of_day: int) -> Seq<char> {
    year_text(date.0) + "-"@ + fixed_decimal(date.1 as nat, 2) + "-"@ + fixed_decimal(
        date.2 as nat,
        2,
    ) + " "@ + fixed_decimal((second_of_day / 3600) as nat, 2) + ":"@ + fixed_decimal(
        (second_of_day % 3600 / 60) as nat,
        2,
    ) + ":"@ + fixed_decimal((second_of_day % 60) as nat, 2)
}

/// A point in time, in seconds since the start of 1970, in UTC.
pub open spec fn utc_text(seconds: int) -> Seq<char> {
    date_time_text(civil_date(seconds / 86400), seconds % 86400)
}

fn push_year(out: &mut String, year: i32)
    ensures
        final(out)@ == old(out)@ + year_text(year),
{
    if 0 <= year && year < 10000 {
        push_fixed_decimal(out, year as u64, 4);
    } else if 0 <= year {
        push_decimal(out, year as u128);
    } else {
        out.push_str("-");
        let size: i64 = 0 - year as i64;
        if -1000 < year {
            push_fixed_decimal(out, size as u64, 3);
        } else {
            push_decimal(out, size as u128);
        }
        assert(out@ =~= old(out)@ + year_text(year));
    }
}

/// A point in time in UTC, as far as it can be told.
pub fn format_utc_datetime(unix_seconds: u64) -> (r: Option<String>)
    ensures
        match r {
            Some(text) => unix_seconds <= i64::MAX && text@ == utc_text(unix_seconds as int),
            None => unix_seconds > i64::MAX,
        },
{
    if unix_seconds > i64::MAX as u64 {
        return None;
    }
    let days: i64 = (unix_seconds / 86_400) as i64;
    let second_of_day: u64 = unix_seconds % 86_400;
    let (year, month, day) = match civil_from_days(days) {
        Some(date) => date,
        None => {
            return None;
        },
    };
    let mut out = String::new();
    push_year(&mut out, year);
    out.push_str("-");
    push_fixed_decimal(&mut out, month as u64, 2);
    out.push_str("-");
    push_fixed_decimal(&mut out, day as u64, 2);
    out.push_str(" ");
    push_fixed_decimal(&mut out, second_of_day / 3600, 2);
    out.push_str(":");
    push_fixed_decimal(&mut out, second_of_day % 3600 / 60, 2);
    out.push_str(":");
    push_fixed_decimal(&mut out, second_of_day % 60, 2);
    assert(out@ =~= date_time_text((year, month, day), second_of_day as int));
    Some(out)
}

/// What stands for a value that is not there.
pub fn not_set() -> (r: String)
    ensures
        r@ == "—"@,
{
    "—".to_owned()
}

/// A point in time in UTC, or a dash where it cannot be told.
pub open spec fn timestamp(seconds: int) -> Seq<char> {
    if seconds <= i64::MAX {
        utc_text(seconds)
    } else {
        "—"@
    }
}

/// A point in time in UTC, or a dash where it cannot be told.
pub fn format_timestamp(unix_seconds: u64) -> (r: String)
    ensures
        r@ == timestamp(unix_seconds as int),
{
    match format_utc_datetime(unix_seconds) {
        Some(text) => text,
        None => not_set(),
    }
}

/// A date is the one that its own day number leads back to.
pub proof fn dates_are_read_back(year: int, month: u32, day: u32)
    requires
        is_date(year, month as int, day as int),
    ensures
        civil_date(day_number(year, month as int, day as int)) == (year as i32, month, day),
{
    let days = day_number(year, month as int, day as int);
    let date = (year as i32, month, day);
    assert(falls_on(year, date.1 as int, date.2 as int, days));
    assert(is_date_of(days, date));
    lemma_civil_date(days, date);
}

proof fn lemma_fixed_decimal(n: nat, width: nat)
    requires
        width == 2 ==> n < 100,
        width == 4 ==> n < 10000,
        width == 2 || width == 4,
    ensures
        fixed_decimal(n, width).len() == width,
        digits_value(fixed_decimal(n, width)) == Some(n),
{
    reveal_with_fuel(fixed_decimal, 5);
    reveal_with_fuel(digits_value, 5);
    lemma_fixed_step(n, width);
    lemma_fixed_step(n / 10, (width - 1) as nat);
    if width == 4 {
        lemma_fixed_step(n / 100, 2);
        lemma_fixed_step(n / 1000, 1);
        assert(n / 10 / 10 == n / 100);
        assert(n / 100 / 10 == n / 1000);
        assert(n / 1000 / 10 == 0);
    } else {
        assert(n / 10 / 10 == 0);
    }
    assert(digits_value(Seq::<char>::empty()) == Some(0nat));
}

proof fn lemma_fixed_step(n: nat, width: nat)
    requires
        width > 0,
    ensures
        fixed_decimal(n, width).len() == fixed_decimal(n / 10, (width - 1) as nat).len() + 1,
        digits_value(fixed_decimal(n / 10, (width - 1) as nat)) == Some(n / 10) ==> digits_value(
            fixed_decimal(n, width),
        ) == Some(n),
{
    let d = n % 10;
    let high = fixed_decimal(n / 10, (width - 1) as nat);
    assert(fixed_decimal(n, width).drop_last() =~= high);
    assert(d == 0 || d == 1 || d == 2 || d == 3 || d == 4 || d == 5 || d == 6 || d == 7 || d == 8
        || d == 9);
    assert(digit_value(digit(d)) == Some(d));
}

/// A point in time is told as its date and the time of its day: year, month, day, hour,
/// minute and second can be read from the text at fixed places, and the time of day is
/// what is left of the seconds behind the days.
pub proof fn a_point_in_time_is_told_in_full(year: int, month: u32, day: u32, seconds: int)
    requires
        0 <= year < 10000,
        is_date(year, month as int, day as int),
        0 <= seconds <= i64::MAX,
        day_number(year, month as int, day as int) == seconds / 86400,
    ensures
        ({
            let text = timestamp(seconds);
            let hour = digits_value(text.subrange(11, 13));
            let minute = digits_value(text.subrange(14, 16));
            let second = digits_value(text.subrange(17, 19));
            &&& text.len() == 19
            &&& digits_value(text.subrange(0, 4)) == Some(year as nat)
            &&& digits_value(text.subrange(5, 7)) == Some(month as nat)
            &&& digits_value(text.subrange(8, 10)) == Some(day as nat)
            &&& text[4] == '-' && text[7] == '-' && text[10] == ' ' && text[13] == ':' && text[16]
                == ':'
            &&& hour is Some && minute is Some && second is Some
            &&& hour->0 < 24 && minute->0 < 60 && second->0 < 60
            &&& (seconds / 86400) * 86400 + hour->0 * 3600 + minute->0 * 60 + second->0 == seconds
        }),
{
    dates_are_read_back(year, month, day);
    let date = civil_date(seconds / 86400);
    assert(date == (year as i32, month, day));
    let of_day = seconds % 86400;
    let h = (of_day / 3600) as nat;
    let m = (of_day % 3600 / 60) as nat;
    let s = (of_day % 60) as nat;
    assert(h < 24 && m < 60 && s < 60);
    assert(h * 3600 + m * 60 + s == of_day);
    lemma_fixed_decimal(year as nat, 4);
    lemma_fixed_decimal(month as nat, 2);
    lemma_fixed_decimal(day as nat, 2);
    lemma_fixed_decimal(h, 2);
    lemma_fixed_decimal(m, 2);
    lemma_fixed_decimal(s, 2);
    reveal_strlit("-");
    reveal_strlit(" ");
    reveal_strlit(":");
    let text = timestamp(seconds);
    assert(text.subrange(0, 4) =~= fixed_decimal(year as nat, 4));
    assert(text.subrange(5, 7) =~= fixed_decimal(month as nat, 2));
    assert(text.subrange(8, 10) =~= fixed_decimal(day as nat, 2));
    assert(text.subrange(11, 13) =~= fixed_decimal(h, 2));
    assert(text.subrange(14, 16) =~= fixed_decimal(m, 2));
    assert(text.subrange(17, 19) =~= fixed_decimal(s, 2));
}

/// Days are numbered from the start of 1970, one after the other: the number of the next
/// day of a month, of the first day of the next month and of the first day of the next
/// year is one more.
pub proof fn days_follow_one_another(year: int, month: int, day: int)
    requires
        is_date(year, month, day),
    ensures
        day_number(1970, 1, 1) == 0,
        is_date(year, month, day + 1) ==> day_number(year, month, day + 1) == day_number(
            year,
            month,
            day,
        ) + 1,
        !is_date(year, month, day + 1) && month < 12 ==> day_number(year, month + 1, 1)
            == day_number(year, month, day) + 1,
        !is_date(year, month, day + 1) && month == 12 ==> day_number(year + 1, 1, 1) == day_number(
            year,
            month,
            day,
        ) + 1,
{
    years_follow_one_another(year);
    reveal_with_fuel(days_before_month, 14);
}

} // verus!
