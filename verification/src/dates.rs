//! Proleptic-Gregorian calendar arithmetic: header date and time parsing,
//! conversion to seconds since the Unix epoch, and the `YYYY-MM-DD` day
//! string used as a partition key.

use vstd::prelude::*;
use vstd::string::*;
use vstd::arithmetic::div_mod::lemma_mod_multiples_vanish;
use crate::text::{all_digits, chars_of, dec_str_pad, dec_val, lemma_dec_val_upper, parse_digits_range, pow10, push_dec_u64_pad};

verus! {

/// A calendar date. Years are limited to four digits, as written in PGN
/// headers.
#[derive(Clone, Copy, Debug, PartialEq, Eq, Structural)]
pub struct Date {
    pub year: u64,
    pub month: u64,
    pub day: u64,
}

/// True in leap years of the proleptic Gregorian calendar.
pub open spec fn is_leap_year(y: int) -> bool {
    y % 4 == 0 && (y % 100 != 0 || y % 400 == 0)
}

/// Number of days in a month.
pub open spec fn days_in_month(y: int, m: int) -> int
    recommends
        1 <= m <= 12,
{
    if m == 2 {
        if is_leap_year(y) {
            29
        } else {
            28
        }
    } else if m == 4 || m == 6 || m == 9 || m == 11 {
        30
    } else {
        31
    }
}

/// A calendar-valid date with a four-digit year.
pub open spec fn valid_date(d: Date) -> bool {
    &&& d.year <= 9999
    &&& 1 <= d.month <= 12
    &&& 1 <= d.day <= days_in_month(d.year as int, d.month as int)
}

/// Days between the given civil date and 1970-01-01, negative for earlier
/// dates. The year is shifted so that it starts in March and every
/// intermediate quantity stays non-negative; the era (a 400-year cycle of
/// 146097 days) and the day within it are then read off directly.
pub open spec fn days_from_civil(d: Date) -> int {
    let yy = if d.month <= 2 {
        d.year + 399
    } else {
        d.year + 400
    };
    let era = yy as int / 400;
    let yoe = yy - era * 400;
    let mp = ((d.month + 9) % 12) as int;
    let doy = (153 * mp + 2) / 5 + d.day - 1;
    let doe = yoe * 365 + yoe / 4 - yoe / 100 + doy;
    era * 146097 + doe - 719468 - 146097
}

/// Days since the epoch for a valid date.
pub fn days_from_civil_exec(d: &Date) -> (r: i64)
    requires
        valid_date(*d),
    ensures
        r == days_from_civil(*d),
{
    let yy: u64 = if d.month <= 2 {
        d.year + 399
    } else {
        d.year + 400
    };
    let era: u64 = yy / 400;
    let yoe: u64 = yy - era * 400;
    let mp: u64 = (d.month + 9) % 12;
    let doy: u64 = (153 * mp + 2) / 5 + d.day - 1;
    let doe: u64 = yoe * 365 + yoe / 4 - yoe / 100 + doy;
    let total: i64 = (era * 146097 + doe) as i64;
    total - 719468 - 146097
}

/// Lowest day count this module converts back to a date: 0000-03-01.
pub const MIN_EPOCH_DAY: i64 = -719468;

/// Highest day count with a four-digit year: 9999-12-31.
pub const MAX_EPOCH_DAY: i64 = 2932896;

/// The first day of a year follows the last day of the year before.
proof fn lemma_year_adjacent(y: u64)
    requires
        1 <= y <= 9999,
    ensures
        days_from_civil(Date { year: y, month: 1, day: 1 }) == days_from_civil(
            Date { year: (y - 1) as u64, month: 12, day: 31 },
        ) + 1,
{
}

/// The first day of a month follows the last day of the month before.
proof fn lemma_month_adjacent(y: u64, m: u64)
    requires
        y <= 9999,
        1 <= m <= 11,
    ensures
        days_from_civil(Date { year: y, month: (m + 1) as u64, day: 1 }) == days_from_civil(
            Date { year: y, month: m, day: days_in_month(y as int, m as int) as u64 },
        ) + 1,
{
    if m == 2 {
        let yy1: int = y + 399;
        let yy2: int = y + 400;
        let era1 = yy1 / 400;
        let era2 = yy2 / 400;
        let yoe1 = yy1 - era1 * 400;
        let yoe2 = yy2 - era2 * 400;
        if yoe1 == 399 {
            assert(yy2 == 400 * (era1 + 1));
            assert(yy2 / 400 == era1 + 1) by {
                lemma_mod_multiples_vanish(era1 + 1, 0, 400);
            }
            assert(yoe2 == 0);
            // y is then a multiple of 400, hence a leap year
            assert(y == 400 * (era1 + 1) - 400 == 400 * era1);
            assert(y % 400 == 0) by {
                lemma_mod_multiples_vanish(era1, 0, 400);
            }
            assert(y % 4 == 0) by {
                lemma_mod_multiples_vanish(100 * era1, 0, 4);
            }
            assert(is_leap_year(y as int));
        } else {
            assert(era2 == era1) by {
                lemma_mod_multiples_vanish(era1, yy1 - 400 * era1, 400);
                lemma_mod_multiples_vanish(era1, yy2 - 400 * era1, 400);
                assert(yy1 % 400 == yoe1);
                assert(yy2 % 400 == yoe1 + 1);
                vstd::arithmetic::div_mod::lemma_fundamental_div_mod(yy2, 400);
                vstd::arithmetic::div_mod::lemma_fundamental_div_mod(yy1, 400);
            }
            assert(yoe2 == yoe1 + 1);
            // y and yoe2 agree modulo 4, 100 and 400
            assert(y == yoe2 + 400 * (era2 - 1));
            assert(y % 4 == yoe2 % 4) by {
                lemma_mod_multiples_vanish(100 * (era2 - 1), yoe2, 4);
            }
            assert(y % 100 == yoe2 % 100) by {
                lemma_mod_multiples_vanish(4 * (era2 - 1), yoe2, 100);
            }
            assert(y % 400 == yoe2 % 400) by {
                lemma_mod_multiples_vanish(era2 - 1, yoe2, 400);
            }
            assert(0 < yoe2 < 400);
            assert(yoe2 % 400 == yoe2);
            if is_leap_year(y as int) {
                assert(yoe2 % 4 == 0);
                assert(yoe2 % 100 != 0) by {
                    if yoe2 % 100 == 0 {
                        assert(y % 100 == 0);
                        assert(y % 400 == yoe2 && yoe2 != 0);
                    }
                }
                assert(yoe2 / 4 == yoe1 / 4 + 1 && yoe2 / 100 == yoe1 / 100) by {
                    vstd::arithmetic::div_mod::lemma_fundamental_div_mod(yoe2, 4);
                    vstd::arithmetic::div_mod::lemma_fundamental_div_mod(yoe1, 4);
                    vstd::arithmetic::div_mod::lemma_fundamental_div_mod(yoe2, 100);
                    vstd::arithmetic::div_mod::lemma_fundamental_div_mod(yoe1, 100);
                }
            } else {
                if yoe2 % 4 == 0 {
                    assert(yoe2 % 100 == 0) by {
                        if yoe2 % 100 != 0 {
                            assert(is_leap_year(y as int));
                        }
                    }
                    assert(yoe2 / 4 == yoe1 / 4 + 1 && yoe2 / 100 == yoe1 / 100 + 1) by {
                        vstd::arithmetic::div_mod::lemma_fundamental_div_mod(yoe2, 4);
                        vstd::arithmetic::div_mod::lemma_fundamental_div_mod(yoe1, 4);
                        vstd::arithmetic::div_mod::lemma_fundamental_div_mod(yoe2, 100);
                        vstd::arithmetic::div_mod::lemma_fundamental_div_mod(yoe1, 100);
                    }
                } else {
                    assert(yoe2 / 4 == yoe1 / 4) by {
                        vstd::arithmetic::div_mod::lemma_fundamental_div_mod(yoe2, 4);
                        vstd::arithmetic::div_mod::lemma_fundamental_div_mod(yoe1, 4);
                    }
                    assert(yoe2 % 100 != 0) by {
                        if yoe2 % 100 == 0 {
                            lemma_mod_multiples_vanish(25 * (yoe2 / 100), 0, 4);
                            vstd::arithmetic::div_mod::lemma_fundamental_div_mod(yoe2, 100);
                        }
                    }
                    assert(yoe2 / 100 == yoe1 / 100) by {
                        vstd::arithmetic::div_mod::lemma_fundamental_div_mod(yoe2, 100);
                        vstd::arithmetic::div_mod::lemma_fundamental_div_mod(yoe1, 100);
                    }
                }
            }
        }
    }
}

/// Date holding the given day count since the epoch: the unique valid
/// date `d` with `days_from_civil(d) == z`, found by searching years and
/// months with the forward conversion.
pub fn civil_from_days_exec(z: i64) -> (r: Date)
    requires
        MIN_EPOCH_DAY <= z <= MAX_EPOCH_DAY,
    ensures
        valid_date(r),
        days_from_civil(r) == z,
{
    let mut lo: u64 = 0;
    let mut hi: u64 = 9999;
    proof {
        assert(days_from_civil(Date { year: 0, month: 1, day: 1 }) <= z);
        assert(z <= days_from_civil(Date { year: 9999, month: 12, day: 31 }));
    }
    while lo < hi
        invariant
            lo <= hi <= 9999,
            days_from_civil(Date { year: lo, month: 1, day: 1 }) <= z,
            z <= days_from_civil(Date { year: hi, month: 12, day: 31 }),
        decreases hi - lo,
    {
        let mid = lo + (hi - lo + 1) / 2;
        if days_from_civil_exec(&Date { year: mid, month: 1, day: 1 }) <= z {
            lo = mid;
        } else {
            proof {
                lemma_year_adjacent(mid);
            }
            hi = mid - 1;
        }
    }
    let y = lo;
    // largest month whose first day is not after z
    let mut best: u64 = 1;
    let mut m: u64 = 2;
    while m <= 12
        invariant
            2 <= m <= 13,
            1 <= best < m,
            y <= 9999,
            days_from_civil(Date { year: y, month: best, day: 1 }) <= z,
            forall|j: u64|
                best < j < m ==> days_from_civil(Date { year: y, month: j, day: 1 }) > z,
        decreases 13 - m,
    {
        if days_from_civil_exec(&Date { year: y, month: m, day: 1 }) <= z {
            best = m;
        }
        m = m + 1;
    }
    let first = days_from_civil_exec(&Date { year: y, month: best, day: 1 });
    let dim = days_in_month_exec(y, best);
    proof {
        if best < 12 {
            lemma_month_adjacent(y, best);
            assert(days_from_civil(Date { year: y, month: (best + 1) as u64, day: 1 }) > z);
        }
    }
    let d = ((z - first) as u64) + 1;
    let r = Date { year: y, month: best, day: d };
    proof {
        assert(days_from_civil(r) == first + d - 1);
    }
    r
}

/// Days in a month, executable form.
pub fn days_in_month_exec(y: u64, m: u64) -> (r: u64)
    requires
        1 <= m <= 12,
    ensures
        r == days_in_month(y as int, m as int),
{
    if m == 2 {
        if y % 4 == 0 && (y % 100 != 0 || y % 400 == 0) {
            29
        } else {
            28
        }
    } else if m == 4 || m == 6 || m == 9 || m == 11 {
        30
    } else {
        31
    }
}

/// Seconds since the Unix epoch of midnight on `d`, plus `tod` seconds.
pub open spec fn epoch_seconds_of(d: Date, tod: u64) -> int {
    days_from_civil(d) * 86400 + tod
}

/// Epoch seconds for a valid date and a time of day below one day.
pub fn epoch_seconds(d: &Date, tod: u64) -> (r: i64)
    requires
        valid_date(*d),
        tod < 86400,
    ensures
        r == epoch_seconds_of(*d, tod),
{
    let days = days_from_civil_exec(d);
    days * 86400 + (tod as i64)
}

/// Lowest epoch-second value whose day `day_of_epoch` names.
pub const MIN_EPOCH_SECONDS: i64 = -62162035200;

/// Highest epoch-second value whose day `day_of_epoch` names.
pub const MAX_EPOCH_SECONDS: i64 = 253402300799;

/// Day count holding the given epoch second (floor division by the
/// length of a day).
pub open spec fn day_of_epoch(secs: int) -> int {
    (secs + 719468 * 86400) / 86400 - 719468
}

/// Day count of an epoch second, executable form.
pub fn day_of_epoch_exec(secs: i64) -> (r: i64)
    requires
        MIN_EPOCH_SECONDS <= secs <= MAX_EPOCH_SECONDS,
    ensures
        r == day_of_epoch(secs as int),
        MIN_EPOCH_DAY <= r <= MAX_EPOCH_DAY,
{
    let shifted: u64 = (secs + 719468 * 86400) as u64;
    let days: u64 = shifted / 86400;
    (days as i64) - 719468
}

/// `YYYY-MM-DD` rendering of a date, each part zero-padded.
pub open spec fn day_string_of(d: Date) -> Seq<char> {
    dec_str_pad(d.year as nat, 4) + seq!['-'] + dec_str_pad(d.month as nat, 2) + seq!['-']
        + dec_str_pad(d.day as nat, 2)
}

/// Renders a date as its `YYYY-MM-DD` partition key.
pub fn day_string(d: &Date) -> (r: String)
    ensures
        r@ == day_string_of(*d),
{
    let mut s = String::new();
    push_dec_u64_pad(&mut s, d.year, 4);
    proof {
        reveal_strlit("-");
    }
    s.append("-");
    push_dec_u64_pad(&mut s, d.month, 2);
    s.append("-");
    push_dec_u64_pad(&mut s, d.day, 2);
    proof {
        assert(s@ =~= day_string_of(*d));
    }
    s
}

/// Position of the separator after the month digits in a `YYYY.MM.DD`
/// text: the first of positions 6 and 7 holding a dot, or 0 when neither
/// does.
pub open spec fn date_sep(s: Seq<char>) -> int {
    if s.len() > 6 && s[6] == '.' {
        6
    } else if s.len() > 7 && s[7] == '.' {
        7
    } else {
        0
    }
}

/// True when `s` is a date in `YYYY.MM.DD` form — four year digits, one
/// or two month and day digits — naming a calendar-valid date.
pub open spec fn is_date_text(s: Seq<char>) -> bool {
    let m = date_sep(s);
    &&& s.len() > 4
    &&& s[4] == '.'
    &&& m > 5
    &&& m + 2 <= s.len() <= m + 3
    &&& all_digits(s.subrange(0, 4))
    &&& all_digits(s.subrange(5, m))
    &&& all_digits(s.subrange(m + 1, s.len() as int))
    &&& valid_date(date_of_text(s))
}

/// The date named by a well-formed `YYYY.MM.DD` text.
pub open spec fn date_of_text(s: Seq<char>) -> Date {
    let m = date_sep(s);
    Date {
        year: dec_val(s.subrange(0, 4)) as u64,
        month: dec_val(s.subrange(5, m)) as u64,
        day: dec_val(s.subrange(m + 1, s.len() as int)) as u64,
    }
}

/// Parses a `Date` header value, `YYYY.MM.DD`: some date exactly when the
/// text is well-formed and calendar-valid.
pub fn parse_date(s: &str) -> (r: Option<Date>)
    ensures
        r matches Some(d) ==> is_date_text(s@) && d == date_of_text(s@),
        r is None ==> !is_date_text(s@),
{
    let cs = chars_of(s);
    let n = cs.len();
    if n <= 6 {
        return None;
    }
    if cs[4] != '.' {
        return None;
    }
    let m_end: usize = if cs[6] == '.' {
        6
    } else if n > 7 && cs[7] == '.' {
        7
    } else {
        return None;
    };
    if n < m_end + 2 || n > m_end + 3 {
        return None;
    }
    let year = match parse_digits_range(&cs, 0, 4) {
        Some(v) => v,
        None => {
            proof {
                if all_digits(s@.subrange(0, 4)) {
                    lemma_dec_val_upper(s@.subrange(0, 4));
                    reveal_with_fuel(pow10, 5);
                }
            }
            return None;
        },
    };
    let month = match parse_digits_range(&cs, 5, m_end) {
        Some(v) => v,
        None => {
            proof {
                if all_digits(s@.subrange(5, m_end as int)) {
                    lemma_dec_val_upper(s@.subrange(5, m_end as int));
                    reveal_with_fuel(pow10, 5);
                }
            }
            return None;
        },
    };
    let day = match parse_digits_range(&cs, m_end + 1, n) {
        Some(v) => v,
        None => {
            proof {
                if all_digits(s@.subrange(m_end as int + 1, s@.len() as int)) {
                    lemma_dec_val_upper(s@.subrange(m_end as int + 1, s@.len() as int));
                    reveal_with_fuel(pow10, 5);
                }
            }
            return None;
        },
    };
    let d = Date { year, month, day };
    if month >= 1 && month <= 12 && day >= 1 && year <= 9999 && day <= days_in_month_exec(
        year,
        month,
    ) {
        Some(d)
    } else {
        None
    }
}

/// Position of the first colon in an `H:MM:SS` text: the first of
/// positions 1 and 2 holding a colon, or 0 when neither does.
pub open spec fn time_sep(s: Seq<char>) -> int {
    if s.len() > 1 && s[1] == ':' {
        1
    } else if s.len() > 2 && s[2] == ':' {
        2
    } else {
        0
    }
}

/// Position of the second colon: two or three places after the first.
pub open spec fn time_sep2(s: Seq<char>) -> int {
    let c1 = time_sep(s);
    if s.len() > c1 + 2 && s[c1 + 2] == ':' {
        c1 + 2
    } else if s.len() > c1 + 3 && s[c1 + 3] == ':' {
        c1 + 3
    } else {
        0
    }
}

/// True when `s` is a time of day in `H:MM:SS` form, each part one or two
/// digits, hours below 24 and minutes and seconds below 60.
pub open spec fn is_time_text(s: Seq<char>) -> bool {
    let c1 = time_sep(s);
    let c2 = time_sep2(s);
    &&& c1 >= 1
    &&& c2 > c1 + 1
    &&& c2 + 2 <= s.len() <= c2 + 3
    &&& all_digits(s.subrange(0, c1))
    &&& all_digits(s.subrange(c1 + 1, c2))
    &&& all_digits(s.subrange(c2 + 1, s.len() as int))
    &&& dec_val(s.subrange(0, c1)) < 24
    &&& dec_val(s.subrange(c1 + 1, c2)) < 60
    &&& dec_val(s.subrange(c2 + 1, s.len() as int)) < 60
}

/// Seconds from midnight named by a well-formed `H:MM:SS` text.
pub open spec fn time_of_text(s: Seq<char>) -> nat {
    let c1 = time_sep(s);
    let c2 = time_sep2(s);
    (dec_val(s.subrange(0, c1)) * 3600 + dec_val(s.subrange(c1 + 1, c2)) * 60 + dec_val(
        s.subrange(c2 + 1, s.len() as int),
    )) as nat
}

/// Parses an `H:MM:SS` time of day into seconds from midnight: some value
/// exactly when the text is well-formed and in range.
pub fn parse_time(s: &str) -> (r: Option<u32>)
    ensures
        r matches Some(v) ==> is_time_text(s@) && v == time_of_text(s@) && v < 86400,
        r is None ==> !is_time_text(s@),
{
    let cs = chars_of(s);
    let n = cs.len();
    if n < 2 {
        return None;
    }
    let c1: usize = if cs[1] == ':' {
        1
    } else if n > 2 && cs[2] == ':' {
        2
    } else {
        return None;
    };
    let c2: usize = if n > c1 + 2 && cs[c1 + 2] == ':' {
        c1 + 2
    } else if n > c1 + 3 && cs[c1 + 3] == ':' {
        c1 + 3
    } else {
        return None;
    };
    if c2 <= c1 + 1 {
        return None;
    }
    if n < c2 + 2 || n > c2 + 3 {
        return None;
    }
    let hours = match parse_digits_range(&cs, 0, c1) {
        Some(v) => v,
        None => {
            proof {
                if all_digits(s@.subrange(0, c1 as int)) {
                    lemma_dec_val_upper(s@.subrange(0, c1 as int));
                    reveal_with_fuel(pow10, 5);
                }
            }
            return None;
        },
    };
    let minutes = match parse_digits_range(&cs, c1 + 1, c2) {
        Some(v) => v,
        None => {
            proof {
                if all_digits(s@.subrange(c1 as int + 1, c2 as int)) {
                    lemma_dec_val_upper(s@.subrange(c1 as int + 1, c2 as int));
                    reveal_with_fuel(pow10, 5);
                }
            }
            return None;
        },
    };
    let seconds = match parse_digits_range(&cs, c2 + 1, n) {
        Some(v) => v,
        None => {
            proof {
                if all_digits(s@.subrange(c2 as int + 1, s@.len() as int)) {
                    lemma_dec_val_upper(s@.subrange(c2 as int + 1, s@.len() as int));
                    reveal_with_fuel(pow10, 5);
                }
            }
            return None;
        },
    };
    if hours < 24 && minutes < 60 && seconds < 60 {
        Some((hours * 3600 + minutes * 60 + seconds) as u32)
    } else {
        None
    }
}

} // verus!
