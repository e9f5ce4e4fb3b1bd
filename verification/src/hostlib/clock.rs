//! The clock, as C sees it.

use vstd::prelude::*;
use crate::hostlib::stat::{append_i32, append_zeros, zeros};
use crate::rt::access::{effective, Access};
use crate::rt::caller::{i32_bytes, Caller};
use crate::rt::words::splice;

verus! {

// ---- the calendar ----

/// Whether a year is a leap year.
pub open spec fn leap(year: int) -> bool {
    year % 4 == 0 && (year % 100 != 0 || year % 400 == 0)
}

/// How many days a month has.
pub open spec fn month_days(year: int, month: int) -> int {
    if month == 2 {
        if leap(year) {
            29
        } else {
            28
        }
    } else if month == 4 || month == 6 || month == 9 || month == 11 {
        30
    } else {
        31
    }
}

/// How many days of a year come before a month.
pub open spec fn days_before_month(year: int, month: int) -> int
    decreases month,
{
    if month <= 1 {
        0
    } else {
        days_before_month(year, month - 1) + month_days(year, month - 1)
    }
}

/// How many days after 1970-01-01 a year begins.
pub open spec fn year_start(year: int) -> int {
    365 * (year - 1970) + (year - 1) / 4 - (year - 1) / 100 + (year - 1) / 400 - 477
}

/// Whether a year, a month and a day are a date.
pub open spec fn is_date(year: int, month: int, day: int) -> bool {
    1 <= month <= 12 && 1 <= day <= month_days(year, month)
}

/// How many days after 1970-01-01 a date is.
pub open spec fn day_number(year: int, month: int, day: int) -> int {
    year_start(year) + days_before_month(year, month) + day - 1
}

/// The date so many days after 1970-01-01.
pub open spec fn date_of(days: int) -> (int, int, int) {
    choose|date: (int, int, int)| falls_on(date, days)
}

/// Whether a date is so many days after 1970-01-01.
pub open spec fn falls_on(date: (int, int, int), days: int) -> bool {
    is_date(date.0, date.1, date.2) && day_number(date.0, date.1, date.2) == days
}

/// The days before each month.
pub proof fn lemma_months(year: int)
    ensures
        ({
            let l = if leap(year) {
                1int
            } else {
                0
            };
            &&& days_before_month(year, 1) == 0
            &&& days_before_month(year, 2) == 31
            &&& days_before_month(year, 3) == 59 + l
            &&& days_before_month(year, 4) == 90 + l
            &&& days_before_month(year, 5) == 120 + l
            &&& days_before_month(year, 6) == 151 + l
            &&& days_before_month(year, 7) == 181 + l
            &&& days_before_month(year, 8) == 212 + l
            &&& days_before_month(year, 9) == 243 + l
            &&& days_before_month(year, 10) == 273 + l
            &&& days_before_month(year, 11) == 304 + l
            &&& days_before_month(year, 12) == 334 + l
            &&& days_before_month(year, 13) == 365 + l
        }),
{
    reveal_with_fuel(days_before_month, 14);
}

/// The quotient is where the multiples say it is.
proof fn lemma_quotient(n: int, d: int, q: int)
    requires
        d > 0,
        q * d <= n < q * d + d,
    ensures
        n / d == q,
        n % d == n - q * d,
{
    vstd::arithmetic::div_mod::lemma_fundamental_div_mod_converse(n, d, q, n - q * d);
}

/// One more is one multiple more exactly where it is divisible.
proof fn lemma_quotient_step(n: int, d: int)
    requires
        d > 1,
    ensures
        n / d == (n - 1) / d + if n % d == 0 {
            1int
        } else {
            0
        },
{
    let q = n / d;
    vstd::arithmetic::div_mod::lemma_fundamental_div_mod(n, d);
    vstd::arithmetic::div_mod::lemma_mod_bound(n, d);
    assert(d * q == q * d) by (nonlinear_arith);
    assert((q - 1) * d == q * d - d) by (nonlinear_arith);
    if n % d == 0 {
        lemma_quotient(n - 1, d, q - 1);
    } else {
        lemma_quotient(n - 1, d, q);
    }
}

/// What a multiple of a hundred, or of four hundred, is a multiple of too.
proof fn lemma_centuries(year: int)
    ensures
        year % 100 == 0 ==> year % 4 == 0,
        year % 400 == 0 ==> year % 100 == 0,
{
    if year % 100 == 0 {
        lemma_quotient(year, 4, 25 * (year / 100));
    }
    if year % 400 == 0 {
        lemma_quotient(year, 100, 4 * (year / 400));
    }
}

/// A year begins where the one before it ends.
pub proof fn lemma_next_year(year: int)
    ensures
        year_start(year + 1) == year_start(year) + days_before_month(year, 13),
{
    lemma_months(year);
    lemma_quotient_step(year, 4);
    lemma_quotient_step(year, 100);
    lemma_quotient_step(year, 400);
    lemma_centuries(year);
}

/// A later year begins later.
proof fn lemma_later_year(early: int, late: int)
    requires
        early <= late,
    ensures
        year_start(early) <= year_start(late),
    decreases late - early,
{
    if early < late {
        lemma_later_year(early, late - 1);
        lemma_next_year(late - 1);
        lemma_months(late - 1);
    }
}

/// A date lies in its year.
proof fn lemma_in_year(year: int, month: int, day: int)
    requires
        is_date(year, month, day),
    ensures
        year_start(year) <= day_number(year, month, day) < year_start(year + 1),
{
    lemma_months(year);
    lemma_next_year(year);
}

/// Two dates so many days after 1970-01-01 are one.
pub proof fn a_day_has_one_date(a: (int, int, int), b: (int, int, int))
    requires
        is_date(a.0, a.1, a.2),
        is_date(b.0, b.1, b.2),
        day_number(a.0, a.1, a.2) == day_number(b.0, b.1, b.2),
    ensures
        a == b,
{
    lemma_in_year(a.0, a.1, a.2);
    lemma_in_year(b.0, b.1, b.2);
    if a.0 < b.0 {
        lemma_later_year(a.0 + 1, b.0);
    }
    if b.0 < a.0 {
        lemma_later_year(b.0 + 1, a.0);
    }
    lemma_months(a.0);
}

/// The date of a day is the one that falls on it.
proof fn lemma_date_of(days: int, date: (int, int, int))
    requires
        falls_on(date, days),
    ensures
        date_of(days) == date,
{
    let found = date_of(days);
    assert(falls_on(found, days));
    a_day_has_one_date(found, date);
}

// ---- four hundred years at a time, from March ----

/// How many days of an era come before a year of it that begins in March.
spec fn era_days(year: int) -> int {
    365 * year + year / 4 - year / 100
}

/// Which year of an era a day of it falls in.
proof fn lemma_year_of_era(doe: int)
    requires
        0 <= doe <= 146_096,
    ensures
        ({
            let yoe = (doe - doe / 1460 + doe / 36524 - doe / 146_096) / 365;
            &&& 0 <= yoe <= 399
            &&& era_days(yoe) <= doe
            &&& yoe < 399 ==> doe < era_days(yoe + 1)
        }),
{
    if doe < 146_096 {
        let c = doe / 36524;
        let r = doe % 36524;
        let k = r / 1461;
        let s = r % 1461;
        let j = if s / 365 > 3 {
            3
        } else {
            s / 365
        };
        let y = 100 * c + 4 * k + j;
        assert(0 <= c <= 3 && 0 <= k <= 24 && 0 <= j <= 3);
        assert(y / 4 == 25 * c + k) by {
            lemma_quotient(y, 4, 25 * c + k);
        }
        assert(y / 100 == c) by {
            lemma_quotient(y, 100, c);
        }
        let doy = doe - era_days(y);
        assert(era_days(y) == 36524 * c + 1461 * k + 365 * j);
        assert(0 <= doy <= 365);
        assert(doy == 365 ==> j == 3);
        let p = 25 * c + k;
        let rest = 365 * j + p - c + doy;
        assert(doe == 1460 * p + rest);
        let extra = if rest >= 1460 {
            1int
        } else {
            0
        };
        assert(0 <= rest < 2920);
        assert(doe / 1460 == p + extra) by {
            lemma_quotient(doe, 1460, p + extra);
        }
        assert(doe / 146_096 == 0);
        assert((doe - doe / 1460 + doe / 36524 - doe / 146_096) / 365 == y) by {
            lemma_quotient(doe - doe / 1460 + doe / 36524 - doe / 146_096, 365, y);
        }
        if y < 399 {
            let next = y + 1;
            if j == 3 {
                assert(next / 4 == p + 1) by {
                    lemma_quotient(next, 4, p + 1);
                }
                if k == 24 {
                    assert(next / 100 == c + 1) by {
                        lemma_quotient(next, 100, c + 1);
                    }
                } else {
                    assert(next / 100 == c) by {
                        lemma_quotient(next, 100, c);
                    }
                }
            } else {
                assert(next / 4 == p) by {
                    lemma_quotient(next, 4, p);
                }
                assert(next / 100 == c) by {
                    lemma_quotient(next, 100, c);
                }
            }
        }
    }
}

/// Where a year that begins in March begins.
proof fn lemma_march_year(era: int, yoe: int)
    requires
        0 <= yoe <= 399,
    ensures
        year_start(yoe + 400 * era + 1) - 306 == 146_097 * era + era_days(yoe) - 719_468,
{
    let year = yoe + 400 * era;
    assert(year / 4 == yoe / 4 + 100 * era) by {
        lemma_quotient(year, 4, yoe / 4 + 100 * era);
    }
    assert(year / 100 == yoe / 100 + 4 * era) by {
        lemma_quotient(year, 100, yoe / 100 + 4 * era);
    }
    assert(year / 400 == era) by {
        lemma_quotient(year, 400, era);
    }
}

/// How many days of a year that begins in March come before a month of it.
spec fn march_days(mp: int) -> int {
    (153 * mp + 2) / 5
}

/// Which month, from March, a day of a year falls in.
proof fn lemma_march_month(doy: int)
    requires
        0 <= doy <= 365,
    ensures
        ({
            let mp = (5 * doy + 2) / 153;
            &&& 0 <= mp <= 11
            &&& march_days(mp) <= doy
            &&& mp < 11 ==> doy < march_days(mp + 1)
        }),
{
}

/// The date of a day of a year that begins in March.
proof fn lemma_march_date(year: int, mp: int, day: int)
    requires
        0 <= mp <= 11,
    ensures
        ({
            let month = if mp < 10 {
                mp + 3
            } else {
                mp - 9
            };
            let civil = if month <= 2 {
                year + 1
            } else {
                year
            };
            &&& day_number(civil, month, day) == year_start(year + 1) - 306 + march_days(mp) + day
                - 1
            &&& mp < 11 ==> month_days(civil, month) == march_days(mp + 1) - march_days(mp)
            &&& mp == 11 ==> month_days(civil, month) == if leap(year + 1) {
                29int
            } else {
                28
            }
        }),
{
    lemma_months(year);
    lemma_months(year + 1);
    lemma_next_year(year);
}

/// A number divided by a positive one, rounding down.
fn floor_div(n: i64, d: i64) -> (q: i64)
    requires
        d > 1,
    ensures
        q == n as int / d as int,
        q * d <= n < q * d + d,
        i64::MIN / 2 <= q <= i64::MAX / 2 + 1,
{
    proof {
        vstd::arithmetic::div_mod::lemma_fundamental_div_mod(n as int, d as int);
        vstd::arithmetic::div_mod::lemma_mod_bound(n as int, d as int);
        let q = n as int / d as int;
        assert(q * d == d * q) by (nonlinear_arith);
        assert(i64::MIN / 2 <= q <= i64::MAX / 2 + 1) by (nonlinear_arith)
            requires
                q * d <= n < q * d + d,
                d > 1,
                i64::MIN <= n <= i64::MAX,
        ;
    }
    match n.checked_div_euclid(d) {
        Some(q) => q,
        None => 0,
    }
}

/// The day count from 1970-01-01 of a date.
pub fn days_from_civil(year: i64, month: i64, day: i64) -> (days: i64)
    requires
        is_date(year as int, month as int, day as int),
        -1_000_000_000_000_000 <= year <= 1_000_000_000_000_000,
    ensures
        days == day_number(year as int, month as int, day as int),
{
    let march: i64 = if month <= 2 {
        year - 1
    } else {
        year
    };
    let era: i64 = floor_div(march, 400);
    let yoe: i64 = march - era * 400;
    let mp: i64 = if month > 2 {
        month - 3
    } else {
        month + 9
    };
    let doy: i64 = floor_div(153 * mp + 2, 5) + day - 1;
    let doe: i64 = yoe * 365 + floor_div(yoe, 4) - floor_div(yoe, 100) + doy;
    proof {
        lemma_march_year(era as int, yoe as int);
        lemma_march_date(march as int, mp as int, day as int);
    }
    era * 146_097 + doe - 719_468
}

/// The civil date of a day count from 1970-01-01, and the day of its year.
///
/// Howard Hinnant's algorithm: no month tables, no leap-year special cases to get
/// wrong. The year comes out in 32 bits.
pub fn civil_from_days(days: i64) -> (date: (i32, i32, i32, i32))
    requires
        -200_000_000_000_000_000 <= days <= 200_000_000_000_000_000,
    ensures
        ({
            let (year, month, day) = date_of(days as int);
            &&& falls_on((year, month, day), days as int)
            &&& date.0 == (year as i64) as i32
            &&& date.1 == month
            &&& date.2 == day
            &&& date.3 == days - year_start(year)
        }),
{
    let z: i64 = days + 719_468;
    let era: i64 = floor_div(z, 146_097);
    let doe: i64 = z - era * 146_097;
    let yoe: i64 = floor_div(
        doe - floor_div(doe, 1460) + floor_div(doe, 36524) - floor_div(doe, 146_096),
        365,
    );
    proof {
        lemma_year_of_era(doe as int);
    }
    let march: i64 = yoe + era * 400;
    let doy: i64 = doe - (365 * yoe + floor_div(yoe, 4) - floor_div(yoe, 100));
    assert(0 <= doy <= 365) by {
        lemma_last_day(doe as int, yoe as int);
    }
    let mp: i64 = floor_div(5 * doy + 2, 153);
    let day: i64 = doy - floor_div(153 * mp + 2, 5) + 1;
    proof {
        lemma_march_month(doy as int);
        lemma_march_year(era as int, yoe as int);
        lemma_march_date(march as int, mp as int, day as int);
        lemma_last_day(doe as int, yoe as int);
        lemma_leap_era(yoe as int, era as int);
    }
    let month: i64 = if mp < 10 {
        mp + 3
    } else {
        mp - 9
    };
    let year: i64 = if month <= 2 {
        march + 1
    } else {
        march
    };
    proof {
        lemma_date_of(days as int, (year as int, month as int, day as int));
        lemma_in_year(year as int, month as int, day as int);
        lemma_next_year(year as int);
        lemma_months(year as int);
    }
    // The day of the year, counted from the first of January of that year.
    let january_first: i64 = days_from_civil(year, 1, 1);
    (year as i32, month as i32, day as i32, (days - january_first) as i32)
}

/// A year that begins in March has 366 days where the next one is a leap year.
proof fn lemma_last_day(doe: int, yoe: int)
    requires
        0 <= yoe <= 399,
        0 <= doe <= 146_096,
        era_days(yoe) <= doe,
        yoe < 399 ==> doe < era_days(yoe + 1),
    ensures
        doe - era_days(yoe) <= 365,
        doe - era_days(yoe) == 365 ==> leap(yoe + 1),
{
    if yoe == 399 {
        assert(era_days(399) == 145_731);
    }
}

/// Whether a year is a leap year does not depend on its era.
proof fn lemma_leap_era(yoe: int, era: int)
    ensures
        leap(yoe + 1 + 400 * era) == leap(yoe + 1),
{
    let a = yoe + 1;
    let b = yoe + 1 + 400 * era;
    vstd::arithmetic::div_mod::lemma_mod_multiples_vanish(100 * era, a, 4);
    assert(b % 4 == a % 4);
    vstd::arithmetic::div_mod::lemma_mod_multiples_vanish(4 * era, a, 100);
    assert(b % 100 == a % 100);
    vstd::arithmetic::div_mod::lemma_mod_multiples_vanish(era, a, 400);
    assert(b % 400 == a % 400);
}

/// Every day falls on its date, however long before or after 1970-01-01.
pub proof fn every_day_has_a_date(days: int)
    ensures
        falls_on(date_of(days), days),
{
    let z = days + 719_468;
    let era = z / 146_097;
    let doe = z % 146_097;
    let yoe = (doe - doe / 1460 + doe / 36524 - doe / 146_096) / 365;
    lemma_year_of_era(doe);
    lemma_last_day(doe, yoe);
    let doy = doe - era_days(yoe);
    let mp = (5 * doy + 2) / 153;
    let day = doy - march_days(mp) + 1;
    let march = yoe + 400 * era;
    lemma_march_month(doy);
    lemma_march_year(era, yoe);
    lemma_march_date(march, mp, day);
    lemma_leap_era(yoe, era);
    let month = if mp < 10 {
        mp + 3
    } else {
        mp - 9
    };
    let year = if month <= 2 {
        march + 1
    } else {
        march
    };
    lemma_date_of(days, (year, month, day));
}

// ---- what the guest is told ----

/// A `struct tm` of 44 bytes: second, minute, hour, day, month from zero, year
/// since 1900, weekday from Sunday, day of the year from zero, then no daylight
/// saving and no offset. Everything is UTC.
pub open spec fn tm_bytes(seconds: i64) -> Seq<u8> {
    let days = seconds as int / 86_400;
    let rest = seconds as int % 86_400;
    let (year, month, day) = date_of(days);
    i32_bytes((rest % 60) as i32) + i32_bytes((rest / 60 % 60) as i32) + i32_bytes(
        (rest / 3600) as i32,
    ) + i32_bytes(day as i32) + i32_bytes((month - 1) as i32) + i32_bytes(
        ((year as i64) as i32).wrapping_sub(1900),
    ) + i32_bytes(((days + 4) % 7) as i32) + i32_bytes((days - year_start(year)) as i32)
        + i32_bytes(0) + i32_bytes(0) + zeros(4)
}

/// Writes the `struct tm` of a time, at the offsets Emscripten's own layout gives.
///
/// Everything is UTC. The host supplies the clock and nothing here reads the
/// machine's: a run whose result depends on which timezone it happened to be in is
/// a run nobody can repeat.
pub fn write_tm<M: Access>(caller: &mut Caller<'_, M>, at: i32, seconds: i64) -> (zero: i32)
    requires
        old(caller).reaches(at, 44),
    ensures
        zero == 0,
        final(caller).contents() == splice(
            old(caller).contents(),
            effective(at, 0),
            tm_bytes(seconds),
        ),
        final(caller).same_limits(old(caller)),
        *final(final(caller).memory) == *final(old(caller).memory),
{
    let days: i64 = floor_div(seconds, 86_400);
    let rest: i64 = match seconds.checked_rem_euclid(86_400) {
        Some(rest) => rest,
        None => 0,
    };
    assert(-200_000_000_000_000 <= days <= 200_000_000_000_000);
    let (year, month, day, yday) = civil_from_days(days);
    let minutes: i64 = floor_div(rest, 60);
    let second: i64 = rest - minutes * 60;
    let hours: i64 = floor_div(minutes, 60);
    let minute: i64 = minutes - hours * 60;
    // 1970-01-01 was a Thursday, which is what anchors the weekday.
    let weeks: i64 = floor_div(days + 4, 7);
    let weekday: i64 = days + 4 - weeks * 7;
    proof {
        assert(rest == seconds as int % 86_400);
        assert(second == rest as int % 60);
        assert(minute == rest as int / 60 % 60);
        assert(hours == rest as int / 3600);
        assert(weekday == (days + 4) % 7);
    }
    let mut bytes: Vec<u8> = Vec::new();
    append_i32(&mut bytes, second as i32);
    append_i32(&mut bytes, minute as i32);
    append_i32(&mut bytes, hours as i32);
    append_i32(&mut bytes, day);
    append_i32(&mut bytes, month - 1);
    append_i32(&mut bytes, year.wrapping_sub(1900));
    append_i32(&mut bytes, weekday as i32);
    append_i32(&mut bytes, yday);
    append_i32(&mut bytes, 0);
    append_i32(&mut bytes, 0);
    append_zeros(&mut bytes, 4);
    assert(bytes@ =~= tm_bytes(seconds));
    caller.write(at, bytes.as_slice());
    0
}

/// The name of the only timezone, as C has it.
pub open spec fn utc() -> Seq<u8> {
    seq![0x55u8, 0x54, 0x43, 0x00]
}

/// Memory with the timezone's name written at an address, unless that is null.
pub open spec fn named_utc(memory: Seq<u8>, name: i32) -> Seq<u8> {
    if name == 0 {
        memory
    } else {
        splice(memory, effective(name, 0), utc())
    }
}

/// `_tzset_js(timezone, daylight, std_name, dst_name)`.
///
/// UTC: the host supplies the clock, and a timezone read from the machine makes a
/// run depend on where it ran.
pub fn tzset<M: Access>(
    caller: &mut Caller<'_, M>,
    timezone: i32,
    daylight: i32,
    std_name: i32,
    dst_name: i32,
)
    requires
        old(caller).reaches(timezone, 4),
        old(caller).reaches(daylight, 4),
        std_name != 0 ==> old(caller).reaches(std_name, 4),
        dst_name != 0 ==> old(caller).reaches(dst_name, 4),
    ensures
        final(caller).contents() == named_utc(
            named_utc(
                splice(
                    splice(old(caller).contents(), effective(timezone, 0), i32_bytes(0)),
                    effective(daylight, 0),
                    i32_bytes(0),
                ),
                std_name,
            ),
            dst_name,
        ),
        final(caller).same_limits(old(caller)),
        *final(final(caller).memory) == *final(old(caller).memory),
{
    caller.write_i32(timezone, 0);
    caller.write_i32(daylight, 0);
    let name: Vec<u8> = vec![0x55u8, 0x54, 0x43, 0x00];
    assert(name@ =~= utc());
    if std_name != 0 {
        caller.write(std_name, name.as_slice());
    }
    if dst_name != 0 {
        caller.write(dst_name, name.as_slice());
    }
}

} // verus!
