//! Gregorian calendar arithmetic counted from the Unix epoch (1970-01-01).

use vstd::prelude::*;

verus! {

/// Gregorian leap-year rule.
pub open spec fn is_leap(year: nat) -> bool {
    (year % 4 == 0 && year % 100 != 0) || year % 400 == 0
}

/// Number of days in a year.
pub open spec fn year_length(year: nat) -> nat {
    if is_leap(year) {
        366
    } else {
        365
    }
}

/// Days from 1970-01-01 to January 1st of `year`, counted year by year.
pub open spec fn days_before_year(year: nat) -> nat
    decreases year,
{
    if year <= 1970 {
        0
    } else {
        days_before_year((year - 1) as nat) + year_length((year - 1) as nat)
    }
}

/// Number of days of month `month` (1 = January); 0 outside 1..=12.
pub open spec fn month_length(month: nat, leap: bool) -> nat {
    if month == 1 {
        31
    } else if month == 2 {
        if leap {
            29
        } else {
            28
        }
    } else if month == 3 {
        31
    } else if month == 4 {
        30
    } else if month == 5 {
        31
    } else if month == 6 {
        30
    } else if month == 7 {
        31
    } else if month == 8 {
        31
    } else if month == 9 {
        30
    } else if month == 10 {
        31
    } else if month == 11 {
        30
    } else if month == 12 {
        31
    } else {
        0
    }
}

/// Days of the months that precede `month` in a year.
pub open spec fn days_before_month(month: nat, leap: bool) -> nat
    decreases month,
{
    if month <= 1 {
        0
    } else {
        days_before_month((month - 1) as nat, leap) + month_length((month - 1) as nat, leap)
    }
}

/// Seconds since the Unix epoch of the given civil date and time of day.
pub open spec fn unix_seconds(year: nat, month: nat, day: nat, hour: nat, min: nat, sec: nat) -> int {
    (days_before_year(year) + days_before_month(month, is_leap(year)) + day - 1) * 86400 + hour
        * 3600 + min * 60 + sec
}

/// The closed form used by the RTC driver for the days before a year.
pub open spec fn days_before_year_closed_form(year: int) -> int {
    (year - 1970) * 365 + (year - 1969) / 4 - (year - 1901) / 100 + (year - 1601) / 400
}

proof fn lemma_div_step(a: int, k: int)
    requires
        a >= 0,
        k > 0,
    ensures
        (a + 1) / k - a / k == if (a + 1) % k == 0 {
            1int
        } else {
            0int
        },
{
    vstd::arithmetic::div_mod::lemma_fundamental_div_mod(a, k);
    vstd::arithmetic::div_mod::lemma_fundamental_div_mod(a + 1, k);
    assert((a + 1) / k - a / k == if (a + 1) % k == 0 {
        1int
    } else {
        0int
    }) by (nonlinear_arith)
        requires
            k > 0,
            a == k * (a / k) + a % k,
            a + 1 == k * ((a + 1) / k) + (a + 1) % k,
            0 <= a % k < k,
            0 <= (a + 1) % k < k,
    ;
}

/// The closed form counts 365 days per common year and 366 per leap year:
/// for every year from 1970 on it equals the year-by-year count.
pub proof fn lemma_days_before_year_closed_form(year: nat)
    requires
        year >= 1970,
    ensures
        days_before_year(year) == days_before_year_closed_form(year as int),
    decreases year,
{
    if year > 1970 {
        let y = (year - 1) as nat;
        lemma_days_before_year_closed_form(y);
        lemma_div_step(y - 1969, 4);
        lemma_div_step(y - 1901, 100);
        lemma_div_step(y - 1601, 400);
        assert((y - 1968) % 4 == 0 <==> y % 4 == 0);
        assert((y - 1900) % 100 == 0 <==> y % 100 == 0);
        assert((y - 1600) % 400 == 0 <==> y % 400 == 0);
    }
}

/// A leap year only adds February 29th: the months before `month` gain one day
/// exactly when `month` comes after February.
pub proof fn lemma_days_before_month_leap(month: nat)
    ensures
        days_before_month(month, true) == days_before_month(month, false) + if month > 2 {
            1nat
        } else {
            0nat
        },
    decreases month,
{
    if month > 1 {
        lemma_days_before_month_leap((month - 1) as nat);
    }
}

/// The months of a year add up to the year: the days before a thirteenth
/// month are the days of the year, so month 13 of a year is January of the
/// next year.
pub proof fn lemma_month_thirteen(year: nat)
    requires
        year >= 1970,
    ensures
        days_before_month(13, is_leap(year)) == year_length(year),
        days_before_year(year) + days_before_month(13, is_leap(year)) == days_before_year(year + 1)
            + days_before_month(1, is_leap(year + 1)),
{
    reveal_with_fuel(days_before_month, 14);
}

} // verus!
