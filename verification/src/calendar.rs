//! Days of the Gregorian calendar.

use vstd::prelude::*;

verus! {

/// `y` is a leap year.
pub open spec fn leap(y: int) -> bool {
    y % 4 == 0 && (y % 100 != 0 || y % 400 == 0)
}

/// The days of year `y`.
pub open spec fn year_length(y: int) -> int {
    if leap(y) {
        366
    } else {
        365
    }
}

/// The days of month `m` of year `y`.
pub open spec fn month_length(y: int, m: int) -> int {
    if m == 2 {
        if leap(y) {
            29
        } else {
            28
        }
    } else if m == 4 || m == 6 || m == 9 || m == 11 {
        30
    } else {
        31
    }
}

/// The days of year `y` before month `m`.
pub open spec fn month_start(y: int, m: int) -> int
    decreases m,
{
    if m <= 1 {
        0
    } else {
        month_start(y, m - 1) + month_length(y, m - 1)
    }
}

/// The leap years from year 1 on that come before `y`.
pub open spec fn leaps_before(y: int) -> int {
    (y - 1) / 4 - (y - 1) / 100 + (y - 1) / 400
}

/// The days from 1970-01-01 to the first day of year `y`.
pub open spec fn year_start(y: int) -> int {
    365 * (y - 1970) + leaps_before(y) - leaps_before(1970)
}

/// The days from 1970-01-01 to day `d` of month `m` of year `y`.
pub open spec fn day_number(y: int, m: int, d: int) -> int {
    year_start(y) + month_start(y, m) + d - 1
}

/// There is such a day.
pub open spec fn is_date(y: int, m: int, d: int) -> bool {
    1 <= m <= 12 && 1 <= d <= month_length(y, m)
}

/// Each year starts when the one before it is over, and the first day of 1970 is the day with
/// number zero.
pub proof fn law_years_follow_each_other(y: int)
    ensures
        year_start(y + 1) == year_start(y) + year_length(y),
        month_start(y, 13) == year_length(y),
        day_number(1970, 1, 1) == 0,
{
    reveal_with_fuel(month_start, 14);
    assert(y / 4 == (y - 1) / 4 + if y % 4 == 0 {
        1int
    } else {
        0
    });
    assert(y / 100 == (y - 1) / 100 + if y % 100 == 0 {
        1int
    } else {
        0
    });
    assert(y / 400 == (y - 1) / 400 + if y % 400 == 0 {
        1int
    } else {
        0
    });
}

/// The days between the first of March and the first day of month `m`, counted in a year that
/// begins with March; `k` is zero for March.
pub open spec fn march_start(k: int) -> int {
    (153 * k + 2) / 5
}

proof fn lemma_march(y: int, m: int)
    requires
        1 <= m <= 12,
    ensures
        m > 2 ==> month_start(y, m) == march_start(m - 3) + year_length(y) - 306,
        m <= 2 ==> month_start(y, m) == march_start(m + 9) - 306,
{
    reveal_with_fuel(month_start, 13);
}

/// The days from the first of March of year 0 to the first of March of year `y`.
pub open spec fn march_of(y: int) -> int {
    365 * y + y / 4 - y / 100 + y / 400
}

proof fn lemma_march_of(y: int)
    ensures
        march_of(y) == year_start(y) + year_length(y) - 306 + 719468,
        march_of(y) == year_start(y + 1) - 306 + 719468,
{
    law_years_follow_each_other(y);
}

/// The days from 1970-01-01 to day `d` of month `m` of year `y`. A day beyond the end of the
/// month counts on into the next.
pub fn days_from_civil(y: i32, m: u32, d: u32) -> (r: i64)
    requires
        1 <= m <= 12,
    ensures
        r == day_number(y as int, m as int, d as int),
{
    let yy: i64 = if m <= 2 {
        y as i64 - 1
    } else {
        y as i64
    };
    let from: i64 = if yy >= 0 {
        yy
    } else {
        yy - 399
    };
    let era: i64 = if from >= 0 {
        from / 400
    } else {
        -((-from) / 400)
    };
    let ghost e = yy as int / 400;
    assert(era == e);
    let yoe: i64 = yy - era * 400;
    assert(0 <= yoe <= 399);
    let m_adj: i64 = if m > 2 {
        m as i64 - 3
    } else {
        m as i64 + 9
    };
    let doy: i64 = (153 * m_adj + 2) / 5 + d as i64 - 1;
    let doe: i64 = yoe * 365 + yoe / 4 - yoe / 100 + doy;
    proof {
        let k = yoe as int;
        assert(yy as int / 4 == 100 * e + k / 4);
        assert(yy as int / 100 == 4 * e + k / 100);
        lemma_march(y as int, m as int);
        lemma_march_of(yy as int);
        assert(era * 146097 + doe - doy == march_of(yy as int));
    }
    era * 146097 + doe - 719468
}

/// The year of a cycle of four centuries in which a day of the cycle falls, where years and
/// cycles begin with March.
pub open spec fn year_of_era(doe: int) -> int {
    (doe - doe / 1460 + doe / 36524 - doe / 146096) / 365
}

proof fn lemma_year_of_era(doe: int)
    requires
        0 <= doe <= 146096,
    ensures
        0 <= year_of_era(doe) <= 399,
        march_of(year_of_era(doe)) <= doe < march_of(year_of_era(doe) + 1),
{
    let c = if doe / 36524 > 3 {
        3
    } else {
        doe / 36524
    };
    let r = doe - 36524 * c;
    let q = r / 1461;
    let s = r - 1461 * q;
    let n = if s / 365 > 3 {
        3
    } else {
        s / 365
    };
    let t = s - 365 * n;
    let y = 100 * c + 4 * q + n;
    assert(0 <= c <= 3);
    assert(0 <= r <= 36524);
    assert(r == 36524 ==> c == 3);
    assert(0 <= q <= 24);
    assert(0 <= s <= 1460);
    assert(0 <= n <= 3);
    assert(0 <= t <= 365);
    assert(t == 365 ==> n == 3);
    assert(y / 4 == 25 * c + q);
    assert(y / 100 == c);
    assert(y / 400 == 0);
    assert(march_of(y) == doe - t);
    let over = (24 * c + q + 365 * n + t) / 1460;
    assert(doe == 1460 * (25 * c + q) + (24 * c + q + 365 * n + t));
    assert(doe / 1460 == 25 * c + q + over);
    assert(doe / 36524 - doe / 146096 == c);
    assert(year_of_era(doe) == (365 * y + t - over) / 365);
    assert(0 <= t - over < 365);
    assert(year_of_era(doe) == y);
    if t == 365 {
        assert((y + 1) % 4 == 0);
        assert(q == 24 ==> c == 3);
        if q < 24 {
            assert((y + 1) / 4 == 25 * c + q + 1);
            assert((y + 1) / 100 == c);
        } else {
            assert(y == 399);
        }
    } else {
        assert((y + 1) / 4 - (y + 1) / 100 + (y + 1) / 400 >= y / 4 - y / 100 + y / 400);
    }
}

proof fn lemma_month_of_year(doy: int)
    requires
        0 <= doy <= 365,
    ensures
        ({
            let k = (5 * doy + 2) / 153;
            &&& 0 <= k <= 11
            &&& march_start(k) <= doy < march_start(k + 1)
        }),
{
}

proof fn lemma_march_length(y: int, k: int)
    requires
        0 <= k <= 11,
    ensures
        k < 10 ==> march_start(k + 1) - march_start(k) == month_length(y, k + 3),
        k == 10 ==> march_start(k + 1) - march_start(k) == month_length(y, 1),
        march_start(0) == 0,
        march_start(11) == 337,
{
}

/// The day with number `days`, as year, month and day of the month.
pub fn days_to_ymd(days: u64) -> (r: (u64, u64, u64))
    requires
        days <= u64::MAX - 719468,
    ensures
        is_date(r.0 as int, r.1 as int, r.2 as int),
        day_number(r.0 as int, r.1 as int, r.2 as int) == days,
{
    let z: u64 = days + 719468;
    let era: u64 = z / 146097;
    let doe: u64 = z - era * 146097;
    proof {
        lemma_year_of_era(doe as int);
    }
    let yoe: u64 = (doe - doe / 1460 + doe / 36524 - doe / 146096) / 365;
    assert(yoe == year_of_era(doe as int));
    let y: u64 = yoe + era * 400;
    let doy: u64 = doe - (365 * yoe + yoe / 4 - yoe / 100);
    proof {
        let e = era as int;
        let k = yoe as int;
        assert(y as int / 4 == 100 * e + k / 4);
        assert(y as int / 100 == 4 * e + k / 100);
        assert(y as int / 400 == e);
        assert(march_of(y as int) == 146097 * e + march_of(k));
        assert((y + 1) / 4 == 100 * e + (k + 1) / 4);
        assert((y + 1) / 100 == 4 * e + (k + 1) / 100);
        assert((y + 1) / 400 == e + (k + 1) / 400);
        assert(march_of(y + 1) == 146097 * e + march_of(k + 1));
        assert(doy == days + 719468 - march_of(y as int));
        assert(doy < march_of(y + 1) - march_of(y as int));
        law_years_follow_each_other(y as int);
        law_years_follow_each_other(y + 1);
        lemma_march_of(y as int);
        lemma_march_of(y + 1);
        assert(march_of(y + 1) - march_of(y as int) == year_length(y + 1));
        lemma_month_of_year(doy as int);
    }
    let mp: u64 = (5 * doy + 2) / 153;
    let d: u64 = doy - (153 * mp + 2) / 5 + 1;
    let m: u64 = if mp < 10 {
        mp + 3
    } else {
        mp - 9
    };
    let yy: u64 = if m <= 2 {
        y + 1
    } else {
        y
    };
    proof {
        lemma_march(yy as int, m as int);
        lemma_march_length(yy as int, mp as int);
    }
    (yy, m, d)
}

/// No two dates have the same number, so that turning a date into its number and back gives
/// the date again.
pub proof fn law_day_numbers_are_unique(y: int, m: int, d: int, yy: int, mm: int, dd: int)
    requires
        is_date(y, m, d),
        is_date(yy, mm, dd),
        day_number(y, m, d) == day_number(yy, mm, dd),
    ensures
        y == yy,
        m == mm,
        d == dd,
{
    lemma_within_year(y, m, d);
    lemma_within_year(yy, mm, dd);
    if y < yy {
        lemma_years_grow(y + 1, yy);
        law_years_follow_each_other(y);
    } else if yy < y {
        lemma_years_grow(yy + 1, y);
        law_years_follow_each_other(yy);
    }
    if m < mm {
        lemma_months_grow(y, m + 1, mm);
    } else if mm < m {
        lemma_months_grow(y, mm + 1, m);
    }
}

proof fn lemma_years_grow(y: int, yy: int)
    requires
        y <= yy,
    ensures
        year_start(y) <= year_start(yy),
    decreases yy - y,
{
    if y < yy {
        lemma_years_grow(y, yy - 1);
        law_years_follow_each_other(yy - 1);
    }
}

proof fn lemma_months_grow(y: int, m: int, mm: int)
    requires
        1 <= m <= mm,
    ensures
        month_start(y, m) <= month_start(y, mm),
    decreases mm - m,
{
    if m < mm {
        lemma_months_grow(y, m, mm - 1);
    }
}

proof fn lemma_within_year(y: int, m: int, d: int)
    requires
        is_date(y, m, d),
    ensures
        year_start(y) <= day_number(y, m, d) < year_start(y + 1),
{
    lemma_months_grow(y, 1, m);
    lemma_months_grow(y, m + 1, 13);
    law_years_follow_each_other(y);
}

} // verus!
