//! The typed duration model and its conversion to and from the canonical
//! scalar (a second count).
//!
//! A `Duration` holds one magnitude per unit.  The canonical form of a
//! second count is the greedy decomposition: the maximal number of whole
//! weeks, then days, hours, minutes, and the remainder as seconds.

use vstd::prelude::*;

verus! {

use vstd::arithmetic::div_mod::{
    lemma_fundamental_div_mod,
    lemma_fundamental_div_mod_converse,
    lemma_mod_bound,
    lemma_multiply_divide_lt,
    lemma_div_pos_is_pos,
    lemma_div_nonincreasing,
};

/// The five recognized units, largest first.
#[derive(Debug, Clone, Copy, PartialEq, Eq, Structural)]
pub enum UnitKind {
    Weeks,
    Days,
    Hours,
    Minutes,
    Seconds,
}

/// How many seconds one second is worth.
pub open spec fn second_factor() -> int {
    1
}

/// How many seconds one minute is worth.
pub open spec fn minute_factor() -> int {
    60 * second_factor()
}

/// How many seconds one hour is worth.
pub open spec fn hour_factor() -> int {
    60 * minute_factor()
}

/// How many seconds one day is worth.
pub open spec fn day_factor() -> int {
    24 * hour_factor()
}

/// How many seconds one week is worth.
pub open spec fn week_factor() -> int {
    7 * day_factor()
}

/// A whole number of weeks.
#[derive(Debug, Clone, Copy, PartialEq, Eq, Structural)]
pub struct Weeks(pub u64);

/// A whole number of days.
#[derive(Debug, Clone, Copy, PartialEq, Eq, Structural)]
pub struct Days(pub u64);

/// A whole number of hours.
#[derive(Debug, Clone, Copy, PartialEq, Eq, Structural)]
pub struct Hours(pub u64);

/// A whole number of minutes.
#[derive(Debug, Clone, Copy, PartialEq, Eq, Structural)]
pub struct Minutes(pub u64);

/// A whole number of seconds.
#[derive(Debug, Clone, Copy, PartialEq, Eq, Structural)]
pub struct Seconds(pub u64);

impl Weeks {
    /// The number of seconds in one week.
    pub fn conversion_factor() -> (r: u64)
        ensures
            r == week_factor(),
    {
        Days::conversion_factor() * 7
    }
}

impl Days {
    /// The number of seconds in one day.
    pub fn conversion_factor() -> (r: u64)
        ensures
            r == day_factor(),
    {
        Hours::conversion_factor() * 24
    }
}

impl Hours {
    /// The number of seconds in one hour.
    pub fn conversion_factor() -> (r: u64)
        ensures
            r == hour_factor(),
    {
        Minutes::conversion_factor() * 60
    }
}

impl Minutes {
    /// The number of seconds in one minute.
    pub fn conversion_factor() -> (r: u64)
        ensures
            r == minute_factor(),
    {
        Seconds::conversion_factor() * 60
    }
}

impl Seconds {
    /// The number of seconds in one second.
    pub fn conversion_factor() -> (r: u64)
        ensures
            r == second_factor(),
    {
        1
    }
}

/// A span of time, decomposed into the five units.  Nothing requires the
/// decomposition to be canonical: `minutes: 90` is a valid (non-canonical)
/// duration worth 5400 seconds.
#[derive(Debug, Clone, Copy, PartialEq, Eq, Structural)]
pub struct Duration {
    pub weeks: Weeks,
    pub days: Days,
    pub hours: Hours,
    pub minutes: Minutes,
    pub seconds: Seconds,
}

impl Duration {
    /// The total number of seconds this duration is worth: the sum of each
    /// unit's magnitude weighted by its conversion factor.
    pub open spec fn total_seconds(self) -> int {
        self.weeks.0 * week_factor() + self.days.0 * day_factor() + self.hours.0 * hour_factor()
            + self.minutes.0 * minute_factor() + self.seconds.0 * second_factor()
    }

    /// Whether the duration is in lowest terms: every magnitude is strictly
    /// below the next unit's conversion ratio.  Weeks are unbounded.
    pub open spec fn is_canonical(self) -> bool {
        self.days.0 < 7 && self.hours.0 < 24 && self.minutes.0 < 60 && self.seconds.0 < 60
    }

    /// The duration with every magnitude zero.
    pub open spec fn zero_spec() -> Duration {
        Duration {
            weeks: Weeks(0),
            days: Days(0),
            hours: Hours(0),
            minutes: Minutes(0),
            seconds: Seconds(0),
        }
    }

    /// The scalar second count equivalent to this duration.
    pub fn as_seconds(&self) -> (r: Seconds)
        requires
            self.total_seconds() <= u64::MAX,
        ensures
            r.0 == self.total_seconds(),
    {
        let w = self.weeks.0 * Weeks::conversion_factor();
        let d = self.days.0 * Days::conversion_factor();
        let h = self.hours.0 * Hours::conversion_factor();
        let m = self.minutes.0 * Minutes::conversion_factor();
        let s = self.seconds.0 * Seconds::conversion_factor();
        Seconds(w + d + h + m + s)
    }

    /// The scalar second count equivalent to this duration, or `None` where
    /// the total does not fit the scalar type.
    pub fn checked_seconds(&self) -> (r: Option<u64>)
        ensures
            r is Some <==> self.total_seconds() <= u64::MAX,
            r is Some ==> r->0 == self.total_seconds(),
    {
        let wf = Weeks::conversion_factor() as u128;
        let df = Days::conversion_factor() as u128;
        let hf = Hours::conversion_factor() as u128;
        let mf = Minutes::conversion_factor() as u128;
        let sf = Seconds::conversion_factor() as u128;
        let w = (self.weeks.0 as u128) * wf;
        let d = (self.days.0 as u128) * df;
        let h = (self.hours.0 as u128) * hf;
        let m = (self.minutes.0 as u128) * mf;
        let s = (self.seconds.0 as u128) * sf;
        let total: u128 = w + d + h + m + s;
        if total <= u64::MAX as u128 {
            Some(total as u64)
        } else {
            None
        }
    }
}

/// The canonical decomposition of a second count: the maximal number of
/// whole weeks, then days, hours, minutes, and the remainder as seconds.
pub open spec fn decompose(s: int) -> Duration
    recommends
        0 <= s <= u64::MAX,
{
    let w = s / week_factor();
    let r1 = s % week_factor();
    let d = r1 / day_factor();
    let r2 = r1 % day_factor();
    let h = r2 / hour_factor();
    let r3 = r2 % hour_factor();
    let m = r3 / minute_factor();
    let sec = r3 % minute_factor();
    Duration {
        weeks: Weeks(w as u64),
        days: Days(d as u64),
        hours: Hours(h as u64),
        minutes: Minutes(m as u64),
        seconds: Seconds(sec as u64),
    }
}

/// Decomposition is total and lossless: every non-negative scalar second
/// count decomposes into exactly one canonical duration worth that many
/// seconds.
pub proof fn lemma_decompose(s: int)
    requires
        0 <= s <= u64::MAX,
    ensures
        decompose(s).total_seconds() == s,
        decompose(s).is_canonical(),
        decompose(s).weeks.0 == s / week_factor(),
{
    let w = s / week_factor();
    let r1 = s % week_factor();
    lemma_fundamental_div_mod(s, week_factor());
    lemma_mod_bound(s, week_factor());
    lemma_div_pos_is_pos(s, week_factor());
    lemma_div_nonincreasing(s, week_factor());

    let d = r1 / day_factor();
    let r2 = r1 % day_factor();
    lemma_fundamental_div_mod(r1, day_factor());
    lemma_mod_bound(r1, day_factor());
    lemma_div_pos_is_pos(r1, day_factor());
    lemma_multiply_divide_lt(r1, day_factor(), 7);

    let h = r2 / hour_factor();
    let r3 = r2 % hour_factor();
    lemma_fundamental_div_mod(r2, hour_factor());
    lemma_mod_bound(r2, hour_factor());
    lemma_div_pos_is_pos(r2, hour_factor());
    lemma_multiply_divide_lt(r2, hour_factor(), 24);

    let m = r3 / minute_factor();
    let sec = r3 % minute_factor();
    lemma_fundamental_div_mod(r3, minute_factor());
    lemma_mod_bound(r3, minute_factor());
    lemma_div_pos_is_pos(r3, minute_factor());
    lemma_multiply_divide_lt(r3, minute_factor(), 60);

    let dur = decompose(s);
    assert(dur.weeks.0 == w && dur.days.0 == d && dur.hours.0 == h && dur.minutes.0 == m
        && dur.seconds.0 == sec);
    assert(s == 604800 * w + 86400 * d + 3600 * h + 60 * m + sec);
    assert(dur.total_seconds() == w * 604800 + d * 86400 + h * 3600 + m * 60 + sec);
}

/// The round trip promised of the scalar: converting any non-negative
/// second count to its canonical duration and back reproduces the count.
pub proof fn lemma_round_trip(s: u64)
    ensures
        decompose(s as int).total_seconds() == s,
{
    lemma_decompose(s as int);
}

/// Canonical idempotence: re-decomposing the second count of any duration,
/// canonical or not, yields a duration in lowest terms (each magnitude
/// strictly below the next unit's conversion ratio).
pub proof fn lemma_canonical_idempotence(d: Duration)
    requires
        d.total_seconds() <= u64::MAX,
    ensures
        decompose(d.total_seconds()).is_canonical(),
        decompose(d.total_seconds()).total_seconds() == d.total_seconds(),
{
    lemma_decompose(d.total_seconds());
}

/// Canonical forms are fixed points: a duration already in lowest terms is
/// reproduced exactly by decomposing its own second count.  Together with
/// `lemma_decompose` this makes the decomposition of a second count the one
/// canonical duration worth it, and the round trip through the scalar
/// lossless on canonical durations.
pub proof fn lemma_canonical_fixed_point(d: Duration)
    requires
        d.is_canonical(),
        d.total_seconds() <= u64::MAX,
    ensures
        decompose(d.total_seconds()) == d,
{
    let s = d.total_seconds();
    let w = d.weeks.0 as int;
    let dd = d.days.0 as int;
    let h = d.hours.0 as int;
    let m = d.minutes.0 as int;
    let sec = d.seconds.0 as int;

    let r3 = m * 60 + sec;
    let r2 = h * 3600 + r3;
    let r1 = dd * 86400 + r2;
    assert(s == w * 604800 + r1);
    assert(0 <= r1 < 604800);
    lemma_fundamental_div_mod_converse(s, 604800, w, r1);

    assert(0 <= r2 < 86400);
    lemma_fundamental_div_mod_converse(r1, 86400, dd, r2);

    assert(0 <= r3 < 3600);
    lemma_fundamental_div_mod_converse(r2, 3600, h, r3);

    assert(0 <= sec < 60);
    lemma_fundamental_div_mod_converse(r3, 60, m, sec);
}

/// The fixed conversion table, stated exactly.
pub proof fn lemma_unit_factors()
    ensures
        second_factor() == 1,
        minute_factor() == 60,
        hour_factor() == 3600,
        day_factor() == 86400,
        week_factor() == 604800,
{
}

impl Duration {
    /// The canonical duration worth the given number of seconds: greedy
    /// decomposition, largest unit first.
    pub fn from_seconds(s: Seconds) -> (r: Duration)
        ensures
            r == decompose(s.0 as int),
            r.total_seconds() == s.0,
            r.is_canonical(),
    {
        proof {
            lemma_decompose(s.0 as int);
        }
        let mut rest = s.0;

        let weeks = Weeks(rest / Weeks::conversion_factor());
        rest = rest % Weeks::conversion_factor();

        let days = Days(rest / Days::conversion_factor());
        rest = rest % Days::conversion_factor();

        let hours = Hours(rest / Hours::conversion_factor());
        rest = rest % Hours::conversion_factor();

        let minutes = Minutes(rest / Minutes::conversion_factor());
        rest = rest % Minutes::conversion_factor();

        let seconds = Seconds(rest / Seconds::conversion_factor());
        rest = rest % Seconds::conversion_factor();

        proof {
            assert(rest == 0);
        }
        Duration { weeks, days, hours, minutes, seconds }
    }
}

impl Default for Duration {
    /// The zero duration.
    fn default() -> (r: Duration)
        ensures
            r == Duration::zero_spec(),
    {
        Duration {
            weeks: Weeks(0),
            days: Days(0),
            hours: Hours(0),
            minutes: Minutes(0),
            seconds: Seconds(0),
        }
    }
}

} // verus!
