//! Wall-clock values used by the scheduler: a time of day with nanosecond
//! precision and a calendar date counted in days from the Common Era.
use vstd::prelude::*;

verus! {

/// Seconds in one civil day.
pub const SECS_PER_DAY: u32 = 86400;

/// One second in nanoseconds.
pub const NANOS_PER_SEC: u32 = 1_000_000_000;

/// The time of day at which the ceremony starts: 09:00:00, in seconds after midnight.
pub const CEREMONY_SECS: u32 = 32400;

/// A time of day: whole seconds after midnight and the nanoseconds within that second.
#[derive(Clone, Copy, Debug, PartialEq, Eq, Structural)]
pub struct TimeOfDay {
    pub secs: u32,
    pub nanos: u32,
}

impl TimeOfDay {
    /// Both components lie in their ranges.
    pub open spec fn wf(self) -> bool {
        self.secs < SECS_PER_DAY && self.nanos < NANOS_PER_SEC
    }

    /// The hour, 0 to 23.
    pub open spec fn spec_hour(self) -> int {
        self.secs as int / 3600
    }

    /// The minute within the hour.
    pub open spec fn spec_minute(self) -> int {
        (self.secs as int % 3600) / 60
    }

    /// The whole second within the minute.
    pub open spec fn spec_second(self) -> int {
        self.secs as int % 60
    }

    /// `self` comes strictly before `other` on the same day.
    pub open spec fn before(self, other: TimeOfDay) -> bool {
        self.secs < other.secs || (self.secs == other.secs && self.nanos < other.nanos)
    }

    /// A time from whole hours, minutes and seconds; `None` when a component is out of range.
    pub fn from_hms(hour: u32, minute: u32, second: u32) -> (r: Option<TimeOfDay>)
        ensures
            (hour < 24 && minute < 60 && second < 60) <==> r is Some,
            r matches Some(t) ==> t.wf() && t.secs == hour * 3600 + minute * 60 + second
                && t.nanos == 0,
    {
        if hour < 24 && minute < 60 && second < 60 {
            Some(TimeOfDay { secs: hour * 3600 + minute * 60 + second, nanos: 0 })
        } else {
            None
        }
    }

    /// A time from seconds after midnight and nanoseconds; `None` when a component is out of range.
    pub fn from_secs_nanos(secs: u32, nanos: u32) -> (r: Option<TimeOfDay>)
        ensures
            (secs < SECS_PER_DAY && nanos < NANOS_PER_SEC) <==> r is Some,
            r matches Some(t) ==> t.wf() && t.secs == secs && t.nanos == nanos,
    {
        if secs < SECS_PER_DAY && nanos < NANOS_PER_SEC {
            Some(TimeOfDay { secs, nanos })
        } else {
            None
        }
    }

    /// The ceremony time, 09:00:00.
    pub fn ceremony() -> (r: TimeOfDay)
        ensures
            r.wf(),
            r.secs == CEREMONY_SECS,
            r.nanos == 0,
    {
        TimeOfDay { secs: CEREMONY_SECS, nanos: 0 }
    }

    /// The hour, 0 to 23.
    pub fn hour(&self) -> (r: u32)
        requires
            self.wf(),
        ensures
            r == self.spec_hour(),
            r < 24,
    {
        self.secs / 3600
    }

    /// The minute within the hour, 0 to 59.
    pub fn minute(&self) -> (r: u32)
        requires
            self.wf(),
        ensures
            r == self.spec_minute(),
            r < 60,
    {
        (self.secs % 3600) / 60
    }

    /// The second within the minute, 0 to 59.
    pub fn second(&self) -> (r: u32)
        requires
            self.wf(),
        ensures
            r == self.spec_second(),
            r < 60,
    {
        self.secs % 60
    }

    /// Strict order on times of day.
    pub fn is_before(&self, other: &TimeOfDay) -> (r: bool)
        ensures
            r == self.before(*other),
    {
        self.secs < other.secs || (self.secs == other.secs && self.nanos < other.nanos)
    }

    /// This time moved back by `secs` seconds, wrapping around midnight.
    pub fn minus_seconds(&self, secs: i64) -> (r: TimeOfDay)
        requires
            self.wf(),
        ensures
            r.wf(),
            r.nanos == self.nanos,
            r.secs == (self.secs - secs) % (SECS_PER_DAY as int),
    {
        let day: i64 = SECS_PER_DAY as i64;
        let back: i64 = secs % day;
        let back_nonneg: i64 = if back < 0 { back + day } else { back };
        let s: i64 = self.secs as i64 - back_nonneg;
        let wrapped: i64 = if s < 0 { s + day } else { s };
        proof {
            let m = SECS_PER_DAY as int;
            let x = secs as int;
            vstd::arithmetic::div_mod::lemma_fundamental_div_mod(x, m);
            assert(back_nonneg == x % m);
            let q = x / m;
            let k = -q - (if s < 0 { 1int } else { 0int });
            assert(self.secs - x == m * k + wrapped) by (nonlinear_arith)
                requires
                    x == m * q + back_nonneg,
                    s as int == self.secs - back_nonneg,
                    wrapped as int == (if s < 0 { s + m } else { s as int }),
                    k == -q - (if s < 0 { 1int } else { 0int }),
            ;
            vstd::arithmetic::div_mod::lemma_mod_multiples_vanish(k, wrapped as int, m);
            vstd::arithmetic::div_mod::lemma_small_mod(wrapped as nat, m as nat);
        }
        TimeOfDay { secs: wrapped as u32, nanos: self.nanos }
    }

    /// Whole seconds from `earlier` to `self`, truncated toward zero.
    pub fn whole_seconds_since(&self, earlier: &TimeOfDay) -> (r: i64)
        requires
            self.wf(),
            earlier.wf(),
        ensures
            r == whole_seconds_between(*earlier, *self),
    {
        let ds: i64 = self.secs as i64 - earlier.secs as i64;
        if ds > 0 && self.nanos < earlier.nanos {
            ds - 1
        } else if ds < 0 && self.nanos > earlier.nanos {
            ds + 1
        } else {
            ds
        }
    }
}

/// Whole seconds elapsed from `from` to `to`, truncated toward zero, as a
/// signed duration between two times of the same day.
pub open spec fn whole_seconds_between(from: TimeOfDay, to: TimeOfDay) -> int {
    let ds = to.secs - from.secs;
    if ds > 0 && to.nanos < from.nanos {
        ds - 1
    } else if ds < 0 && to.nanos > from.nanos {
        ds + 1
    } else {
        ds
    }
}

/// A calendar date in the proleptic Gregorian calendar, as the number of days
/// with 0001-01-01 being day 1.
#[derive(Clone, Copy, Debug, PartialEq, Eq, Structural)]
pub struct CivilDate {
    pub days_from_ce: i32,
}

/// The day of the week counted from Monday as 1 to Sunday as 7;
/// 0001-01-01 was a Monday.
pub open spec fn weekday_number(d: CivilDate) -> int {
    ((d.days_from_ce - 1) % 7) + 1
}

impl CivilDate {
    pub fn new(days_from_ce: i32) -> (r: CivilDate)
        ensures
            r.days_from_ce == days_from_ce,
    {
        CivilDate { days_from_ce }
    }

    /// The day of the week, Monday being 1 and Sunday 7.
    pub fn number_from_monday(&self) -> (r: u32)
        ensures
            r == weekday_number(*self),
            1 <= r <= 7,
    {
        let shift: i64 = 7 * 400_000_000;
        let shifted: i64 = self.days_from_ce as i64 - 1 + shift;
        let rem: i64 = shifted % 7;
        proof {
            vstd::arithmetic::div_mod::lemma_mod_multiples_vanish(
                400_000_000,
                self.days_from_ce - 1,
                7,
            );
        }
        (rem + 1) as u32
    }

    /// Whether this is Saturday or Sunday.
    pub fn is_weekend(&self) -> (r: bool)
        ensures
            r == (weekday_number(*self) > 5),
    {
        self.number_from_monday() > 5
    }
}

/// One civil day in nanoseconds.
pub const NANOS_PER_DAY: u64 = 86_400_000_000_000;

/// Days from the Common Era (0001-01-01 being day 1) of 1970-01-01.
pub const UNIX_EPOCH_DAYS_FROM_CE: i32 = 719_163;

/// The first date the clock library represents (-262143-01-01), in days from
/// the Common Era.
pub const MIN_DAYS_FROM_CE: i32 = -95_746_129;

/// The last date the clock library represents (262142-12-31), in days from
/// the Common Era.
pub const MAX_DAYS_FROM_CE: i32 = 95_745_399;

/// The UTC instant, in nanoseconds since 1970-01-01T00:00:00Z, of a system
/// clock reading corrected by the NTP offset in milliseconds, if any.
pub open spec fn corrected_utc_nanos(utc_secs: i64, utc_nanos: u32, ntp_offset_ms: Option<i64>) -> int {
    utc_secs * 1_000_000_000 + utc_nanos + match ntp_offset_ms {
        Some(o) => o * 1_000_000,
        None => 0,
    }
}

/// The UTC instant's date, in days from the Common Era.
pub open spec fn utc_days_from_ce(instant_nanos: int) -> int {
    instant_nanos / (NANOS_PER_DAY as int) + UNIX_EPOCH_DAYS_FROM_CE
}

/// The local date and time at a UTC instant (nanoseconds since the Unix
/// epoch) on a clock `offset_secs` seconds east of UTC.
pub open spec fn local_date_time(instant_nanos: int, offset_secs: int) -> (CivilDate, TimeOfDay) {
    let local = instant_nanos + offset_secs * 1_000_000_000;
    let in_day = local % (NANOS_PER_DAY as int);
    (
        CivilDate { days_from_ce: (local / (NANOS_PER_DAY as int) + UNIX_EPOCH_DAYS_FROM_CE) as i32 },
        TimeOfDay { secs: (in_day / 1_000_000_000) as u32, nanos: (in_day % 1_000_000_000) as u32 },
    )
}

/// The local date and time that the scheduler works with: the system clock's
/// UTC reading (whole seconds since the Unix epoch and nanoseconds), moved by
/// the NTP offset when one is known, seen on a clock `offset_secs` east of UTC.
pub fn synchronized_local_now(utc_secs: i64, utc_nanos: u32, ntp_offset_ms: Option<i64>, offset_secs: i32) -> (r: (
    CivilDate,
    TimeOfDay,
))
    requires
        utc_nanos < NANOS_PER_SEC,
        ntp_offset_ms != Some(i64::MIN),
        -86_400 < offset_secs < 86_400,
        MIN_DAYS_FROM_CE <= utc_days_from_ce(corrected_utc_nanos(utc_secs, utc_nanos, ntp_offset_ms))
            <= MAX_DAYS_FROM_CE,
    ensures
        r == local_date_time(corrected_utc_nanos(utc_secs, utc_nanos, ntp_offset_ms), offset_secs as int),
        r.0.days_from_ce == (corrected_utc_nanos(utc_secs, utc_nanos, ntp_offset_ms) + offset_secs
            * 1_000_000_000) / (NANOS_PER_DAY as int) + UNIX_EPOCH_DAYS_FROM_CE,
        r.1.wf(),
{
    let ntp_ns: i128 = match ntp_offset_ms {
        Some(o) => (o as i128) * 1_000_000,
        None => 0,
    };
    let corrected: i128 = (utc_secs as i128) * 1_000_000_000 + (utc_nanos as i128) + ntp_ns;
    let local: i128 = corrected + (offset_secs as i128) * 1_000_000_000;
    let ghost day: int = NANOS_PER_DAY as int;
    let ghost qc: int = corrected as int / day;
    let ghost ql: int = local as int / day;
    let ghost rl: int = local as int % day;
    proof {
        assert(corrected as int == corrected_utc_nanos(utc_secs, utc_nanos, ntp_offset_ms));
        vstd::arithmetic::div_mod::lemma_fundamental_div_mod(corrected as int, day);
        vstd::arithmetic::div_mod::lemma_fundamental_div_mod(local as int, day);
        vstd::arithmetic::div_mod::lemma_mod_bound(corrected as int, day);
        vstd::arithmetic::div_mod::lemma_mod_bound(local as int, day);
        assert(qc - 1 <= ql <= qc + 1);
        assert(-96_465_293 <= ql <= 95_026_237);
    }
    let shifted: i128 = local + 100_000_000 * 86_400_000_000_000;
    let sh: u128 = shifted as u128;
    let q: u128 = sh / 86_400_000_000_000;
    let in_day: u128 = sh % 86_400_000_000_000;
    proof {
        vstd::arithmetic::div_mod::lemma_fundamental_div_mod(sh as int, day);
        vstd::arithmetic::div_mod::lemma_mod_bound(sh as int, day);
        assert(q as int == ql + 100_000_000);
        assert(in_day as int == rl);
    }
    let days: i128 = (q as i128) - 100_000_000 + 719_163;
    let secs: u32 = (in_day / 1_000_000_000) as u32;
    let nanos: u32 = (in_day % 1_000_000_000) as u32;
    (CivilDate { days_from_ce: days as i32 }, TimeOfDay { secs, nanos })
}

} // verus!
