//! Simulated time. All times are counted in whole seconds: an `Instant`
//! since the simulation began, a `Duration` as a length of time, and a
//! `TimeOfDay` since the last midnight.

use vstd::prelude::*;

verus! {

/// The length of a day in seconds.
pub const SECONDS_PER_DAY: u32 = 86_400;

/// The length of an hour in seconds.
pub const SECONDS_PER_HOUR: u32 = 3_600;

/// The length of a minute in seconds.
pub const SECONDS_PER_MINUTE: u32 = 60;

/// A point in simulated time: the seconds since the simulation began.
#[derive(Clone, Copy, PartialEq, Eq, Structural, Debug)]
pub struct Instant(pub u64);

/// A length of simulated time in seconds.
#[derive(Clone, Copy, PartialEq, Eq, Structural, Debug)]
pub struct Duration(pub u64);

/// A time of day: the seconds since midnight, always less than a day.
#[derive(Clone, Copy, PartialEq, Eq, Structural, Debug)]
pub struct TimeOfDay {
    seconds: u32,
}

/// The time of day that lies `duration` seconds before `time`, both in
/// seconds; the clock wraps at midnight.
pub open spec fn clock_earlier(time: nat, duration: nat) -> nat {
    ((time as int - duration as int) % (SECONDS_PER_DAY as int)) as nat
}

/// The time of day at an instant, both in seconds.
pub open spec fn clock_at(instant: nat) -> nat {
    instant % (SECONDS_PER_DAY as nat)
}

impl View for Instant {
    type V = nat;

    open spec fn view(&self) -> nat {
        self.0 as nat
    }
}

impl View for Duration {
    type V = nat;

    open spec fn view(&self) -> nat {
        self.0 as nat
    }
}

impl View for TimeOfDay {
    type V = nat;

    closed spec fn view(&self) -> nat {
        self.seconds as nat
    }
}

impl TimeOfDay {
    #[verifier::type_invariant]
    spec fn within_a_day(self) -> bool {
        self.seconds < SECONDS_PER_DAY
    }

    /// The time `hours:minutes`. Hours from 24 on and minutes from 60 on
    /// run over into the following hours and days.
    pub fn new(hours: u8, minutes: u8) -> (time: TimeOfDay)
        ensures
            time@ == (hours * 3_600 + minutes * 60) % 86_400,
    {
        let seconds: u32 = hours as u32 * SECONDS_PER_HOUR + minutes as u32 * SECONDS_PER_MINUTE;
        TimeOfDay { seconds: seconds % SECONDS_PER_DAY }
    }

    /// The time of day `seconds` after midnight. Seconds from a day on
    /// run over into the following days.
    pub fn from_seconds(seconds: u32) -> (time: TimeOfDay)
        ensures
            time@ == seconds % 86_400,
    {
        TimeOfDay { seconds: seconds % SECONDS_PER_DAY }
    }

    /// The time of day at `instant`.
    pub fn from_instant(instant: Instant) -> (time: TimeOfDay)
        ensures
            time@ == clock_at(instant@),
    {
        let seconds: u64 = instant.0 % (SECONDS_PER_DAY as u64);
        TimeOfDay { seconds: seconds as u32 }
    }

    /// The seconds since midnight.
    pub fn seconds_since_midnight(&self) -> (seconds: u32)
        ensures
            seconds == self@,
            seconds < SECONDS_PER_DAY,
    {
        proof {
            use_type_invariant(self);
        }
        self.seconds
    }

    /// Whether `self` comes before `other` on the same day.
    pub fn is_before(&self, other: &TimeOfDay) -> (before: bool)
        ensures
            before == (self@ < other@),
    {
        self.seconds < other.seconds
    }

    /// The time of day `duration` before `self`; the clock wraps at
    /// midnight.
    pub fn earlier_by(&self, duration: Duration) -> (time: TimeOfDay)
        ensures
            time@ == clock_earlier(self@, duration@),
    {
        proof {
            use_type_invariant(self);
        }
        let back: u32 = (duration.0 % (SECONDS_PER_DAY as u64)) as u32;
        let seconds: u32 = (self.seconds + (SECONDS_PER_DAY - back)) % SECONDS_PER_DAY;
        proof {
            lemma_clock_earlier(self.seconds as nat, duration.0 as nat);
        }
        TimeOfDay { seconds }
    }
}

/// Going back by a duration is going back by what is left of it after
/// whole days are taken away.
pub proof fn lemma_clock_earlier(time: nat, duration: nat)
    requires
        time < SECONDS_PER_DAY,
    ensures
        clock_earlier(time, duration) < SECONDS_PER_DAY,
        clock_earlier(time, duration) == (time + (SECONDS_PER_DAY - duration % (
        SECONDS_PER_DAY as nat))) % (SECONDS_PER_DAY as int),
        duration <= time ==> clock_earlier(time, duration) == time - duration,
{
    let day = SECONDS_PER_DAY as int;
    let t = time as int;
    let d = duration as int;
    let q = d / day;
    let r = d % day;
    assert(d == q * day + r) by {
        vstd::arithmetic::div_mod::lemma_fundamental_div_mod(d, day);
    }
    assert((t - d) % day == (t + (day - r)) % day) by {
        assert(t - d == (t + (day - r)) + (-(q + 1)) * day) by (nonlinear_arith)
            requires
                d == q * day + r,
        ;
        vstd::arithmetic::div_mod::lemma_mod_multiples_vanish(-(q + 1), t + (day - r), day);
    }
    if duration <= time {
        vstd::arithmetic::div_mod::lemma_small_mod((time - duration) as nat, day as nat);
    }
}

} // verus!
