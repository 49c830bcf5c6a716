//! Points in time as the sidecar reads them off a clock.

use vstd::prelude::*;

verus! {

pub const NANOS_PER_SEC: u32 = 1_000_000_000;

pub const SECS_PER_DAY: i64 = 86_400;

/// A point in time: the seconds and nanoseconds since the epoch, and how
/// many seconds local time was ahead of universal time then.
#[derive(Debug, Clone, Copy, PartialEq, Eq)]
pub struct Stamp {
    secs: i64,
    nanos: u32,
    offset: i32,
}

/// How far `x` lies from zero.
pub open spec fn magnitude(x: int) -> int {
    if x < 0 {
        -x
    } else {
        x
    }
}

/// `x / d` with the fraction dropped, toward zero.
pub open spec fn truncated(x: int, d: int) -> int
    recommends
        d > 0,
{
    if x < 0 {
        -((-x) / d)
    } else {
        x / d
    }
}

impl Stamp {
    #[verifier::type_invariant]
    spec fn well_formed(self) -> bool {
        self.nanos < NANOS_PER_SEC && -SECS_PER_DAY < self.offset < SECS_PER_DAY
    }

    /// Whole seconds since the epoch.
    pub closed spec fn seconds(self) -> i64 {
        self.secs
    }

    /// Nanoseconds into the second, below a thousand million.
    pub closed spec fn nanoseconds(self) -> u32 {
        self.nanos
    }

    /// Seconds that local time is ahead of universal time, less than a day
    /// either way.
    pub closed spec fn ahead(self) -> i32 {
        self.offset
    }

    /// Nanoseconds since the epoch.
    pub open spec fn instant(self) -> int {
        self.seconds() * NANOS_PER_SEC + self.nanoseconds()
    }

    /// The local calendar day, counted in days since the epoch.
    pub open spec fn day(self) -> int {
        (self.seconds() + self.ahead()) / (SECS_PER_DAY as int)
    }

    /// The time from `earlier` to here as seconds and nanoseconds. It is
    /// nothing where `earlier` is the later one.
    pub open spec fn since(self, earlier: Stamp) -> (u64, u32) {
        let lapse = self.instant() - earlier.instant();
        if lapse < 0 {
            (0, 0)
        } else {
            ((lapse / (NANOS_PER_SEC as int)) as u64, (lapse % (NANOS_PER_SEC as int)) as u32)
        }
    }

    /// The whole days from `earlier` to here. The count is negative where
    /// `earlier` is the later one, and a part of a day is dropped either
    /// way.
    pub open spec fn days_since(self, earlier: Stamp) -> int {
        truncated(
            truncated(self.instant() - earlier.instant(), NANOS_PER_SEC as int),
            SECS_PER_DAY as int,
        )
    }

    /// The whole milliseconds from `earlier` to here. The count is negative
    /// where `earlier` is the later one, and a part of a millisecond is
    /// dropped either way.
    pub open spec fn millis_since(self, earlier: Stamp) -> int {
        truncated(self.instant() - earlier.instant(), 1_000_000)
    }

    /// The bounds within which the three numbers make a point in time.
    pub open spec fn fits(nanos: u32, offset: i32) -> bool {
        nanos < NANOS_PER_SEC && -SECS_PER_DAY < offset < SECS_PER_DAY
    }

    /// A point in time, where the nanoseconds stay below a second and the
    /// offset below a day.
    pub fn new(secs: i64, nanos: u32, offset: i32) -> (made: Option<Self>)
        ensures
            made is Some <==> Self::fits(nanos, offset),
            made is Some ==> made->0.seconds() == secs && made->0.nanoseconds() == nanos
                && made->0.ahead() == offset,
    {
        if nanos < NANOS_PER_SEC && -86_400 < offset && offset < 86_400 {
            Some(Stamp { secs, nanos, offset })
        } else {
            None
        }
    }

    pub fn secs(&self) -> (secs: i64)
        ensures
            secs == self.seconds(),
    {
        self.secs
    }

    pub fn nanos(&self) -> (nanos: u32)
        ensures
            nanos == self.nanoseconds(),
            nanos < NANOS_PER_SEC,
    {
        proof {
            use_type_invariant(self);
        }
        self.nanos
    }

    pub fn offset(&self) -> (offset: i32)
        ensures
            offset == self.ahead(),
            -SECS_PER_DAY < offset < SECS_PER_DAY,
    {
        proof {
            use_type_invariant(self);
        }
        self.offset
    }

    /// The local calendar day, counted in days since the epoch.
    pub fn local_day(&self) -> (day: i64)
        ensures
            day == self.day(),
    {
        proof {
            use_type_invariant(self);
        }
        let local: i128 = self.secs as i128 + self.offset as i128;
        if local >= 0 {
            (local / 86_400) as i64
        } else {
            let back: i128 = -local;
            let days: i128 = (back + 86_399) / 86_400;
            (-days) as i64
        }
    }

    /// Nanoseconds from `earlier` to here; negative where `earlier` is the
    /// later one.
    fn lapse(&self, earlier: &Stamp) -> (lapse: i128)
        ensures
            lapse == self.instant() - earlier.instant(),
            magnitude(lapse as int) < 0x1_0000_0000_0000_0000 * NANOS_PER_SEC,
    {
        proof {
            use_type_invariant(self);
            use_type_invariant(earlier);
        }
        let secs: i128 = self.secs as i128 - earlier.secs as i128;
        let nanos: i128 = self.nanos as i128 - earlier.nanos as i128;
        secs * 1_000_000_000 + nanos
    }

    /// The whole milliseconds from `earlier` to here.
    pub fn whole_millis_since(&self, earlier: &Stamp) -> (millis: i128)
        ensures
            millis == self.millis_since(*earlier),
            millis > i128::MIN,
    {
        let lapse = self.lapse(earlier);
        if lapse < 0 {
            let back: i128 = -lapse;
            -(back / 1_000_000)
        } else {
            lapse / 1_000_000
        }
    }

    /// The time from `earlier` to here as seconds and nanoseconds. It is
    /// nothing where `earlier` is the later one.
    pub fn elapsed_since(&self, earlier: &Stamp) -> (lapse: (u64, u32))
        ensures
            lapse == self.since(*earlier),
            lapse.1 < NANOS_PER_SEC,
    {
        let lapse = self.lapse(earlier);
        if lapse < 0 {
            (0, 0)
        } else {
            ((lapse / 1_000_000_000) as u64, (lapse % 1_000_000_000) as u32)
        }
    }

    /// The whole days from `earlier` to here.
    pub fn whole_days_since(&self, earlier: &Stamp) -> (days: i64)
        ensures
            days == self.days_since(*earlier),
    {
        let lapse = self.lapse(earlier);
        if lapse < 0 {
            let back: i128 = -lapse;
            let days: i128 = (back / 1_000_000_000) / 86_400;
            (-days) as i64
        } else {
            ((lapse / 1_000_000_000) / 86_400) as i64
        }
    }
}

} // verus!
