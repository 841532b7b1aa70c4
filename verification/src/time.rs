//! Wall-clock instants and spans used by durable flow records.
//!
//! Both types count whole nanoseconds. A [`Duration`] spans zero up to the largest span that
//! 64-bit seconds and a fractional part can express; a [`Timestamp`] lies within signed 64-bit
//! seconds of the Unix epoch.

use vstd::prelude::*;

verus! {

/// Number of nanoseconds in the longest representable span.
pub open spec fn max_duration_nanos() -> int {
    u64::MAX * 1_000_000_000 + 999_999_999
}

/// First instant that a timestamp can express, in nanoseconds from the Unix epoch.
pub open spec fn min_timestamp_nanos() -> int {
    i64::MIN * 1_000_000_000
}

/// Last instant that a timestamp can express, in nanoseconds from the Unix epoch.
pub open spec fn max_timestamp_nanos() -> int {
    i64::MAX * 1_000_000_000 + 999_999_999
}

pub open spec fn valid_timestamp(nanos: int) -> bool {
    min_timestamp_nanos() <= nanos <= max_timestamp_nanos()
}

/// A non-negative span of time.
#[derive(Clone, Copy, Debug, PartialEq, Eq, Structural)]
pub struct Duration {
    nanos: u128,
}

impl View for Duration {
    type V = int;

    closed spec fn view(&self) -> int {
        self.nanos as int
    }
}

impl Duration {
    /// Whether the duration is one that the type can hold, as every duration is.
    #[verifier::type_invariant]
    pub closed spec fn in_range(self) -> bool {
        self.nanos <= max_duration_nanos()
    }

    /// A duration is neither negative nor longer than the longest.
    pub proof fn lemma_in_range(self)
        requires
            self.in_range(),
        ensures
            0 <= self@ <= max_duration_nanos(),
    {
    }

    /// The empty span.
    pub fn zero() -> (result: Self)
        ensures
            result@ == 0,
    {
        Duration { nanos: 0 }
    }

    /// A span of whole seconds.
    pub fn from_secs(seconds: u64) -> (result: Self)
        ensures
            result@ == seconds * 1_000_000_000,
    {
        Duration { nanos: seconds as u128 * 1_000_000_000 }
    }

    /// A span of whole milliseconds.
    pub fn from_millis(millis: u64) -> (result: Self)
        ensures
            result@ == millis * 1_000_000,
    {
        Duration { nanos: millis as u128 * 1_000_000 }
    }

    /// A span of nanoseconds.
    pub fn from_nanos(nanos: u64) -> (result: Self)
        ensures
            result@ == nanos,
    {
        Duration { nanos: nanos as u128 }
    }

    /// A span of `seconds` plus `nanoseconds`; excess nanoseconds carry into the seconds.
    ///
    /// Returns `None` when the carry leaves no representable span.
    pub fn checked_new(seconds: u64, nanoseconds: u32) -> (result: Option<Self>)
        ensures
            match result {
                Some(span) => span@ == seconds * 1_000_000_000 + nanoseconds && span@
                    <= max_duration_nanos(),
                None => seconds * 1_000_000_000 + nanoseconds > max_duration_nanos(),
            },
    {
        let nanos: u128 = seconds as u128 * 1_000_000_000 + nanoseconds as u128;
        if nanos <= 18_446_744_073_709_551_615_999_999_999 {
            Some(Duration { nanos })
        } else {
            None
        }
    }

    /// Whole seconds in the span.
    pub fn as_secs(self) -> (seconds: u64)
        ensures
            seconds == self@ / 1_000_000_000,
            0 <= self@ <= max_duration_nanos(),
    {
        proof {
            use_type_invariant(&self);
        }
        (self.nanos / 1_000_000_000) as u64
    }

    /// Nanoseconds beyond the whole seconds.
    pub fn subsec_nanos(self) -> (nanoseconds: u32)
        ensures
            nanoseconds == self@ % 1_000_000_000,
            nanoseconds < 1_000_000_000,
    {
        (self.nanos % 1_000_000_000) as u32
    }

    pub fn is_zero(self) -> (result: bool)
        ensures
            result == (self@ == 0),
    {
        self.nanos == 0
    }

    /// The span repeated `factor` times, or the longest representable span.
    pub fn saturating_mul(self, factor: u32) -> (result: Self)
        ensures
            result@ == if self@ * factor <= max_duration_nanos() {
                self@ * factor
            } else {
                max_duration_nanos()
            },
    {
        proof {
            use_type_invariant(&self);
            assert(0 <= self.nanos * factor <= max_duration_nanos() * u32::MAX) by (nonlinear_arith)
                requires
                    0 <= self.nanos <= max_duration_nanos(),
                    0 <= factor <= u32::MAX,
            ;
        }
        let nanos: u128 = self.nanos * factor as u128;
        if nanos <= 18_446_744_073_709_551_615_999_999_999 {
            Duration { nanos }
        } else {
            Duration { nanos: 18_446_744_073_709_551_615_999_999_999 }
        }
    }

    /// Half the span, rounded down.
    pub fn half(self) -> (result: Self)
        ensures
            result@ == self@ / 2,
    {
        proof {
            use_type_invariant(&self);
        }
        Duration { nanos: self.nanos / 2 }
    }

    /// The span, but never less than one nanosecond.
    pub fn at_least_one_nano(self) -> (result: Self)
        ensures
            result@ == if self@ == 0 {
                1
            } else {
                self@
            },
    {
        if self.nanos == 0 {
            Duration { nanos: 1 }
        } else {
            self
        }
    }

    /// Whether this span is at least as long as `other`.
    pub fn at_least(self, other: Self) -> (result: bool)
        ensures
            result == (self@ >= other@),
    {
        self.nanos >= other.nanos
    }
}

/// A wall-clock instant.
#[derive(Clone, Copy, Debug, PartialEq, Eq, Structural)]
pub struct Timestamp {
    nanos: i128,
}

impl View for Timestamp {
    type V = int;

    closed spec fn view(&self) -> int {
        self.nanos as int
    }
}

impl Timestamp {
    /// Whether the time is one that the type can hold, as every time is.
    #[verifier::type_invariant]
    pub closed spec fn in_range(self) -> bool {
        valid_timestamp(self.nanos as int)
    }

    /// A time lies between the first and the last.
    pub proof fn lemma_in_range(self)
        requires
            self.in_range(),
        ensures
            valid_timestamp(self@),
    {
    }

    /// The first instant of 1970 in UTC.
    pub fn unix_epoch() -> (result: Self)
        ensures
            result@ == 0,
    {
        Timestamp { nanos: 0 }
    }

    /// The instant `span` after this one, unless it cannot be expressed.
    pub fn checked_add(self, span: Duration) -> (result: Option<Self>)
        ensures
            match result {
                Some(instant) => instant@ == self@ + span@ && valid_timestamp(instant@),
                None => !valid_timestamp(self@ + span@),
            },
    {
        proof {
            use_type_invariant(&self);
            use_type_invariant(&span);
        }
        let nanos: i128 = self.nanos + span.nanos as i128;
        if nanos <= 9_223_372_036_854_775_807_999_999_999 {
            Some(Timestamp { nanos })
        } else {
            None
        }
    }

    /// The instant `span` before this one, unless it cannot be expressed.
    pub fn checked_sub(self, span: Duration) -> (result: Option<Self>)
        ensures
            match result {
                Some(instant) => instant@ == self@ - span@ && valid_timestamp(instant@),
                None => !valid_timestamp(self@ - span@),
            },
    {
        proof {
            use_type_invariant(&self);
            use_type_invariant(&span);
        }
        let nanos: i128 = self.nanos - span.nanos as i128;
        if nanos >= -9_223_372_036_854_775_808_000_000_000 {
            Some(Timestamp { nanos })
        } else {
            None
        }
    }

    /// The span from `earlier` to this instant, or, where `earlier` is later, the span back.
    pub fn duration_since(self, earlier: Self) -> (result: Result<Duration, Duration>)
        ensures
            match result {
                Ok(span) => self@ >= earlier@ && span@ == self@ - earlier@,
                Err(span) => self@ < earlier@ && span@ == earlier@ - self@,
            },
            valid_timestamp(self@),
            valid_timestamp(earlier@),
    {
        proof {
            use_type_invariant(&self);
            use_type_invariant(&earlier);
        }
        if self.nanos >= earlier.nanos {
            Ok(Duration { nanos: (self.nanos - earlier.nanos) as u128 })
        } else {
            Err(Duration { nanos: (earlier.nanos - self.nanos) as u128 })
        }
    }

    /// Milliseconds from the Unix epoch, a started millisecond counting as a whole one.
    pub fn unix_millis_rounded_up(self) -> (result: Option<i64>)
        ensures
            match result {
                Some(millis) => millis == (self@ + 999_999) / 1_000_000,
                None => !(i64::MIN <= (self@ + 999_999) / 1_000_000 <= i64::MAX),
            },
    {
        proof {
            use_type_invariant(&self);
        }
        let shifted: i128 = self.nanos + 999_999;
        let millis: i128 = if shifted >= 0 {
            shifted / 1_000_000
        } else {
            -((-shifted + 999_999) / 1_000_000)
        };
        if -9_223_372_036_854_775_808 <= millis && millis <= 9_223_372_036_854_775_807 {
            Some(millis as i64)
        } else {
            None
        }
    }

    /// Whether this instant lies strictly before `other`.
    pub fn is_before(self, other: Self) -> (result: bool)
        ensures
            result == (self@ < other@),
    {
        self.nanos < other.nanos
    }

    /// The later of two instants.
    pub fn latest(self, other: Self) -> (result: Self)
        ensures
            result@ == if self@ >= other@ {
                self@
            } else {
                other@
            },
    {
        if self.nanos >= other.nanos {
            self
        } else {
            other
        }
    }
}

} // verus!
