//! Instants and spans of time as plain integers.
//!
//! A `Timestamp` counts nanoseconds since the Unix epoch (negative before it);
//! a `Duration` counts nanoseconds. The persisted form uses milliseconds and
//! seconds since the epoch, see `crate::wire`.
use vstd::prelude::*;

use crate::error::Error;

verus! {

pub const NANOS_PER_MILLI: u64 = 1_000_000;

pub const NANOS_PER_SEC: u64 = 1_000_000_000;

/// A non-negative span of time, in nanoseconds.
#[derive(Clone, Copy, Debug, PartialEq, Eq, Structural)]
pub struct Duration {
    pub nanos: u64,
}

impl Duration {
    pub fn zero() -> (r: Duration)
        ensures
            r.nanos == 0,
    {
        Duration { nanos: 0 }
    }

    pub fn from_nanos(nanos: u64) -> (r: Duration)
        ensures
            r.nanos == nanos,
    {
        Duration { nanos }
    }

    pub fn from_millis(millis: u64) -> (r: Duration)
        requires
            millis * NANOS_PER_MILLI <= u64::MAX,
        ensures
            r.nanos == millis * NANOS_PER_MILLI,
    {
        Duration { nanos: millis * NANOS_PER_MILLI }
    }

    pub fn from_secs(secs: u64) -> (r: Duration)
        requires
            secs * NANOS_PER_SEC <= u64::MAX,
        ensures
            r.nanos == secs * NANOS_PER_SEC,
    {
        Duration { nanos: secs * NANOS_PER_SEC }
    }

    pub fn as_nanos(&self) -> (r: u64)
        ensures
            r == self.nanos,
    {
        self.nanos
    }

    pub fn as_millis(&self) -> (r: u64)
        ensures
            r == self.nanos as int / NANOS_PER_MILLI as int,
    {
        self.nanos / NANOS_PER_MILLI
    }
}

/// An instant, in nanoseconds since the Unix epoch.
#[derive(Clone, Copy, Debug, PartialEq, Eq, Structural)]
pub struct Timestamp {
    pub nanos: i64,
}

pub open spec fn clamp_i64(v: int) -> i64 {
    if v > i64::MAX {
        i64::MAX
    } else if v < i64::MIN {
        i64::MIN
    } else {
        v as i64
    }
}

/// Relies on std::time::SystemTime::now: reads the system clock. The reading
/// is handed over as nanoseconds after the epoch (`Ok`) or before it (`Err`).
/// Nothing is known of its value.
#[verifier::external_body]
fn read_system_clock() -> (r: Result<u128, u128>) {
    match std::time::SystemTime::now().duration_since(std::time::UNIX_EPOCH) {
        Ok(after) => Ok(after.as_nanos()),
        Err(before) => Err(before.duration().as_nanos()),
    }
}

impl Timestamp {
    pub fn from_nanos(nanos: i64) -> (r: Timestamp)
        ensures
            r.nanos == nanos,
    {
        Timestamp { nanos }
    }

    pub fn from_millis(millis: u64) -> (r: Timestamp)
        requires
            millis * NANOS_PER_MILLI <= i64::MAX,
        ensures
            r.nanos == millis * NANOS_PER_MILLI,
    {
        Timestamp { nanos: (millis * NANOS_PER_MILLI) as i64 }
    }

    pub fn from_secs(secs: u64) -> (r: Timestamp)
        requires
            secs * NANOS_PER_SEC <= i64::MAX,
        ensures
            r.nanos == secs * NANOS_PER_SEC,
    {
        Timestamp { nanos: (secs * NANOS_PER_SEC) as i64 }
    }

    /// The current instant of the system clock, clamped to the range of a
    /// `Timestamp` (about the years 1678 to 2262).
    pub fn now() -> (r: Timestamp) {
        match read_system_clock() {
            Ok(after) => {
                if after > i64::MAX as u128 {
                    Timestamp { nanos: i64::MAX }
                } else {
                    Timestamp { nanos: after as i64 }
                }
            },
            Err(before) => {
                if before > i64::MAX as u128 {
                    Timestamp { nanos: i64::MIN }
                } else {
                    Timestamp { nanos: -(before as i64) }
                }
            },
        }
    }

    pub open spec fn saturating_add_spec(self, d: Duration) -> Timestamp {
        Timestamp { nanos: clamp_i64(self.nanos + d.nanos) }
    }

    /// `self + d`, or the last representable instant where that lies beyond it.
    pub fn saturating_add(&self, d: Duration) -> (r: Timestamp)
        ensures
            r == self.saturating_add_spec(d),
    {
        let sum: i128 = self.nanos as i128 + d.nanos as i128;
        if sum > i64::MAX as i128 {
            Timestamp { nanos: i64::MAX }
        } else {
            Timestamp { nanos: sum as i64 }
        }
    }

    /// `self - d`, or the first representable instant where that lies before it.
    pub fn saturating_sub(&self, d: Duration) -> (r: Timestamp)
        ensures
            r.nanos == clamp_i64(self.nanos - d.nanos),
    {
        let diff: i128 = self.nanos as i128 - d.nanos as i128;
        if diff < i64::MIN as i128 {
            Timestamp { nanos: i64::MIN }
        } else {
            Timestamp { nanos: diff as i64 }
        }
    }

    /// The time elapsed from `earlier` to `self`, or `None` where `earlier`
    /// is later than `self`.
    pub fn duration_since(&self, earlier: Timestamp) -> (r: Option<Duration>)
        ensures
            r is Some <==> earlier.nanos <= self.nanos,
            r matches Some(d) ==> d.nanos == self.nanos - earlier.nanos,
    {
        if earlier.nanos <= self.nanos {
            let diff: i128 = self.nanos as i128 - earlier.nanos as i128;
            Some(Duration { nanos: diff as u64 })
        } else {
            None
        }
    }

    /// Whole milliseconds since the epoch; an instant before the epoch is an
    /// internal error.
    pub fn millis_since_epoch(&self) -> (r: Result<i64, Error>)
        ensures
            r is Ok <==> self.nanos >= 0,
            r matches Ok(m) ==> m == self.nanos as int / NANOS_PER_MILLI as int,
            r matches Err(e) ==> e is Internal,
    {
        if self.nanos < 0 {
            Err(Error::Internal("time before the Unix epoch".to_string()))
        } else {
            Ok(self.nanos / NANOS_PER_MILLI as i64)
        }
    }

    /// Whole seconds since the epoch; an instant before the epoch is an
    /// internal error.
    pub fn secs_since_epoch(&self) -> (r: Result<i64, Error>)
        ensures
            r is Ok <==> self.nanos >= 0,
            r matches Ok(s) ==> s == self.nanos as int / NANOS_PER_SEC as int,
            r matches Err(e) ==> e is Internal,
    {
        if self.nanos < 0 {
            Err(Error::Internal("time before the Unix epoch".to_string()))
        } else {
            Ok(self.nanos / NANOS_PER_SEC as i64)
        }
    }
}

} // verus!
