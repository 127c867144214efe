//! Points in time, as wire messages carry them.

use crate::protos;
use vstd::prelude::*;

verus! {

/// The first second that a timestamp can name: the start of year 1.
pub const TIMESTAMP_SECONDS_MIN: i64 = -62_135_596_800;

/// The last second that a timestamp can name: the end of year 9999.
pub const TIMESTAMP_SECONDS_MAX: i64 = 253_402_300_799;

/// The largest number of nanoseconds within a second.
pub const NANOS_MAX: i32 = 999_999_999;

/// An integer was found outside the bounds it must lie in.
#[derive(Debug, Clone, Copy, PartialEq, Eq, Structural)]
pub struct BoundedIntError {
    pub min: i64,
    pub max: i64,
    pub found: i64,
}

/// Why a wire message is not a timestamp.
#[derive(Debug, Clone, Copy, PartialEq, Eq, Structural)]
pub enum TryFromTimestampError {
    /// The seconds lie outside the years 1 to 9999.
    Seconds(BoundedIntError),
    /// The nanoseconds are negative or make up a second or more.
    Nanos(BoundedIntError),
}

/// A point in time: seconds since the epoch, and nanoseconds within the second.
#[derive(Debug, Clone, Copy, PartialEq, Eq)]
pub struct Timestamp {
    seconds: i64,
    nanos: i32,
}

/// What `check_bounds` returns: the number if it lies within the bounds.
pub open spec fn bounded(min: i64, max: i64, found: i64) -> Result<i64, BoundedIntError> {
    if min <= found <= max {
        Ok(found)
    } else {
        Err(BoundedIntError { min, max, found })
    }
}

/// Tests that `found` lies between `min` and `max`, both included.
pub fn check_bounds(min: i64, max: i64, found: i64) -> (r: Result<i64, BoundedIntError>)
    ensures
        r == bounded(min, max, found),
{
    if min <= found && found <= max {
        Ok(found)
    } else {
        Err(BoundedIntError { min, max, found })
    }
}

impl Timestamp {
    /// Every timestamp lies within the bounds of its fields.
    #[verifier::type_invariant]
    closed spec fn within_bounds(self) -> bool {
        &&& TIMESTAMP_SECONDS_MIN <= self.seconds <= TIMESTAMP_SECONDS_MAX
        &&& 0 <= self.nanos <= NANOS_MAX
    }

    /// Seconds since the epoch.
    pub closed spec fn seconds_of(self) -> i64 {
        self.seconds
    }

    /// Nanoseconds within the second.
    pub closed spec fn nanos_of(self) -> i32 {
        self.nanos
    }

    /// The error, if any, that keeps a wire message from being a timestamp.
    pub open spec fn defect(raw: protos::Timestamp) -> Option<TryFromTimestampError> {
        if !(TIMESTAMP_SECONDS_MIN <= raw.seconds <= TIMESTAMP_SECONDS_MAX) {
            Some(
                TryFromTimestampError::Seconds(
                    BoundedIntError {
                        min: TIMESTAMP_SECONDS_MIN,
                        max: TIMESTAMP_SECONDS_MAX,
                        found: raw.seconds,
                    },
                ),
            )
        } else if !(0 <= raw.nanos <= NANOS_MAX) {
            Some(
                TryFromTimestampError::Nanos(
                    BoundedIntError { min: 0, max: NANOS_MAX as i64, found: raw.nanos as i64 },
                ),
            )
        } else {
            None
        }
    }

    /// Seconds since the epoch.
    pub fn seconds(&self) -> (r: i64)
        ensures
            r == self.seconds_of(),
            TIMESTAMP_SECONDS_MIN <= r <= TIMESTAMP_SECONDS_MAX,
    {
        proof {
            use_type_invariant(self);
        }
        self.seconds
    }

    /// Nanoseconds within the second.
    pub fn nanos(&self) -> (r: i32)
        ensures
            r == self.nanos_of(),
            0 <= r <= NANOS_MAX,
    {
        proof {
            use_type_invariant(self);
        }
        self.nanos
    }

    /// Validates a wire message: its seconds must lie within the years 1 to
    /// 9999 and its nanoseconds within one second.
    pub fn try_from(value: protos::Timestamp) -> (r: Result<Timestamp, TryFromTimestampError>)
        ensures
            match r {
                Ok(t) => Self::defect(value) is None && t.seconds_of() == value.seconds
                    && t.nanos_of() == value.nanos,
                Err(e) => Self::defect(value) == Some(e),
            },
    {
        let seconds = match check_bounds(
            TIMESTAMP_SECONDS_MIN,
            TIMESTAMP_SECONDS_MAX,
            value.seconds,
        ) {
            Ok(seconds) => seconds,
            Err(e) => return Err(TryFromTimestampError::Seconds(e)),
        };
        match check_bounds(0, NANOS_MAX as i64, value.nanos as i64) {
            Ok(_) => Ok(Timestamp { seconds, nanos: value.nanos }),
            Err(e) => Err(TryFromTimestampError::Nanos(e)),
        }
    }

    /// The wire message that stands for this timestamp.
    pub fn into_raw(self) -> (r: protos::Timestamp)
        ensures
            r.seconds == self.seconds_of(),
            r.nanos == self.nanos_of(),
            Self::defect(r) is None,
    {
        proof {
            use_type_invariant(&self);
        }
        protos::Timestamp { seconds: self.seconds, nanos: self.nanos }
    }
}

/// Two timestamps with the same seconds and nanoseconds are the same.
pub proof fn lemma_timestamp_ext(a: Timestamp, b: Timestamp)
    requires
        a.seconds_of() == b.seconds_of(),
        a.nanos_of() == b.nanos_of(),
    ensures
        a == b,
{
}

} // verus!
