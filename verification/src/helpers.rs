use vstd::prelude::*;

use crate::error::ExpiryRangeError;

verus! {

/// Nanoseconds in a second.
pub const NANOS_PER_SECOND: u64 = 1_000_000_000;

/// The time `secs` seconds after `time_nanos`, in nanoseconds.
pub open spec fn plus_seconds(time_nanos: u64, secs: u64) -> int {
    time_nanos + secs * NANOS_PER_SECOND
}

/// The block's timestamp in nanoseconds; other fields of the block are not used here.
pub struct BlockInfo {
    pub height: u64,
    pub time: u64,
    pub chain_id: String,
}

/// How far in the future an offer may expire, in seconds from the current block time.
#[derive(Clone, Copy, Debug, PartialEq, Eq)]
pub struct ExpiryRange {
    pub min: u64,
    pub max: u64,
}

impl ExpiryRange {
    /// `expires` lies more than `min` and at most `max` seconds after `now`.
    pub open spec fn admits(self, now: u64, expires: u64) -> bool {
        plus_seconds(now, self.min) < expires <= plus_seconds(now, self.max)
    }

    /// The check of `is_valid` computes both bounds without overflow; the upper bound is
    /// computed only when the lower one is passed.
    pub open spec fn check_fits(self, now: u64, expires: u64) -> bool {
        &&& plus_seconds(now, self.min) <= u64::MAX
        &&& plus_seconds(now, self.min) < expires ==> plus_seconds(now, self.max) <= u64::MAX
    }

    pub fn new(min: u64, max: u64) -> (r: ExpiryRange)
        ensures
            r == (ExpiryRange { min, max }),
    {
        ExpiryRange { min, max }
    }

    /// Validates that `expires` lies within the allowed range after the block's time.
    pub fn is_valid(&self, block: &BlockInfo, expires: u64) -> (r: Result<(), ExpiryRangeError>)
        requires
            self.check_fits(block.time, expires),
        ensures
            r is Ok <==> self.admits(block.time, expires),
            r is Err ==> r == Err::<(), ExpiryRangeError>(ExpiryRangeError::InvalidExpirationRange {  }),
    {
        let now = block.time;
        let lower = now + self.min * NANOS_PER_SECOND;
        if !(expires > lower) {
            return Err(ExpiryRangeError::InvalidExpirationRange {  });
        }
        let upper = now + self.max * NANOS_PER_SECOND;
        if !(expires <= upper) {
            return Err(ExpiryRangeError::InvalidExpirationRange {  });
        }
        Ok(())
    }

    /// Validates the range itself: `min` may not exceed `max`.
    pub fn validate(&self) -> (r: Result<(), ExpiryRangeError>)
        ensures
            r is Ok <==> self.min <= self.max,
            r is Err ==> r == Err::<(), ExpiryRangeError>(ExpiryRangeError::InvalidExpiry {  }),
    {
        if self.min > self.max {
            return Err(ExpiryRangeError::InvalidExpiry {  });
        }
        Ok(())
    }
}

} // verus!
