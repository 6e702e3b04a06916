//! Token buckets: the per-category counters that refill continuously over
//! time, and the instant type they are timestamped with.

use vstd::prelude::*;

verus! {

/// A coarse monotonic instant: whole seconds since an arbitrary fixed epoch.
/// Comparisons saturate, so a `now` earlier than a stored instant is treated
/// as zero elapsed time instead of failing.
#[derive(Clone, Copy, Debug, PartialEq, Eq, Structural)]
pub struct InstantSecs {
    pub secs: u32,
}

impl InstantSecs {
    /// The instant `secs` seconds after the epoch.
    pub fn from_secs(secs: u32) -> (r: InstantSecs)
        ensures
            r.secs == secs,
    {
        InstantSecs { secs }
    }

    /// The current instant.
    ///
    /// Relies on `std::time::SystemTime::now`: the wall clock read at the
    /// call, counted in whole seconds from the system epoch and truncated to
    /// 32 bits. Nothing is promised of the value; all bucket logic takes the
    /// instant as an argument and is verified for every value of it.
    #[verifier::external_body]
    pub fn now() -> (r: InstantSecs) {
        let secs = match std::time::SystemTime::now().duration_since(std::time::UNIX_EPOCH) {
            Ok(elapsed) => elapsed.as_secs(),
            Err(_) => 0,
        };
        InstantSecs { secs: secs as u32 }
    }
}

/// The refill law of one bucket: `capacity` tokens refill fully every
/// `secs_to_refill` seconds.
#[derive(Clone, Copy, Debug, PartialEq, Eq, Structural)]
pub struct BucketConfig {
    pub capacity: i32,
    pub secs_to_refill: i32,
}

/// `capacity * factor`, saturated at `i32::MAX`. Defined for non-negative
/// `capacity` and positive `factor`.
pub open spec fn spec_saturating_scale(capacity: int, factor: int) -> int {
    if capacity * factor > i32::MAX {
        i32::MAX as int
    } else {
        capacity * factor
    }
}

impl BucketConfig {
    /// A usable configuration: a non-negative capacity, and a positive refill
    /// interval (it is divided by).
    pub open spec fn wf(self) -> bool {
        &&& self.capacity >= 0
        &&& self.secs_to_refill >= 1
    }

    /// The same refill interval with the capacity multiplied by `rhs`,
    /// saturating instead of overflowing.
    pub fn multiply_capacity(self, rhs: i32) -> (r: BucketConfig)
        requires
            self.wf(),
            rhs >= 1,
        ensures
            r.capacity == spec_saturating_scale(self.capacity as int, rhs as int),
            r.secs_to_refill == self.secs_to_refill,
            r.wf(),
    {
        proof {
            assert((self.capacity as int) * (rhs as int) <= 0x7FFF_FFFF * 0x7FFF_FFFF)
                by (nonlinear_arith)
                requires
                    0 <= self.capacity as int <= 0x7FFF_FFFF,
                    0 <= rhs as int <= 0x7FFF_FFFF,
            {}
        }
        let wide: i64 = (self.capacity as i64) * (rhs as i64);
        let scaled: i32 = if wide > (i32::MAX as i64) {
            i32::MAX
        } else {
            wide as i32
        };
        BucketConfig { capacity: scaled, secs_to_refill: self.secs_to_refill }
    }
}

/// One consumable counter: the number of tokens that were present at
/// `last_checked`. Tokens accrue continuously from that instant up to the
/// configured capacity; admitting one action costs one token.
#[derive(Clone, Copy, Debug, PartialEq, Eq, Structural)]
pub struct Bucket {
    pub last_checked: InstantSecs,
    pub tokens: i32,
}

impl Bucket {
    /// A bucket never holds a negative token count.
    pub open spec fn wf(self) -> bool {
        self.tokens >= 0
    }

    /// A bucket seeded at full capacity as of `now`.
    pub open spec fn spec_full(now: InstantSecs, config: BucketConfig) -> Bucket {
        Bucket { last_checked: now, tokens: config.capacity }
    }

    /// Seconds elapsed between this bucket's timestamp and `now`, clamped to
    /// zero if `now` is earlier.
    pub open spec fn spec_elapsed(self, now: InstantSecs) -> int {
        if now.secs >= self.last_checked.secs {
            now.secs - self.last_checked.secs
        } else {
            0
        }
    }

    /// The bucket advanced to `now`: it gains one token per
    /// `capacity / secs_to_refill` seconds (rounded down over the whole
    /// elapsed span) and stops filling at `capacity`.
    pub open spec fn spec_update(self, now: InstantSecs, config: BucketConfig) -> Bucket {
        let added = self.spec_elapsed(now) * config.capacity / (config.secs_to_refill as int);
        let unbounded = self.tokens + added;
        let clamped = if unbounded <= config.capacity {
            unbounded
        } else {
            config.capacity as int
        };
        Bucket { last_checked: now, tokens: clamped as i32 }
    }

    /// Advance the bucket to `now` under `config`. Pure: the stored bucket is
    /// not modified; the caller decides whether to keep the result.
    ///
    /// The result is exactly
    /// `min(capacity, tokens + floor(elapsed * capacity / secs_to_refill))`,
    /// timestamped `now`, and always within `0 ..= capacity`.
    pub fn update(self, now: InstantSecs, config: BucketConfig) -> (r: Bucket)
        requires
            config.wf(),
            self.wf(),
        ensures
            r == self.spec_update(now, config),
            r.last_checked == now,
            0 <= r.tokens <= config.capacity,
    {
        let elapsed: u32 = if now.secs >= self.last_checked.secs {
            now.secs - self.last_checked.secs
        } else {
            0
        };

        // The product is computed at 64 bits: it is at most
        // (2^32 - 1) * (2^31 - 1), which fits in a u64.
        proof {
            assert((elapsed as int) * (config.capacity as int) <= 0xFFFF_FFFF * 0x7FFF_FFFF)
                by (nonlinear_arith)
                requires
                    0 <= elapsed as int <= 0xFFFF_FFFF,
                    0 <= config.capacity as int <= 0x7FFF_FFFF,
            {}
        }
        let added: u64 = (elapsed as u64) * (config.capacity as u64) / (config.secs_to_refill as u64);
        proof {
            assert((elapsed as int) * (config.capacity as int) / (config.secs_to_refill as int)
                <= (elapsed as int) * (config.capacity as int)) by (nonlinear_arith)
                requires
                    (elapsed as int) * (config.capacity as int) >= 0,
                    config.secs_to_refill as int >= 1,
            {}
        }

        let unbounded: i64 = (self.tokens as i64) + (added as i64);
        let cap: i64 = config.capacity as i64;
        let clamped: i64 = if unbounded <= cap {
            unbounded
        } else {
            cap
        };
        Bucket { last_checked: now, tokens: clamped as i32 }
    }
}

} // verus!
