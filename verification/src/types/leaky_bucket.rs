//! The leaky bucket: a level that each admitted request raises and that
//! drains at a steady rate. It bounds a burst by the capacity, not by a
//! window of time.
//!
//! Amounts are fixed-point counts of 2^-20 of a unit of work, so that the
//! drain is exact.

use crate::fixed_point::{
    bits_from_units, bits_of_units, lemma_units_round_trip, units_from_bits, units_of_bits,
    MAX_UNITS, UNITS_PER_TOKEN,
};
use crate::types::{option_view, LimiterInstance, LimiterType, RateLimiterError, Verdict};
use crate::wire::{
    deserialize_u64_u64, le_bytes, le_value, lemma_le_bounds, lemma_le_bytes_len,
    lemma_le_value_of_bytes, serialize_u64_u64,
};
use vstd::prelude::*;

verus! {

/// The number of bytes of a stored leaky bucket.
pub const STORED_LEN: usize = 16;

/// The persisted state of a leaky bucket: how full it is, in units of
/// 2^-20, and when it last drained.
#[derive(Debug, Clone, Copy, PartialEq, Eq, Structural)]
pub struct LeakyBucketInstance {
    pub level: u64,
    pub last_leak: u64,
}

impl LeakyBucketInstance {
    /// Whether the level has a stored form: it does up to `MAX_UNITS`.
    pub open spec fn representable(self) -> bool {
        self.level <= MAX_UNITS
    }

    /// The stored form: the level as a binary64 number in 8 bytes, then
    /// `last_leak` in 8, both little-endian.
    pub open spec fn encoding(self) -> Seq<u8> {
        le_bytes(bits_of_units(self.level as nat), 8) + le_bytes(self.last_leak as nat, 8)
    }

    /// The state that stored bytes stand for: the two fields, the level
    /// rounded down to whole units, where there are exactly the 16 bytes of
    /// the layout. There is none where there are fewer bytes or more, or
    /// where the number is negative, not finite, or 2^33 or more.
    pub open spec fn decoding(bytes: Seq<u8>) -> Option<Self> {
        if bytes.len() == STORED_LEN {
            match units_of_bits(le_value(bytes.subrange(0, 8)) as u64) {
                Some(units) => Some(
                    LeakyBucketInstance {
                        level: units as u64,
                        last_leak: le_value(bytes.subrange(8, 16)) as u64,
                    },
                ),
                None => None,
            }
        } else {
            None
        }
    }

    /// Encodes the state, where its level has a stored form.
    pub fn to_bytes(self) -> (r: Result<Vec<u8>, RateLimiterError>)
        ensures
            r is Ok <==> self.representable(),
            r matches Ok(bytes) ==> bytes@ == self.encoding(),
            r is Err ==> r matches Err(RateLimiterError::MalformedValue(None)),
    {
        match bits_from_units(self.level) {
            Some(bits) => match serialize_u64_u64(bits, self.last_leak) {
                Ok(bytes) => Ok(bytes),
                Err(e) => Err(RateLimiterError::MalformedValue(Some(e))),
            },
            None => Err(RateLimiterError::MalformedValue(None)),
        }
    }

    /// Decodes stored bytes. Bytes that end too early come back with the
    /// decoder's error; bytes that go on too long, or whose number is no
    /// level, without one.
    pub fn from_bytes(bytes: Vec<u8>) -> (r: Result<Self, RateLimiterError>)
        ensures
            match Self::decoding(bytes@) {
                Some(state) => r == Ok::<Self, RateLimiterError>(state) && state.representable(),
                None => r matches Err(RateLimiterError::MalformedValue(_)),
            },
            r matches Err(RateLimiterError::MalformedValue(e)) ==> (e is Some <==> bytes@.len()
                < STORED_LEN),
    {
        if bytes.len() > STORED_LEN {
            return Err(RateLimiterError::MalformedValue(None));
        }
        match deserialize_u64_u64(bytes.as_slice()) {
            Ok((bits, last_leak)) => match units_from_bits(bits) {
                Some(level) => Ok(LeakyBucketInstance { level, last_leak }),
                None => Err(RateLimiterError::MalformedValue(None)),
            },
            Err(e) => Err(RateLimiterError::MalformedValue(Some(e))),
        }
    }

    /// Every state with a stored form is read back from it.
    pub proof fn lemma_round_trip(self)
        requires
            self.representable(),
        ensures
            Self::decoding(self.encoding()) == Some(self),
    {
        let bits = bits_of_units(self.level as nat);
        lemma_units_round_trip(self.level as nat);
        lemma_le_bounds();
        lemma_le_bytes_len(bits, 8);
        lemma_le_bytes_len(self.last_leak as nat, 8);
        lemma_le_value_of_bytes(bits, 8);
        lemma_le_value_of_bytes(self.last_leak as nat, 8);
        assert(self.encoding().subrange(0, 8) =~= le_bytes(bits, 8));
        assert(self.encoding().subrange(8, 16) =~= le_bytes(self.last_leak as nat, 8));
    }
}

/// The policy of a leaky bucket: it holds `capacity` at most, and drains
/// `leak_rate` units of 2^-20 per unit of time.
#[derive(Debug, Clone, Copy)]
pub struct LeakyBucket {
    capacity: u32,
    leak_rate: u64,
}

impl LeakyBucket {
    /// The most that the bucket holds, in whole units of work.
    pub closed spec fn spec_capacity(&self) -> u32 {
        self.capacity
    }

    /// What drains per unit of time, in units of 2^-20.
    pub closed spec fn spec_leak_rate(&self) -> u64 {
        self.leak_rate
    }

    /// The most that the bucket holds, in whole units of work.
    #[verifier::when_used_as_spec(spec_capacity)]
    pub fn capacity(&self) -> (capacity: u32)
        ensures
            capacity == self.spec_capacity(),
    {
        self.capacity
    }

    /// What drains per unit of time, in units of 2^-20.
    #[verifier::when_used_as_spec(spec_leak_rate)]
    pub fn leak_rate(&self) -> (rate: u64)
        ensures
            rate == self.spec_leak_rate(),
    {
        self.leak_rate
    }

    /// A policy of `capacity` whole units of work and `leak_rate` units of
    /// 2^-20 per unit of time.
    pub fn new(capacity: u32, leak_rate: u64) -> (policy: Self)
        ensures
            policy.spec_capacity() == capacity,
            policy.spec_leak_rate() == leak_rate,
    {
        LeakyBucket { capacity, leak_rate }
    }

    /// The capacity in units of 2^-20.
    pub open spec fn capacity_units(self) -> int {
        self.spec_capacity() * UNITS_PER_TOKEN
    }

    /// The state of a key that was never seen: an empty bucket.
    pub open spec fn initial(now: u64) -> LeakyBucketInstance {
        LeakyBucketInstance { level: 0, last_leak: now }
    }

    /// The time from the last drain to `now`, and zero where the clock went
    /// back.
    pub open spec fn elapsed(state: LeakyBucketInstance, now: u64) -> int {
        if now >= state.last_leak {
            now - state.last_leak
        } else {
            0
        }
    }

    /// The state once time has reached `now`: the level less what the
    /// elapsed time has drained, and not below zero.
    pub open spec fn leaked(self, state: LeakyBucketInstance, now: u64) -> LeakyBucketInstance {
        let drained = Self::elapsed(state, now) * self.spec_leak_rate();
        LeakyBucketInstance {
            level: (if drained >= state.level {
                0
            } else {
                state.level - drained
            }) as u64,
            last_leak: now,
        }
    }

    /// Whether a bucket in the state `leaked` has room for `cost` more.
    pub open spec fn admits(self, leaked: LeakyBucketInstance, cost: u32) -> bool {
        leaked.level + cost * UNITS_PER_TOKEN <= self.capacity_units()
    }

    /// The decision on a request of `cost` at `now`: the state to keep, and
    /// whether the request is admitted. A denial keeps the drained state.
    pub open spec fn decision(self, state: LeakyBucketInstance, now: u64, cost: u32) -> (
        LeakyBucketInstance,
        bool,
    ) {
        let leaked = self.leaked(state, now);
        if self.admits(leaked, cost) {
            (
                LeakyBucketInstance {
                    level: (leaked.level + cost * UNITS_PER_TOKEN) as u64,
                    last_leak: now,
                },
                true,
            )
        } else {
            (leaked, false)
        }
    }

    /// The state of a key that was never seen.
    pub fn empty(now: u64) -> (state: LeakyBucketInstance)
        ensures
            state == Self::initial(now),
    {
        LeakyBucketInstance { level: 0, last_leak: now }
    }

    /// Brings a state forward to `now`.
    pub fn leak(&self, state: LeakyBucketInstance, now: u64) -> (leaked: LeakyBucketInstance)
        ensures
            leaked == self.leaked(state, now),
            leaked.level <= state.level,
    {
        let elapsed: u64 = if now >= state.last_leak {
            now - state.last_leak
        } else {
            0
        };
        assert(elapsed * self.leak_rate <= 0xFFFF_FFFF_FFFF_FFFF * 0xFFFF_FFFF_FFFF_FFFF)
            by (nonlinear_arith)
            requires
                elapsed <= 0xFFFF_FFFF_FFFF_FFFF,
                self.leak_rate <= 0xFFFF_FFFF_FFFF_FFFF,
        ;
        let drained: u128 = (elapsed as u128) * (self.leak_rate as u128);
        let level: u64 = if drained >= state.level as u128 {
            0
        } else {
            state.level - drained as u64
        };
        LeakyBucketInstance { level, last_leak: now }
    }

    /// Decides on a request of `cost` at `now`.
    pub fn decide(&self, state: LeakyBucketInstance, now: u64, cost: u32) -> (r: (
        LeakyBucketInstance,
        bool,
    ))
        ensures
            r == self.decision(state, now, cost),
            r.1 ==> r.0.level <= self.capacity_units() <= MAX_UNITS,
            r.0.level <= state.level || r.1,
    {
        let leaked = self.leak(state, now);
        let asked: u64 = cost as u64 * UNITS_PER_TOKEN;
        let capacity: u64 = self.capacity as u64 * UNITS_PER_TOKEN;
        if asked <= capacity && leaked.level <= capacity - asked {
            (LeakyBucketInstance { level: leaked.level + asked, last_leak: now }, true)
        } else {
            (leaked, false)
        }
    }
}

impl LimiterType for LeakyBucket {
    open spec fn verdict(&self, value: Option<Seq<u8>>, now: u64, cost: u32) -> Verdict {
        let state = match value {
            None => Some(Self::initial(now)),
            Some(bytes) => LeakyBucketInstance::decoding(bytes),
        };
        match state {
            None => Verdict::Malformed,
            Some(state) => {
                let (next, admitted) = self.decision(state, now, cost);
                if admitted {
                    Verdict::Admitted(next.encoding())
                } else {
                    Verdict::Denied
                }
            },
        }
    }

    open spec fn instance(&self, value: Seq<u8>) -> Option<LimiterInstance> {
        match LeakyBucketInstance::decoding(value) {
            Some(state) => Some(LimiterInstance::LeakyBucketInstance(state)),
            None => None,
        }
    }

    fn is_ratelimited(&self, value: Option<Vec<u8>>, now: u64, cost: u32) -> (r: Result<
        Vec<u8>,
        RateLimiterError,
    >)
        ensures
            r matches Err(RateLimiterError::MalformedValue(e)) ==> (e is Some <==> option_view(
                value,
            ) is Some && option_view(value)->Some_0.len() < STORED_LEN),
    {
        let state = match value {
            None => Self::empty(now),
            Some(bytes) => match LeakyBucketInstance::from_bytes(bytes) {
                Ok(state) => state,
                Err(e) => {
                    return Err(e);
                },
            },
        };
        let (next, admitted) = self.decide(state, now, cost);
        if admitted {
            next.to_bytes()
        } else {
            Err(RateLimiterError::RateExceeded)
        }
    }

    fn window_instance(&self, value: Vec<u8>) -> (r: Result<LimiterInstance, RateLimiterError>)
        ensures
            r matches Err(RateLimiterError::MalformedValue(e)) ==> (e is Some <==> value@.len()
                < STORED_LEN),
    {
        match LeakyBucketInstance::from_bytes(value) {
            Ok(state) => Ok(LimiterInstance::LeakyBucketInstance(state)),
            Err(e) => Err(e),
        }
    }
}

} // verus!
