//! The token bucket: a budget that refills at a steady rate up to a
//! capacity, and that each admitted request draws from.
//!
//! Amounts are fixed-point counts of 2^-20 of a token. Refill and spend are
//! exact, so a fraction of a token that slow traffic has earned is kept
//! from call to call.

use crate::fixed_point::{
    bits_from_units, bits_of_units, lemma_units_round_trip, units_from_bits, units_of_bits,
    MAX_UNITS, UNITS_PER_TOKEN,
};
use crate::types::{option_view, LimiterInstance, LimiterType, RateLimiterError, Verdict};
use crate::wire::{
    deserialize_u64_u64, le_bytes, le_value, lemma_le_bounds, lemma_le_bytes_len,
    lemma_le_value_of_bytes, serialize_u64_u64,
};
use vstd::prelude::*;

verus! {

/// The number of bytes of a stored token bucket.
pub const STORED_LEN: usize = 16;

/// The persisted state of a token bucket: what is in it, in units of 2^-20
/// of a token, and when it was last refilled.
#[derive(Debug, Clone, Copy, PartialEq, Eq, Structural)]
pub struct TokenBucketInstance {
    pub tokens: u64,
    pub last_refill: u64,
}

impl TokenBucketInstance {
    /// Whether the amount has a stored form: it does up to `MAX_UNITS`.
    pub open spec fn representable(self) -> bool {
        self.tokens <= MAX_UNITS
    }

    /// The stored form: the binary64 number of tokens in 8 bytes, then
    /// `last_refill` in 8, both little-endian.
    pub open spec fn encoding(self) -> Seq<u8> {
        le_bytes(bits_of_units(self.tokens as nat), 8) + le_bytes(self.last_refill as nat, 8)
    }

    /// The state that stored bytes stand for: the two fields, the amount
    /// rounded down to whole units, where there are exactly the 16 bytes of
    /// the layout. There is none where there are fewer bytes or more, or
    /// where the number is negative, not finite, or 2^33 tokens or more.
    pub open spec fn decoding(bytes: Seq<u8>) -> Option<Self> {
        if bytes.len() == STORED_LEN {
            match units_of_bits(le_value(bytes.subrange(0, 8)) as u64) {
                Some(units) => Some(
                    TokenBucketInstance {
                        tokens: units as u64,
                        last_refill: le_value(bytes.subrange(8, 16)) as u64,
                    },
                ),
                None => None,
            }
        } else {
            None
        }
    }

    /// Encodes the state, where its amount has a stored form.
    pub fn to_bytes(self) -> (r: Result<Vec<u8>, RateLimiterError>)
        ensures
            r is Ok <==> self.representable(),
            r matches Ok(bytes) ==> bytes@ == self.encoding(),
            r is Err ==> r matches Err(RateLimiterError::MalformedValue(None)),
    {
        match bits_from_units(self.tokens) {
            Some(bits) => match serialize_u64_u64(bits, self.last_refill) {
                Ok(bytes) => Ok(bytes),
                Err(e) => Err(RateLimiterError::MalformedValue(Some(e))),
            },
            None => Err(RateLimiterError::MalformedValue(None)),
        }
    }

    /// Decodes stored bytes. Bytes that end too early come back with the
    /// decoder's error; bytes that go on too long, or whose number is no
    /// amount, without one.
    pub fn from_bytes(bytes: Vec<u8>) -> (r: Result<Self, RateLimiterError>)
        ensures
            match Self::decoding(bytes@) {
                Some(state) => r == Ok::<Self, RateLimiterError>(state) && state.representable(),
                None => r matches Err(RateLimiterError::MalformedValue(_)),
            },
            r matches Err(RateLimiterError::MalformedValue(e)) ==> (e is Some <==> bytes@.len()
                < STORED_LEN),
    {
        if bytes.len() > STORED_LEN {
            return Err(RateLimiterError::MalformedValue(None));
        }
        match deserialize_u64_u64(bytes.as_slice()) {
            Ok((bits, last_refill)) => match units_from_bits(bits) {
                Some(tokens) => Ok(TokenBucketInstance { tokens, last_refill }),
                None => Err(RateLimiterError::MalformedValue(None)),
            },
            Err(e) => Err(RateLimiterError::MalformedValue(Some(e))),
        }
    }

    /// Every state with a stored form is read back from it.
    pub proof fn lemma_round_trip(self)
        requires
            self.representable(),
        ensures
            Self::decoding(self.encoding()) == Some(self),
    {
        let bits = bits_of_units(self.tokens as nat);
        lemma_units_round_trip(self.tokens as nat);
        lemma_le_bounds();
        lemma_le_bytes_len(bits, 8);
        lemma_le_bytes_len(self.last_refill as nat, 8);
        lemma_le_value_of_bytes(bits, 8);
        lemma_le_value_of_bytes(self.last_refill as nat, 8);
        assert(self.encoding().subrange(0, 8) =~= le_bytes(bits, 8));
        assert(self.encoding().subrange(8, 16) =~= le_bytes(self.last_refill as nat, 8));
    }
}

/// The policy of a token bucket: it holds `capacity` tokens at most, and
/// gains `refill_rate` units of 2^-20 of a token per unit of time.
#[derive(Debug, Clone, Copy)]
pub struct TokenBucket {
    capacity: u32,
    refill_rate: u64,
}

impl TokenBucket {
    /// The most that the bucket holds, in whole tokens.
    pub closed spec fn spec_capacity(&self) -> u32 {
        self.capacity
    }

    /// What the bucket gains per unit of time, in units of 2^-20 of a
    /// token.
    pub closed spec fn spec_refill_rate(&self) -> u64 {
        self.refill_rate
    }

    /// The most that the bucket holds, in whole tokens.
    #[verifier::when_used_as_spec(spec_capacity)]
    pub fn capacity(&self) -> (capacity: u32)
        ensures
            capacity == self.spec_capacity(),
    {
        self.capacity
    }

    /// What the bucket gains per unit of time, in units of 2^-20 of a
    /// token.
    #[verifier::when_used_as_spec(spec_refill_rate)]
    pub fn refill_rate(&self) -> (rate: u64)
        ensures
            rate == self.spec_refill_rate(),
    {
        self.refill_rate
    }

    /// A policy of `capacity` whole tokens and `refill_rate` units per unit
    /// of time.
    pub fn new(capacity: u32, refill_rate: u64) -> (policy: Self)
        ensures
            policy.spec_capacity() == capacity,
            policy.spec_refill_rate() == refill_rate,
    {
        TokenBucket { capacity, refill_rate }
    }

    /// The capacity in units.
    pub open spec fn capacity_units(self) -> int {
        self.spec_capacity() * UNITS_PER_TOKEN
    }

    /// The state of a key that was never seen: a full bucket.
    pub open spec fn initial(self, now: u64) -> TokenBucketInstance {
        TokenBucketInstance { tokens: self.capacity_units() as u64, last_refill: now }
    }

    /// The time from the last refill to `now`, and zero where the clock
    /// went back.
    pub open spec fn elapsed(state: TokenBucketInstance, now: u64) -> int {
        if now >= state.last_refill {
            now - state.last_refill
        } else {
            0
        }
    }

    /// The state once time has reached `now`: what was there and what the
    /// elapsed time has earned, up to the capacity.
    pub open spec fn refilled(self, state: TokenBucketInstance, now: u64) -> TokenBucketInstance {
        let total = state.tokens + Self::elapsed(state, now) * self.spec_refill_rate();
        TokenBucketInstance {
            tokens: (if total >= self.capacity_units() {
                self.capacity_units()
            } else {
                total
            }) as u64,
            last_refill: now,
        }
    }

    /// Whether a bucket in the state `refilled` holds `cost` tokens.
    pub open spec fn admits(refilled: TokenBucketInstance, cost: u32) -> bool {
        refilled.tokens >= cost * UNITS_PER_TOKEN
    }

    /// The decision on a request of `cost` tokens at `now`: the state to
    /// keep, and whether the request is admitted. A denial keeps the
    /// refilled state.
    pub open spec fn decision(self, state: TokenBucketInstance, now: u64, cost: u32) -> (
        TokenBucketInstance,
        bool,
    ) {
        let refilled = self.refilled(state, now);
        if Self::admits(refilled, cost) {
            (
                TokenBucketInstance {
                    tokens: (refilled.tokens - cost * UNITS_PER_TOKEN) as u64,
                    last_refill: now,
                },
                true,
            )
        } else {
            (refilled, false)
        }
    }

    /// The state of a key that was never seen.
    pub fn full(&self, now: u64) -> (state: TokenBucketInstance)
        ensures
            state == self.initial(now),
            state.representable(),
    {
        TokenBucketInstance { tokens: self.capacity as u64 * UNITS_PER_TOKEN, last_refill: now }
    }

    /// Brings a state forward to `now`.
    pub fn refill(&self, state: TokenBucketInstance, now: u64) -> (refilled: TokenBucketInstance)
        ensures
            refilled == self.refilled(state, now),
            refilled.tokens <= self.capacity_units() <= MAX_UNITS,
    {
        let elapsed: u64 = if now >= state.last_refill {
            now - state.last_refill
        } else {
            0
        };
        assert(elapsed * self.refill_rate <= 0xFFFF_FFFF_FFFF_FFFF * 0xFFFF_FFFF_FFFF_FFFF)
            by (nonlinear_arith)
            requires
                elapsed <= 0xFFFF_FFFF_FFFF_FFFF,
                self.refill_rate <= 0xFFFF_FFFF_FFFF_FFFF,
        ;
        let total: u128 = state.tokens as u128 + (elapsed as u128) * (self.refill_rate as u128);
        let capacity: u64 = self.capacity as u64 * UNITS_PER_TOKEN;
        let tokens: u64 = if total >= capacity as u128 {
            capacity
        } else {
            total as u64
        };
        TokenBucketInstance { tokens, last_refill: now }
    }

    /// Decides on a request of `cost` tokens at `now`.
    pub fn decide(&self, state: TokenBucketInstance, now: u64, cost: u32) -> (r: (
        TokenBucketInstance,
        bool,
    ))
        ensures
            r == self.decision(state, now, cost),
            r.0.representable(),
    {
        let refilled = self.refill(state, now);
        let asked: u64 = cost as u64 * UNITS_PER_TOKEN;
        if refilled.tokens >= asked {
            (TokenBucketInstance { tokens: refilled.tokens - asked, last_refill: now }, true)
        } else {
            (refilled, false)
        }
    }
}

impl LimiterType for TokenBucket {
    open spec fn verdict(&self, value: Option<Seq<u8>>, now: u64, cost: u32) -> Verdict {
        let state = match value {
            None => Some(self.initial(now)),
            Some(bytes) => TokenBucketInstance::decoding(bytes),
        };
        match state {
            None => Verdict::Malformed,
            Some(state) => {
                let (next, admitted) = self.decision(state, now, cost);
                if admitted {
                    Verdict::Admitted(next.encoding())
                } else {
                    Verdict::Denied
                }
            },
        }
    }

    open spec fn instance(&self, value: Seq<u8>) -> Option<LimiterInstance> {
        match TokenBucketInstance::decoding(value) {
            Some(state) => Some(LimiterInstance::TokenBucketInstance(state)),
            None => None,
        }
    }

    fn is_ratelimited(&self, value: Option<Vec<u8>>, now: u64, cost: u32) -> (r: Result<
        Vec<u8>,
        RateLimiterError,
    >)
        ensures
            r matches Err(RateLimiterError::MalformedValue(e)) ==> (e is Some <==> option_view(
                value,
            ) is Some && option_view(value)->Some_0.len() < STORED_LEN),
    {
        let state = match value {
            None => self.full(now),
            Some(bytes) => match TokenBucketInstance::from_bytes(bytes) {
                Ok(state) => state,
                Err(e) => {
                    return Err(e);
                },
            },
        };
        let (next, admitted) = self.decide(state, now, cost);
        if admitted {
            next.to_bytes()
        } else {
            Err(RateLimiterError::RateExceeded)
        }
    }

    fn window_instance(&self, value: Vec<u8>) -> (r: Result<LimiterInstance, RateLimiterError>)
        ensures
            r matches Err(RateLimiterError::MalformedValue(e)) ==> (e is Some <==> value@.len()
                < STORED_LEN),
    {
        match TokenBucketInstance::from_bytes(value) {
            Ok(state) => Ok(LimiterInstance::TokenBucketInstance(state)),
            Err(e) => Err(e),
        }
    }
}

} // verus!
