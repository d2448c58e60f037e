//! The sliding window: two adjacent fixed windows, the earlier one weighted
//! by how much of it still lies within one window length before now.
//!
//! The estimate assumes that the requests of the earlier window were spread
//! evenly over it. In exchange the state is three numbers, not one entry
//! per request.

use crate::types::fixed_window::lemma_window_start;
use crate::types::{option_view, LimiterInstance, LimiterType, RateLimiterError, Verdict};
use crate::wire::{
    deserialize_u64_u32_u32, le_bytes, le_value, lemma_le_bounds, lemma_le_bytes_len,
    lemma_le_bytes_of_value, lemma_le_value_of_bytes, serialize_u64_u32_u32,
};
use vstd::prelude::*;

verus! {

/// The number of bytes of a stored sliding window.
pub const STORED_LEN: usize = 16;

/// The persisted state of a sliding window: where the current window
/// began, what was admitted in it, and what was admitted in the one before.
#[derive(Debug, Clone, Copy, PartialEq, Eq, Structural)]
pub struct SlidingWindowInstance {
    pub window_start: u64,
    pub current_count: u32,
    pub previous_count: u32,
}

impl Default for SlidingWindowInstance {
    /// The state of a key that was never seen: nothing admitted.
    fn default() -> (state: Self)
        ensures
            state == (SlidingWindowInstance {
                window_start: 0,
                current_count: 0,
                previous_count: 0,
            }),
    {
        SlidingWindowInstance { window_start: 0, current_count: 0, previous_count: 0 }
    }
}

impl SlidingWindowInstance {
    /// The stored form: `window_start` in 8 bytes, then `current_count` and
    /// `previous_count` in 4 each, all little-endian.
    pub open spec fn encoding(self) -> Seq<u8> {
        le_bytes(self.window_start as nat, 8) + le_bytes(self.current_count as nat, 4) + le_bytes(
            self.previous_count as nat,
            4,
        )
    }

    /// The state that stored bytes stand for: the three fields, where
    /// there are exactly the 16 bytes of the layout. Fewer bytes or more
    /// stand for no state.
    pub open spec fn decoding(bytes: Seq<u8>) -> Option<Self> {
        if bytes.len() == STORED_LEN {
            Some(
                SlidingWindowInstance {
                    window_start: le_value(bytes.subrange(0, 8)) as u64,
                    current_count: le_value(bytes.subrange(8, 12)) as u32,
                    previous_count: le_value(bytes.subrange(12, 16)) as u32,
                },
            )
        } else {
            None
        }
    }

    /// Encodes the state.
    pub fn to_bytes(self) -> (r: Result<Vec<u8>, RateLimiterError>)
        ensures
            r matches Ok(bytes) && bytes@ == self.encoding(),
    {
        match serialize_u64_u32_u32(self.window_start, self.current_count, self.previous_count) {
            Ok(bytes) => Ok(bytes),
            Err(e) => Err(RateLimiterError::MalformedValue(Some(e))),
        }
    }

    /// Decodes stored bytes. Bytes that end too early come back with the
    /// decoder's error, bytes that go on too long without one.
    pub fn from_bytes(bytes: Vec<u8>) -> (r: Result<Self, RateLimiterError>)
        ensures
            match Self::decoding(bytes@) {
                Some(state) => r == Ok::<Self, RateLimiterError>(state),
                None => r matches Err(RateLimiterError::MalformedValue(_)),
            },
            r matches Err(RateLimiterError::MalformedValue(e)) ==> (e is Some <==> bytes@.len()
                < STORED_LEN),
    {
        if bytes.len() > STORED_LEN {
            return Err(RateLimiterError::MalformedValue(None));
        }
        match deserialize_u64_u32_u32(bytes.as_slice()) {
            Ok((window_start, current_count, previous_count)) => Ok(
                SlidingWindowInstance { window_start, current_count, previous_count },
            ),
            Err(e) => Err(RateLimiterError::MalformedValue(Some(e))),
        }
    }

    /// Every state is read back from its encoding.
    pub proof fn lemma_round_trip(self)
        ensures
            Self::decoding(self.encoding()) == Some(self),
    {
        let start = le_bytes(self.window_start as nat, 8);
        let current = le_bytes(self.current_count as nat, 4);
        let previous = le_bytes(self.previous_count as nat, 4);
        lemma_le_bounds();
        lemma_le_bytes_len(self.window_start as nat, 8);
        lemma_le_bytes_len(self.current_count as nat, 4);
        lemma_le_bytes_len(self.previous_count as nat, 4);
        lemma_le_value_of_bytes(self.window_start as nat, 8);
        lemma_le_value_of_bytes(self.current_count as nat, 4);
        lemma_le_value_of_bytes(self.previous_count as nat, 4);
        assert(self.encoding().subrange(0, 8) =~= start);
        assert(self.encoding().subrange(8, 12) =~= current);
        assert(self.encoding().subrange(12, 16) =~= previous);
    }

    /// Stored bytes that stand for a state are the encoding of that state:
    /// no two of them stand for the same state.
    pub proof fn lemma_decoding_is_exact(bytes: Seq<u8>)
        ensures
            Self::decoding(bytes) is Some <==> bytes.len() == STORED_LEN,
            Self::decoding(bytes) matches Some(state) ==> state.encoding() == bytes,
    {
        if bytes.len() == STORED_LEN {
            lemma_le_bounds();
            lemma_le_bytes_of_value(bytes.subrange(0, 8));
            lemma_le_bytes_of_value(bytes.subrange(8, 12));
            lemma_le_bytes_of_value(bytes.subrange(12, 16));
            assert(bytes.subrange(0, 8) + bytes.subrange(8, 12) + bytes.subrange(12, 16)
                =~= bytes);
        }
    }
}

/// The policy of a sliding window: an estimated `limit` at most over the
/// last `window` of time.
#[derive(Debug, Clone, Copy)]
pub struct SlidingWindow {
    limit: u32,
    window: u64,
}

impl SlidingWindow {
    #[verifier::type_invariant]
    spec fn well_formed(self) -> bool {
        self.window > 0
    }

    /// The most that the estimate may reach.
    pub closed spec fn spec_limit(&self) -> u32 {
        self.limit
    }

    /// The length of a window.
    pub closed spec fn spec_window(&self) -> u64 {
        self.window
    }

    /// The most that the estimate may reach.
    #[verifier::when_used_as_spec(spec_limit)]
    pub fn limit(&self) -> (limit: u32)
        ensures
            limit == self.spec_limit(),
    {
        self.limit
    }

    /// The length of a window, which is not zero.
    #[verifier::when_used_as_spec(spec_window)]
    pub fn window(&self) -> (window: u64)
        ensures
            window == self.spec_window(),
            window > 0,
    {
        proof {
            use_type_invariant(self);
        }
        self.window
    }

    /// A policy, unless the window has no length.
    pub fn new(limit: u32, window: u64) -> (r: Option<Self>)
        ensures
            r is Some <==> window > 0,
            r matches Some(policy) ==> policy.spec_limit() == limit && policy.spec_window()
                == window,
    {
        if window == 0 {
            None
        } else {
            Some(SlidingWindow { limit, window })
        }
    }

    /// The start of the window that holds `now`.
    pub open spec fn window_start(self, now: u64) -> int {
        (now / self.spec_window()) * self.spec_window()
    }

    /// The state once time has reached `now`: unchanged within its window;
    /// one window on, the current count becomes the previous one; after a
    /// longer gap, or where the state lies ahead of `now`, both counts are
    /// zero.
    pub open spec fn rolled(self, state: SlidingWindowInstance, now: u64) -> SlidingWindowInstance {
        let start = self.window_start(now);
        if start == state.window_start {
            state
        } else if start == state.window_start + self.spec_window() {
            SlidingWindowInstance {
                window_start: start as u64,
                current_count: 0,
                previous_count: state.current_count,
            }
        } else {
            SlidingWindowInstance { window_start: start as u64, current_count: 0, previous_count: 0 }
        }
    }

    /// The estimated count at `now`, multiplied by the window length: with
    /// `e` of the window's `w` elapsed, the estimate is
    /// `current + previous * (1 - e / w)`.
    pub open spec fn weighted(self, rolled: SlidingWindowInstance, now: u64) -> int {
        rolled.current_count * self.spec_window() + rolled.previous_count * (self.spec_window()
            - now % self.spec_window())
    }

    /// Whether the estimate at `now` and `cost` together stay within the
    /// limit. Both sides are multiplied by the window length, so that
    /// nothing is rounded.
    pub open spec fn admits(self, rolled: SlidingWindowInstance, now: u64, cost: u32) -> bool {
        self.weighted(rolled, now) + cost * self.spec_window() <= self.spec_limit()
            * self.spec_window()
    }

    /// The decision on a request of `cost` at `now`: the state to keep, and
    /// whether the request is admitted. A denial keeps the rolled state.
    pub open spec fn decision(self, state: SlidingWindowInstance, now: u64, cost: u32) -> (
        SlidingWindowInstance,
        bool,
    ) {
        let rolled = self.rolled(state, now);
        if self.admits(rolled, now, cost) {
            (
                SlidingWindowInstance {
                    window_start: rolled.window_start,
                    current_count: (rolled.current_count + cost) as u32,
                    previous_count: rolled.previous_count,
                },
                true,
            )
        } else {
            (rolled, false)
        }
    }

    /// Brings a state forward to `now`.
    pub fn roll(&self, state: SlidingWindowInstance, now: u64) -> (rolled: SlidingWindowInstance)
        ensures
            rolled == self.rolled(state, now),
            rolled.window_start == self.window_start(now),
    {
        proof {
            use_type_invariant(self);
            lemma_window_start(now, self.window);
        }
        let start: u64 = now - now % self.window;
        if start == state.window_start {
            state
        } else if start >= self.window && start - self.window == state.window_start {
            SlidingWindowInstance {
                window_start: start,
                current_count: 0,
                previous_count: state.current_count,
            }
        } else {
            SlidingWindowInstance { window_start: start, current_count: 0, previous_count: 0 }
        }
    }

    /// The estimated count at `now`, multiplied by the window length.
    pub fn weighted_count(&self, state: SlidingWindowInstance, now: u64) -> (total: u128)
        ensures
            total == self.weighted(self.rolled(state, now), now),
    {
        let rolled = self.roll(state, now);
        proof {
            use_type_invariant(self);
            lemma_weights_fit(
                rolled.current_count,
                rolled.previous_count,
                0,
                self.limit,
                self.window,
                now,
            );
        }
        let window = self.window as u128;
        let left = (self.window - now % self.window) as u128;
        (rolled.current_count as u128) * window + (rolled.previous_count as u128) * left
    }

    /// Decides on a request of `cost` at `now`.
    pub fn decide(&self, state: SlidingWindowInstance, now: u64, cost: u32) -> (r: (
        SlidingWindowInstance,
        bool,
    ))
        ensures
            r == self.decision(state, now, cost),
            r.1 ==> r.0.current_count <= self.spec_limit(),
    {
        let rolled = self.roll(state, now);
        proof {
            use_type_invariant(self);
            lemma_weights_fit(
                rolled.current_count,
                rolled.previous_count,
                cost,
                self.limit,
                self.window,
                now,
            );
        }
        let window = self.window as u128;
        let left = (self.window - now % self.window) as u128;
        let asked = (rolled.current_count as u128 + cost as u128) * window + (
        rolled.previous_count as u128) * left;
        if asked <= (self.limit as u128) * window {
            (
                SlidingWindowInstance {
                    window_start: rolled.window_start,
                    current_count: rolled.current_count + cost,
                    previous_count: rolled.previous_count,
                },
                true,
            )
        } else {
            (rolled, false)
        }
    }
}

/// The products of the weighted comparison fit in 128 bits, and a request
/// that the comparison admits keeps the current count within the limit.
proof fn lemma_weights_fit(
    current: u32,
    previous: u32,
    cost: u32,
    limit: u32,
    window: u64,
    now: u64,
)
    requires
        window > 0,
    ensures
        0 <= now % window < window,
        (current + cost) * window + previous * (window - now % window) <= u128::MAX,
        current * window + previous * (window - now % window) <= u128::MAX,
        limit * window <= u128::MAX,
        (current + cost) * window == current * window + cost * window,
        (current + cost) * window + previous * (window - now % window) <= limit * window
            ==> current + cost <= limit,
{
    let left = window - now % window;
    assert((current + cost) * window <= 0x2_0000_0000 * 0x1_0000_0000_0000_0000) by (nonlinear_arith)
        requires
            current + cost <= 0x2_0000_0000,
            window <= 0x1_0000_0000_0000_0000,
    ;
    assert(0 <= current * window <= (current + cost) * window) by (nonlinear_arith);
    assert(0 <= previous * left <= 0x1_0000_0000 * 0x1_0000_0000_0000_0000) by (nonlinear_arith)
        requires
            previous <= 0x1_0000_0000,
            0 <= left <= 0x1_0000_0000_0000_0000,
    ;
    assert(limit * window <= 0x1_0000_0000 * 0x1_0000_0000_0000_0000) by (nonlinear_arith)
        requires
            limit <= 0x1_0000_0000,
            window <= 0x1_0000_0000_0000_0000,
    ;
    assert((current + cost) * window == current * window + cost * window) by (nonlinear_arith);
    assert((current + cost) * window <= limit * window ==> current + cost <= limit)
        by (nonlinear_arith)
        requires
            window > 0,
    ;
}

impl LimiterType for SlidingWindow {
    open spec fn verdict(&self, value: Option<Seq<u8>>, now: u64, cost: u32) -> Verdict {
        let state = match value {
            None => Some(
                SlidingWindowInstance { window_start: 0, current_count: 0, previous_count: 0 },
            ),
            Some(bytes) => SlidingWindowInstance::decoding(bytes),
        };
        match state {
            None => Verdict::Malformed,
            Some(state) => {
                let (next, admitted) = self.decision(state, now, cost);
                if admitted {
                    Verdict::Admitted(next.encoding())
                } else {
                    Verdict::Denied
                }
            },
        }
    }

    open spec fn instance(&self, value: Seq<u8>) -> Option<LimiterInstance> {
        match SlidingWindowInstance::decoding(value) {
            Some(state) => Some(LimiterInstance::SlidingWindowInstance(state)),
            None => None,
        }
    }

    fn is_ratelimited(&self, value: Option<Vec<u8>>, now: u64, cost: u32) -> (r: Result<
        Vec<u8>,
        RateLimiterError,
    >)
        ensures
            r matches Err(RateLimiterError::MalformedValue(e)) ==> (e is Some <==> option_view(
                value,
            ) is Some && option_view(value)->Some_0.len() < STORED_LEN),
    {
        let state = match value {
            None => SlidingWindowInstance::default(),
            Some(bytes) => match SlidingWindowInstance::from_bytes(bytes) {
                Ok(state) => state,
                Err(e) => {
                    return Err(e);
                },
            },
        };
        let (next, admitted) = self.decide(state, now, cost);
        if admitted {
            next.to_bytes()
        } else {
            Err(RateLimiterError::RateExceeded)
        }
    }

    fn window_instance(&self, value: Vec<u8>) -> (r: Result<LimiterInstance, RateLimiterError>)
        ensures
            r matches Err(RateLimiterError::MalformedValue(e)) ==> (e is Some <==> value@.len()
                < STORED_LEN),
    {
        match SlidingWindowInstance::from_bytes(value) {
            Ok(state) => Ok(LimiterInstance::SlidingWindowInstance(state)),
            Err(e) => Err(e),
        }
    }
}

} // verus!
