//! The fixed window: a counter that starts again at each multiple of the
//! window length.
//!
//! Two bursts on either side of a boundary can together exceed the limit
//! within a short interval. That is what a fixed window is.

use crate::types::{option_view, LimiterInstance, LimiterType, RateLimiterError, Verdict};
use crate::wire::{
    deserialize_u64_u32, le_bytes, le_value, lemma_le_bounds, lemma_le_bytes_len,
    lemma_le_bytes_of_value, lemma_le_value_of_bytes, serialize_u64_u32,
};
use vstd::arithmetic::div_mod::lemma_fundamental_div_mod;
use vstd::prelude::*;

verus! {

/// The number of bytes of a stored fixed window.
pub const STORED_LEN: usize = 12;

/// The persisted state of a fixed window: where the window began, and what
/// was admitted in it.
#[derive(Debug, Clone, Copy, PartialEq, Eq, Structural)]
pub struct FixedWindowInstance {
    pub window_start: u64,
    pub count: u32,
}

impl Default for FixedWindowInstance {
    /// The state of a key that was never seen: nothing admitted.
    fn default() -> (state: Self)
        ensures
            state == (FixedWindowInstance { window_start: 0, count: 0 }),
    {
        FixedWindowInstance { window_start: 0, count: 0 }
    }
}

impl FixedWindowInstance {
    /// The stored form: `window_start` in 8 bytes, then `count` in 4, both
    /// little-endian.
    pub open spec fn encoding(self) -> Seq<u8> {
        le_bytes(self.window_start as nat, 8) + le_bytes(self.count as nat, 4)
    }

    /// The state that stored bytes stand for: the two fields, where there
    /// are exactly the 12 bytes of the layout. Fewer bytes or more stand
    /// for no state: what another algorithm stored is not read in part.
    pub open spec fn decoding(bytes: Seq<u8>) -> Option<Self> {
        if bytes.len() == STORED_LEN {
            Some(
                FixedWindowInstance {
                    window_start: le_value(bytes.subrange(0, 8)) as u64,
                    count: le_value(bytes.subrange(8, 12)) as u32,
                },
            )
        } else {
            None
        }
    }

    /// Encodes the state.
    pub fn to_bytes(self) -> (r: Result<Vec<u8>, RateLimiterError>)
        ensures
            r matches Ok(bytes) && bytes@ == self.encoding(),
    {
        match serialize_u64_u32(self.window_start, self.count) {
            Ok(bytes) => Ok(bytes),
            Err(e) => Err(RateLimiterError::MalformedValue(Some(e))),
        }
    }

    /// Decodes stored bytes. Bytes that end too early come back with the
    /// decoder's error, bytes that go on too long without one.
    pub fn from_bytes(bytes: Vec<u8>) -> (r: Result<Self, RateLimiterError>)
        ensures
            match Self::decoding(bytes@) {
                Some(state) => r == Ok::<Self, RateLimiterError>(state),
                None => r matches Err(RateLimiterError::MalformedValue(_)),
            },
            r matches Err(RateLimiterError::MalformedValue(e)) ==> (e is Some <==> bytes@.len()
                < STORED_LEN),
    {
        if bytes.len() > STORED_LEN {
            return Err(RateLimiterError::MalformedValue(None));
        }
        match deserialize_u64_u32(bytes.as_slice()) {
            Ok((window_start, count)) => Ok(FixedWindowInstance { window_start, count }),
            Err(e) => Err(RateLimiterError::MalformedValue(Some(e))),
        }
    }

    /// Every state is read back from its encoding.
    pub proof fn lemma_round_trip(self)
        ensures
            Self::decoding(self.encoding()) == Some(self),
    {
        let head = le_bytes(self.window_start as nat, 8);
        let tail = le_bytes(self.count as nat, 4);
        lemma_le_bounds();
        lemma_le_bytes_len(self.window_start as nat, 8);
        lemma_le_bytes_len(self.count as nat, 4);
        lemma_le_value_of_bytes(self.window_start as nat, 8);
        lemma_le_value_of_bytes(self.count as nat, 4);
        assert(self.encoding().subrange(0, 8) =~= head);
        assert(self.encoding().subrange(8, 12) =~= tail);
    }

    /// Stored bytes that stand for a state are the encoding of that state:
    /// no two of them stand for the same state.
    pub proof fn lemma_decoding_is_exact(bytes: Seq<u8>)
        ensures
            Self::decoding(bytes) is Some <==> bytes.len() == STORED_LEN,
            Self::decoding(bytes) matches Some(state) ==> state.encoding() == bytes,
    {
        if bytes.len() == STORED_LEN {
            lemma_le_bounds();
            lemma_le_bytes_of_value(bytes.subrange(0, 8));
            lemma_le_bytes_of_value(bytes.subrange(8, 12));
            assert(bytes.subrange(0, 8) + bytes.subrange(8, 12) =~= bytes);
        }
    }
}

/// The start of the window that holds `now` is `now` less its remainder.
pub proof fn lemma_window_start(now: u64, window: u64)
    requires
        window > 0,
    ensures
        (now / window) * window == now - now % window,
        0 <= now % window < window,
{
    lemma_fundamental_div_mod(now as int, window as int);
    assert((now / window) * window == window * (now / window)) by (nonlinear_arith);
}

/// The policy of a fixed window: at most `limit` in each window of length
/// `window`.
#[derive(Debug, Clone, Copy)]
pub struct FixedWindow {
    limit: u32,
    window: u64,
}

impl FixedWindow {
    #[verifier::type_invariant]
    spec fn well_formed(self) -> bool {
        self.window > 0
    }

    /// The most that one window admits.
    pub closed spec fn spec_limit(&self) -> u32 {
        self.limit
    }

    /// The length of a window.
    pub closed spec fn spec_window(&self) -> u64 {
        self.window
    }

    /// The most that one window admits.
    #[verifier::when_used_as_spec(spec_limit)]
    pub fn limit(&self) -> (limit: u32)
        ensures
            limit == self.spec_limit(),
    {
        self.limit
    }

    /// The length of a window, which is not zero.
    #[verifier::when_used_as_spec(spec_window)]
    pub fn window(&self) -> (window: u64)
        ensures
            window == self.spec_window(),
            window > 0,
    {
        proof {
            use_type_invariant(self);
        }
        self.window
    }

    /// A policy, unless the window has no length.
    pub fn new(limit: u32, window: u64) -> (r: Option<Self>)
        ensures
            r is Some <==> window > 0,
            r matches Some(policy) ==> policy.spec_limit() == limit && policy.spec_window()
                == window,
    {
        if window == 0 {
            None
        } else {
            Some(FixedWindow { limit, window })
        }
    }

    /// The start of the window that holds `now`.
    pub open spec fn window_start(self, now: u64) -> int {
        (now / self.spec_window()) * self.spec_window()
    }

    /// The state once time has reached `now`: unchanged within its window,
    /// and an empty window at `now` otherwise.
    pub open spec fn rolled(self, state: FixedWindowInstance, now: u64) -> FixedWindowInstance {
        if self.window_start(now) == state.window_start {
            state
        } else {
            FixedWindowInstance { window_start: self.window_start(now) as u64, count: 0 }
        }
    }

    /// Whether a window in the state `rolled` has room for `cost` more.
    pub open spec fn admits(self, rolled: FixedWindowInstance, cost: u32) -> bool {
        rolled.count + cost <= self.spec_limit()
    }

    /// The decision on a request of `cost` at `now`: the state to keep, and
    /// whether the request is admitted. A denial keeps the rolled state, so
    /// an expired window is reset either way.
    pub open spec fn decision(self, state: FixedWindowInstance, now: u64, cost: u32) -> (
        FixedWindowInstance,
        bool,
    ) {
        let rolled = self.rolled(state, now);
        if self.admits(rolled, cost) {
            (
                FixedWindowInstance {
                    window_start: rolled.window_start,
                    count: (rolled.count + cost) as u32,
                },
                true,
            )
        } else {
            (rolled, false)
        }
    }

    /// Decides on a request of `cost` at `now`.
    pub fn decide(&self, state: FixedWindowInstance, now: u64, cost: u32) -> (r: (
        FixedWindowInstance,
        bool,
    ))
        ensures
            r == self.decision(state, now, cost),
            r.0.window_start == self.window_start(now),
            r.1 ==> r.0.count <= self.spec_limit(),
    {
        proof {
            use_type_invariant(self);
            lemma_window_start(now, self.window);
        }
        let start: u64 = now - now % self.window;
        let rolled = if start == state.window_start {
            state
        } else {
            FixedWindowInstance { window_start: start, count: 0 }
        };
        if cost <= self.limit && rolled.count <= self.limit - cost {
            (FixedWindowInstance { window_start: rolled.window_start, count: rolled.count + cost }, true)
        } else {
            (rolled, false)
        }
    }
}

impl LimiterType for FixedWindow {
    open spec fn verdict(&self, value: Option<Seq<u8>>, now: u64, cost: u32) -> Verdict {
        let state = match value {
            None => Some(FixedWindowInstance { window_start: 0, count: 0 }),
            Some(bytes) => FixedWindowInstance::decoding(bytes),
        };
        match state {
            None => Verdict::Malformed,
            Some(state) => {
                let (next, admitted) = self.decision(state, now, cost);
                if admitted {
                    Verdict::Admitted(next.encoding())
                } else {
                    Verdict::Denied
                }
            },
        }
    }

    open spec fn instance(&self, value: Seq<u8>) -> Option<LimiterInstance> {
        match FixedWindowInstance::decoding(value) {
            Some(state) => Some(LimiterInstance::FixedWindowInstance(state)),
            None => None,
        }
    }

    fn is_ratelimited(&self, value: Option<Vec<u8>>, now: u64, cost: u32) -> (r: Result<
        Vec<u8>,
        RateLimiterError,
    >)
        ensures
            r matches Err(RateLimiterError::MalformedValue(e)) ==> (e is Some <==> option_view(
                value,
            ) is Some && option_view(value)->Some_0.len() < STORED_LEN),
    {
        let state = match value {
            None => FixedWindowInstance::default(),
            Some(bytes) => match FixedWindowInstance::from_bytes(bytes) {
                Ok(state) => state,
                Err(e) => {
                    return Err(e);
                },
            },
        };
        let (next, admitted) = self.decide(state, now, cost);
        if admitted {
            next.to_bytes()
        } else {
            Err(RateLimiterError::RateExceeded)
        }
    }

    fn window_instance(&self, value: Vec<u8>) -> (r: Result<LimiterInstance, RateLimiterError>)
        ensures
            r matches Err(RateLimiterError::MalformedValue(e)) ==> (e is Some <==> value@.len()
                < STORED_LEN),
    {
        match FixedWindowInstance::from_bytes(value) {
            Ok(state) => Ok(LimiterInstance::FixedWindowInstance(state)),
            Err(e) => Err(e),
        }
    }
}

} // verus!
