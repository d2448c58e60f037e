//! The shared vocabulary of the four limiters: the errors, the tagged
//! union of their states, and the interface that each of them offers.

pub mod fixed_window;
pub mod leaky_bucket;
pub mod sliding_window;
pub mod token_bucket;

use crate::backend::BackendError;
use crate::types::fixed_window::{FixedWindow, FixedWindowInstance};
use crate::types::leaky_bucket::{LeakyBucket, LeakyBucketInstance};
use crate::types::sliding_window::{SlidingWindow, SlidingWindowInstance};
use crate::types::token_bucket::{TokenBucket, TokenBucketInstance};
use crate::wire::error_text;
use vstd::prelude::*;

verus! {

/// Why a call did not yield a new state.
#[derive(Debug)]
pub enum RateLimiterError {
    /// Stored bytes that do not decode, with the decoder's own error where
    /// there is one, or a state of another algorithm than the one asked for.
    MalformedValue(Option<bincode::Error>),
    /// The policy denies the request. This is an ordinary outcome, not a
    /// defect.
    RateExceeded,
    /// The store failed.
    BackendError(BackendError),
    /// The stored value changed between read and write. The caller reads
    /// again and decides again; this is never a denial.
    BackendConflict,
}

impl RateLimiterError {
    /// The text of the error for a log or a response.
    pub fn message(&self) -> (text: String)
        ensures
            *self matches RateLimiterError::MalformedValue(None) ==> text@ == "malformed value"@,
            *self is RateExceeded ==> text@ == "rate exceeded"@,
            *self matches RateLimiterError::BackendError(e) ==> text@ == e.message@,
            *self is BackendConflict ==> text@ == "backend value conflict"@,
    {
        match self {
            RateLimiterError::MalformedValue(Some(e)) => error_text(e),
            RateLimiterError::MalformedValue(None) => "malformed value".to_string(),
            RateLimiterError::RateExceeded => "rate exceeded".to_string(),
            RateLimiterError::BackendError(e) => e.message.clone(),
            RateLimiterError::BackendConflict => "backend value conflict".to_string(),
        }
    }
}

/// The state of one limiter, tagged with its algorithm.
#[derive(Debug, Clone, Copy, PartialEq, Eq, Structural)]
pub enum LimiterInstance {
    FixedWindowInstance(FixedWindowInstance),
    SlidingWindowInstance(SlidingWindowInstance),
    TokenBucketInstance(TokenBucketInstance),
    LeakyBucketInstance(LeakyBucketInstance),
}

impl LimiterInstance {
    /// The fixed-window state that this is, or `MalformedValue` for the
    /// state of another algorithm. Nothing is reinterpreted.
    pub fn as_fixed_window_instance(self) -> (r: Result<FixedWindowInstance, RateLimiterError>)
        ensures
            match self {
                LimiterInstance::FixedWindowInstance(state) => r == Ok::<
                    FixedWindowInstance,
                    RateLimiterError,
                >(state),
                _ => r matches Err(RateLimiterError::MalformedValue(None)),
            },
    {
        match self {
            LimiterInstance::FixedWindowInstance(state) => Ok(state),
            _ => Err(RateLimiterError::MalformedValue(None)),
        }
    }

    /// The sliding-window state that this is, or `MalformedValue` for the
    /// state of another algorithm.
    pub fn as_sliding_window_instance(self) -> (r: Result<SlidingWindowInstance, RateLimiterError>)
        ensures
            match self {
                LimiterInstance::SlidingWindowInstance(state) => r == Ok::<
                    SlidingWindowInstance,
                    RateLimiterError,
                >(state),
                _ => r matches Err(RateLimiterError::MalformedValue(None)),
            },
    {
        match self {
            LimiterInstance::SlidingWindowInstance(state) => Ok(state),
            _ => Err(RateLimiterError::MalformedValue(None)),
        }
    }

    /// The token-bucket state that this is, or `MalformedValue` for the
    /// state of another algorithm.
    pub fn as_token_bucket_instance(self) -> (r: Result<TokenBucketInstance, RateLimiterError>)
        ensures
            match self {
                LimiterInstance::TokenBucketInstance(state) => r == Ok::<
                    TokenBucketInstance,
                    RateLimiterError,
                >(state),
                _ => r matches Err(RateLimiterError::MalformedValue(None)),
            },
    {
        match self {
            LimiterInstance::TokenBucketInstance(state) => Ok(state),
            _ => Err(RateLimiterError::MalformedValue(None)),
        }
    }

    /// The leaky-bucket state that this is, or `MalformedValue` for the
    /// state of another algorithm.
    pub fn as_leaky_bucket_instance(self) -> (r: Result<LeakyBucketInstance, RateLimiterError>)
        ensures
            match self {
                LimiterInstance::LeakyBucketInstance(state) => r == Ok::<
                    LeakyBucketInstance,
                    RateLimiterError,
                >(state),
                _ => r matches Err(RateLimiterError::MalformedValue(None)),
            },
    {
        match self {
            LimiterInstance::LeakyBucketInstance(state) => Ok(state),
            _ => Err(RateLimiterError::MalformedValue(None)),
        }
    }
}

/// What a limiter answers to a request, as a value of the specification.
pub enum Verdict {
    /// The request is admitted, and these bytes are the state to store.
    Admitted(Seq<u8>),
    /// The policy denies the request.
    Denied,
    /// The stored bytes do not decode.
    Malformed,
}

/// The bytes that were read from the store, where there were any.
pub open spec fn option_view(value: Option<Vec<u8>>) -> Option<Seq<u8>> {
    match value {
        Some(bytes) => Some(bytes@),
        None => None,
    }
}

/// What every limiter offers, whatever its algorithm.
pub trait LimiterType: Clone {
    /// The answer to a request of `cost` at `now`, given what the store
    /// holds for the key. A key without a stored value is in the
    /// algorithm's initial state.
    spec fn verdict(&self, value: Option<Seq<u8>>, now: u64, cost: u32) -> Verdict;

    /// The state that stored bytes stand for, under this limiter's tag.
    spec fn instance(&self, value: Seq<u8>) -> Option<LimiterInstance>;

    /// Decides on a request of `cost` at `now`: the state to store where it
    /// is admitted, `RateExceeded` where it is denied, `MalformedValue`
    /// where the stored bytes do not decode.
    fn is_ratelimited(&self, value: Option<Vec<u8>>, now: u64, cost: u32) -> (r: Result<
        Vec<u8>,
        RateLimiterError,
    >)
        ensures
            match self.verdict(option_view(value), now, cost) {
                Verdict::Admitted(bytes) => r matches Ok(stored) && stored@ == bytes,
                Verdict::Denied => r matches Err(RateLimiterError::RateExceeded),
                Verdict::Malformed => r matches Err(RateLimiterError::MalformedValue(_)),
            },
    ;

    /// Decodes stored bytes into this limiter's state, with no decision
    /// taken.
    fn window_instance(&self, value: Vec<u8>) -> (r: Result<LimiterInstance, RateLimiterError>)
        ensures
            match self.instance(value@) {
                Some(state) => r == Ok::<LimiterInstance, RateLimiterError>(state),
                None => r matches Err(RateLimiterError::MalformedValue(_)),
            },
    ;
}

/// A limiter whose algorithm is chosen when the program runs, from its
/// configuration.
#[derive(Debug, Clone, Copy)]
pub enum Limiter {
    FixedWindow(FixedWindow),
    SlidingWindow(SlidingWindow),
    TokenBucket(TokenBucket),
    LeakyBucket(LeakyBucket),
}

impl LimiterType for Limiter {
    /// The answer of the algorithm that was chosen.
    open spec fn verdict(&self, value: Option<Seq<u8>>, now: u64, cost: u32) -> Verdict {
        match *self {
            Limiter::FixedWindow(policy) => policy.verdict(value, now, cost),
            Limiter::SlidingWindow(policy) => policy.verdict(value, now, cost),
            Limiter::TokenBucket(policy) => policy.verdict(value, now, cost),
            Limiter::LeakyBucket(policy) => policy.verdict(value, now, cost),
        }
    }

    /// The state under the tag of the algorithm that was chosen.
    open spec fn instance(&self, value: Seq<u8>) -> Option<LimiterInstance> {
        match *self {
            Limiter::FixedWindow(policy) => policy.instance(value),
            Limiter::SlidingWindow(policy) => policy.instance(value),
            Limiter::TokenBucket(policy) => policy.instance(value),
            Limiter::LeakyBucket(policy) => policy.instance(value),
        }
    }

    fn is_ratelimited(&self, value: Option<Vec<u8>>, now: u64, cost: u32) -> (r: Result<
        Vec<u8>,
        RateLimiterError,
    >) {
        match self {
            Limiter::FixedWindow(policy) => policy.is_ratelimited(value, now, cost),
            Limiter::SlidingWindow(policy) => policy.is_ratelimited(value, now, cost),
            Limiter::TokenBucket(policy) => policy.is_ratelimited(value, now, cost),
            Limiter::LeakyBucket(policy) => policy.is_ratelimited(value, now, cost),
        }
    }

    fn window_instance(&self, value: Vec<u8>) -> (r: Result<LimiterInstance, RateLimiterError>) {
        match self {
            Limiter::FixedWindow(policy) => policy.window_instance(value),
            Limiter::SlidingWindow(policy) => policy.window_instance(value),
            Limiter::TokenBucket(policy) => policy.window_instance(value),
            Limiter::LeakyBucket(policy) => policy.window_instance(value),
        }
    }
}

} // verus!
