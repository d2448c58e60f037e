//! Rate limiting over persisted counters.
//!
//! A limiter is a policy (capacity, window length, refill or leak rate). A
//! decision takes the state stored for a subject key, the current time and
//! the cost of the request, and yields the state to store and whether the
//! request is admitted. Nothing here reads a clock or talks to a store: the
//! caller reads the state, asks for the decision and writes the new state
//! back under the store's compare-and-swap.

pub mod backend;
pub mod fixed_point;
pub mod types;
pub mod wire;
