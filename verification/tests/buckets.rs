use ratelimit::fixed_point::{
    bits_from_units, units_from_bits, MAX_UNITS, UNITS_PER_TOKEN,
};
use ratelimit::types::leaky_bucket::{LeakyBucket, LeakyBucketInstance};
use ratelimit::types::token_bucket::{TokenBucket, TokenBucketInstance};
use ratelimit::types::{LimiterInstance, LimiterType, RateLimiterError};

fn wire(amount: f64, at: u64) -> Vec<u8> {
    let mut bytes = amount.to_le_bytes().to_vec();
    bytes.extend_from_slice(&at.to_le_bytes());
    bytes
}

#[test]
fn units_have_the_bits_of_the_number_of_tokens() {
    assert_eq!(UNITS_PER_TOKEN, 1 << 20);
    assert_eq!(MAX_UNITS, (1 << 53) - 1);
    assert_eq!(bits_from_units(0), Some(0.0f64.to_bits()));
    assert_eq!(bits_from_units(1), Some((1.0f64 / 1048576.0).to_bits()));
    assert_eq!(bits_from_units(UNITS_PER_TOKEN), Some(1.0f64.to_bits()));
    assert_eq!(bits_from_units(5 * UNITS_PER_TOKEN), Some(5.0f64.to_bits()));
    assert_eq!(bits_from_units(5 * UNITS_PER_TOKEN), Some(0x4014_0000_0000_0000));
    assert_eq!(bits_from_units(UNITS_PER_TOKEN / 2), Some(0.5f64.to_bits()));
    assert_eq!(bits_from_units(3 * UNITS_PER_TOKEN / 4 + UNITS_PER_TOKEN), Some(1.75f64.to_bits()));
    assert_eq!(
        bits_from_units(MAX_UNITS),
        Some((((1u64 << 53) - 1) as f64 / 1048576.0).to_bits())
    );
    assert_eq!(bits_from_units(MAX_UNITS + 1), None);
    assert_eq!(bits_from_units(u64::MAX), None);
}

#[test]
fn bits_are_read_as_units_rounded_down() {
    assert_eq!(units_from_bits(0.0f64.to_bits()), Some(0));
    assert_eq!(units_from_bits(1.0f64.to_bits()), Some(UNITS_PER_TOKEN));
    assert_eq!(units_from_bits(5.0f64.to_bits()), Some(5 * UNITS_PER_TOKEN));
    assert_eq!(units_from_bits(0.5f64.to_bits()), Some(UNITS_PER_TOKEN / 2));
    assert_eq!(units_from_bits((1.0f64 / 1048576.0).to_bits()), Some(1));
    assert_eq!(units_from_bits((1.0f64 / 2097152.0).to_bits()), Some(0));
    assert_eq!(units_from_bits(f64::MIN_POSITIVE.to_bits()), Some(0));
    assert_eq!(units_from_bits(1), Some(0));
    // A tenth of a token is not on the grid: it is rounded down.
    assert_eq!(units_from_bits(0.1f64.to_bits()), Some(104857));
    assert_eq!(units_from_bits(0.3f64.to_bits()), Some((0.3f64 * 1048576.0) as u64));
    assert_eq!(units_from_bits(8589934591.5f64.to_bits()), Some(MAX_UNITS - (1 << 19) + 1));
}

#[test]
fn bits_without_a_count_are_refused() {
    assert_eq!(units_from_bits(8589934592.0f64.to_bits()), None);
    assert_eq!(units_from_bits(f64::MAX.to_bits()), None);
    assert_eq!(units_from_bits(f64::INFINITY.to_bits()), None);
    assert_eq!(units_from_bits(f64::NAN.to_bits()), None);
    assert_eq!(units_from_bits((-1.0f64).to_bits()), None);
    assert_eq!(units_from_bits((-0.0f64).to_bits()), None);
    assert_eq!(units_from_bits(f64::NEG_INFINITY.to_bits()), None);
    assert_eq!(units_from_bits(u64::MAX), None);
}

#[test]
fn units_survive_their_bits() {
    let mut units: u64 = 1;
    while units <= MAX_UNITS {
        for v in [units - 1, units, units + 1, units + units / 3] {
            if v <= MAX_UNITS {
                let bits = bits_from_units(v).expect("in range");
                assert_eq!(f64::from_bits(bits), v as f64 / 1048576.0);
                assert_eq!(units_from_bits(bits), Some(v));
            }
        }
        units *= 2;
    }
    assert_eq!(units_from_bits(bits_from_units(MAX_UNITS).expect("in range")), Some(MAX_UNITS));
}

#[test]
fn token_bucket_spends_then_waits_for_a_refill() {
    let policy = TokenBucket::new(5, UNITS_PER_TOKEN);
    let mut state = policy.full(0);
    assert_eq!(state, TokenBucketInstance { tokens: 5 * UNITS_PER_TOKEN, last_refill: 0 });
    for left in (0..5u64).rev() {
        let (next, admitted) = policy.decide(state, 0, 1);
        assert!(admitted);
        assert_eq!(next, TokenBucketInstance { tokens: left * UNITS_PER_TOKEN, last_refill: 0 });
        state = next;
    }
    let (next, admitted) = policy.decide(state, 0, 1);
    assert!(!admitted);
    assert_eq!(next, TokenBucketInstance { tokens: 0, last_refill: 0 });
    let (next, admitted) = policy.decide(next, 1, 1);
    assert!(admitted);
    assert_eq!(next, TokenBucketInstance { tokens: 0, last_refill: 1 });
}

#[test]
fn token_bucket_through_stored_bytes() {
    let policy = TokenBucket::new(5, UNITS_PER_TOKEN);
    let mut stored: Option<Vec<u8>> = None;
    for left in (0..5u32).rev() {
        let bytes = policy.is_ratelimited(stored, 0, 1).expect("admitted");
        assert_eq!(bytes, wire(left as f64, 0));
        stored = Some(bytes);
    }
    assert!(matches!(
        policy.is_ratelimited(stored.clone(), 0, 1),
        Err(RateLimiterError::RateExceeded)
    ));
    let bytes = policy.is_ratelimited(stored, 1, 1).expect("one token came back");
    assert_eq!(bytes, wire(0.0, 1));
}

#[test]
fn token_bucket_keeps_fractions() {
    // A quarter of a token per unit of time.
    let policy = TokenBucket::new(2, UNITS_PER_TOKEN / 4);
    let empty = TokenBucketInstance { tokens: 0, last_refill: 100 };
    let (s1, admitted) = policy.decide(empty, 103, 1);
    assert!(!admitted);
    assert_eq!(s1, TokenBucketInstance { tokens: 3 * UNITS_PER_TOKEN / 4, last_refill: 103 });
    assert_eq!(s1.to_bytes().expect("encodes"), wire(0.75, 103));
    let (s2, admitted) = policy.decide(s1, 104, 1);
    assert!(admitted);
    assert_eq!(s2, TokenBucketInstance { tokens: 0, last_refill: 104 });
    let (s3, admitted) = policy.decide(s1, 106, 1);
    assert!(admitted);
    assert_eq!(s3, TokenBucketInstance { tokens: UNITS_PER_TOKEN / 2, last_refill: 106 });
}

#[test]
fn token_bucket_refill_stops_at_the_capacity() {
    let policy = TokenBucket::new(5, UNITS_PER_TOKEN);
    let state = TokenBucketInstance { tokens: UNITS_PER_TOKEN, last_refill: 10 };
    assert_eq!(
        policy.refill(state, 12),
        TokenBucketInstance { tokens: 3 * UNITS_PER_TOKEN, last_refill: 12 }
    );
    assert_eq!(
        policy.refill(state, 14),
        TokenBucketInstance { tokens: 5 * UNITS_PER_TOKEN, last_refill: 14 }
    );
    assert_eq!(
        policy.refill(state, u64::MAX),
        TokenBucketInstance { tokens: 5 * UNITS_PER_TOKEN, last_refill: u64::MAX }
    );
    let fast = TokenBucket::new(u32::MAX, u64::MAX);
    assert_eq!(
        fast.refill(TokenBucketInstance { tokens: u64::MAX, last_refill: 0 }, u64::MAX),
        TokenBucketInstance { tokens: (u32::MAX as u64) << 20, last_refill: u64::MAX }
    );
}

#[test]
fn token_bucket_tolerates_a_clock_that_goes_back() {
    let policy = TokenBucket::new(5, UNITS_PER_TOKEN);
    let state = TokenBucketInstance { tokens: UNITS_PER_TOKEN, last_refill: 100 };
    assert_eq!(
        policy.refill(state, 40),
        TokenBucketInstance { tokens: UNITS_PER_TOKEN, last_refill: 40 }
    );
    assert_eq!(
        policy.decide(state, 40, 2),
        (TokenBucketInstance { tokens: UNITS_PER_TOKEN, last_refill: 40 }, false)
    );
}

#[test]
fn token_bucket_clamps_a_stored_amount_above_the_capacity() {
    let policy = TokenBucket::new(5, 0);
    let state = TokenBucketInstance { tokens: 9 * UNITS_PER_TOKEN, last_refill: 0 };
    assert_eq!(
        policy.decide(state, 0, 5),
        (TokenBucketInstance { tokens: 0, last_refill: 0 }, true)
    );
    assert_eq!(
        policy.decide(state, 0, 6),
        (TokenBucketInstance { tokens: 5 * UNITS_PER_TOKEN, last_refill: 0 }, false)
    );
}

#[test]
fn token_bucket_starts_full() {
    let policy = TokenBucket::new(3, 0);
    let first = policy.is_ratelimited(None, 77, 3).expect("a new key has the whole capacity");
    assert_eq!(first, wire(0.0, 77));
    assert!(matches!(policy.is_ratelimited(None, 77, 4), Err(RateLimiterError::RateExceeded)));
}

#[test]
fn token_bucket_round_trip() {
    for state in [
        TokenBucketInstance { tokens: 0, last_refill: 0 },
        TokenBucketInstance { tokens: 1, last_refill: 1 },
        TokenBucketInstance { tokens: 5 * UNITS_PER_TOKEN, last_refill: 1_700_000_000 },
        TokenBucketInstance { tokens: 5 * UNITS_PER_TOKEN + 12345, last_refill: u64::MAX },
        TokenBucketInstance { tokens: MAX_UNITS, last_refill: 9 },
    ] {
        let bytes = state.to_bytes().expect("in range");
        assert_eq!(bytes.len(), 16);
        assert_eq!(TokenBucketInstance::from_bytes(bytes).expect("decodes"), state);
    }
}

#[test]
fn token_bucket_layout_is_a_float_and_a_timestamp() {
    let state = TokenBucketInstance { tokens: 5 * UNITS_PER_TOKEN / 2, last_refill: 0x0102_0304 };
    let bytes = state.to_bytes().expect("encodes");
    assert_eq!(bytes, wire(2.5, 0x0102_0304));
    assert_eq!(bytes, bincode::serialize(&(2.5f64, 0x0102_0304u64)).expect("bincode"));
    assert_eq!(bytes, vec![0, 0, 0, 0, 0, 0, 4, 0x40, 4, 3, 2, 1, 0, 0, 0, 0]);
}

#[test]
fn token_bucket_amount_out_of_range_does_not_encode() {
    let state = TokenBucketInstance { tokens: MAX_UNITS + 1, last_refill: 0 };
    assert!(matches!(state.to_bytes(), Err(RateLimiterError::MalformedValue(None))));
}

#[test]
fn token_bucket_rejects_what_is_no_amount() {
    for amount in [f64::NAN, f64::INFINITY, -1.0, -0.0, 1e10, f64::MAX] {
        let r = TokenBucketInstance::from_bytes(wire(amount, 5));
        assert!(matches!(r, Err(RateLimiterError::MalformedValue(None))));
    }
    for len in 0..16usize {
        let r = TokenBucketInstance::from_bytes(vec![0u8; len]);
        assert!(matches!(r, Err(RateLimiterError::MalformedValue(Some(_)))));
    }
    let policy = TokenBucket::new(5, UNITS_PER_TOKEN);
    assert!(matches!(
        policy.is_ratelimited(Some(wire(f64::NAN, 0)), 0, 1),
        Err(RateLimiterError::MalformedValue(None))
    ));
    assert!(matches!(
        policy.window_instance(vec![0u8; 15]),
        Err(RateLimiterError::MalformedValue(Some(_)))
    ));
}

#[test]
fn token_bucket_reads_a_float_off_the_grid() {
    let state = TokenBucketInstance::from_bytes(wire(0.1, 3)).expect("decodes");
    assert_eq!(state, TokenBucketInstance { tokens: 104857, last_refill: 3 });
}

#[test]
fn token_bucket_instance_is_tagged() {
    let policy = TokenBucket::new(5, UNITS_PER_TOKEN);
    let instance = policy.window_instance(wire(1.5, 8)).expect("decodes");
    assert_eq!(
        instance,
        LimiterInstance::TokenBucketInstance(TokenBucketInstance {
            tokens: 3 * UNITS_PER_TOKEN / 2,
            last_refill: 8
        })
    );
}

#[test]
fn leaky_bucket_denies_when_full_and_admits_after_a_leak() {
    let policy = LeakyBucket::new(5, UNITS_PER_TOKEN);
    let full = LeakyBucketInstance { level: 5 * UNITS_PER_TOKEN, last_leak: 0 };
    let (next, admitted) = policy.decide(full, 0, 1);
    assert!(!admitted);
    assert_eq!(next, full);
    assert_eq!(
        policy.leak(full, 1),
        LeakyBucketInstance { level: 4 * UNITS_PER_TOKEN, last_leak: 1 }
    );
    let (next, admitted) = policy.decide(full, 1, 1);
    assert!(admitted);
    assert_eq!(next, LeakyBucketInstance { level: 5 * UNITS_PER_TOKEN, last_leak: 1 });
}

#[test]
fn leaky_bucket_through_stored_bytes() {
    let policy = LeakyBucket::new(5, UNITS_PER_TOKEN);
    let stored = wire(5.0, 0);
    assert!(matches!(
        policy.is_ratelimited(Some(stored.clone()), 0, 1),
        Err(RateLimiterError::RateExceeded)
    ));
    let bytes = policy.is_ratelimited(Some(stored), 1, 1).expect("one leaked out");
    assert_eq!(bytes, wire(5.0, 1));
}

#[test]
fn leaky_bucket_starts_empty() {
    let policy = LeakyBucket::new(5, UNITS_PER_TOKEN);
    assert_eq!(LeakyBucket::empty(9), LeakyBucketInstance { level: 0, last_leak: 9 });
    let bytes = policy.is_ratelimited(None, 9, 5).expect("room for the whole capacity");
    assert_eq!(bytes, wire(5.0, 9));
    assert!(matches!(policy.is_ratelimited(None, 9, 6), Err(RateLimiterError::RateExceeded)));
}

#[test]
fn leaky_bucket_does_not_drain_below_zero() {
    let policy = LeakyBucket::new(5, UNITS_PER_TOKEN);
    let state = LeakyBucketInstance { level: 2 * UNITS_PER_TOKEN, last_leak: 10 };
    assert_eq!(policy.leak(state, 12), LeakyBucketInstance { level: 0, last_leak: 12 });
    assert_eq!(policy.leak(state, 1000), LeakyBucketInstance { level: 0, last_leak: 1000 });
    assert_eq!(policy.leak(state, u64::MAX), LeakyBucketInstance { level: 0, last_leak: u64::MAX });
    let fast = LeakyBucket::new(5, u64::MAX);
    assert_eq!(
        fast.leak(LeakyBucketInstance { level: u64::MAX, last_leak: 0 }, u64::MAX),
        LeakyBucketInstance { level: 0, last_leak: u64::MAX }
    );
}

#[test]
fn leaky_bucket_keeps_fractions() {
    // Half a unit drains per unit of time.
    let policy = LeakyBucket::new(2, UNITS_PER_TOKEN / 2);
    let full = LeakyBucketInstance { level: 2 * UNITS_PER_TOKEN, last_leak: 0 };
    let (s1, admitted) = policy.decide(full, 1, 1);
    assert!(!admitted);
    assert_eq!(s1, LeakyBucketInstance { level: 3 * UNITS_PER_TOKEN / 2, last_leak: 1 });
    assert_eq!(s1.to_bytes().expect("encodes"), wire(1.5, 1));
    let (s2, admitted) = policy.decide(s1, 2, 1);
    assert!(admitted);
    assert_eq!(s2, LeakyBucketInstance { level: 2 * UNITS_PER_TOKEN, last_leak: 2 });
}

#[test]
fn leaky_bucket_tolerates_a_clock_that_goes_back() {
    let policy = LeakyBucket::new(5, UNITS_PER_TOKEN);
    let state = LeakyBucketInstance { level: 5 * UNITS_PER_TOKEN, last_leak: 100 };
    assert_eq!(
        policy.decide(state, 40, 1),
        (LeakyBucketInstance { level: 5 * UNITS_PER_TOKEN, last_leak: 40 }, false)
    );
}

#[test]
fn leaky_bucket_denies_a_cost_above_the_capacity() {
    let policy = LeakyBucket::new(5, UNITS_PER_TOKEN);
    let empty = LeakyBucket::empty(0);
    assert_eq!(policy.decide(empty, 0, 6), (empty, false));
    assert_eq!(policy.decide(empty, 0, u32::MAX), (empty, false));
    let high = LeakyBucketInstance { level: u64::MAX, last_leak: 0 };
    assert_eq!(policy.decide(high, 0, 1), (high, false));
    assert_eq!(policy.decide(high, 0, 0), (high, false));
}

#[test]
fn leaky_bucket_round_trip() {
    for state in [
        LeakyBucketInstance { level: 0, last_leak: 0 },
        LeakyBucketInstance { level: 1, last_leak: 1 },
        LeakyBucketInstance { level: 5 * UNITS_PER_TOKEN, last_leak: 1_700_000_000 },
        LeakyBucketInstance { level: MAX_UNITS, last_leak: u64::MAX },
    ] {
        let bytes = state.to_bytes().expect("in range");
        assert_eq!(bytes.len(), 16);
        assert_eq!(LeakyBucketInstance::from_bytes(bytes).expect("decodes"), state);
    }
}

#[test]
fn leaky_bucket_layout_is_a_float_and_a_timestamp() {
    let state = LeakyBucketInstance { level: 5 * UNITS_PER_TOKEN, last_leak: 258 };
    let bytes = state.to_bytes().expect("encodes");
    assert_eq!(bytes, bincode::serialize(&(5.0f64, 258u64)).expect("bincode"));
    assert_eq!(bytes, vec![0, 0, 0, 0, 0, 0, 0x14, 0x40, 2, 1, 0, 0, 0, 0, 0, 0]);
}

#[test]
fn leaky_bucket_rejects_what_is_no_level() {
    for level in [f64::NAN, f64::NEG_INFINITY, -2.5, 1e300] {
        let r = LeakyBucketInstance::from_bytes(wire(level, 5));
        assert!(matches!(r, Err(RateLimiterError::MalformedValue(None))));
    }
    let r = LeakyBucketInstance::from_bytes(vec![0u8; 12]);
    assert!(matches!(r, Err(RateLimiterError::MalformedValue(Some(_)))));
    let state = LeakyBucketInstance { level: MAX_UNITS + 1, last_leak: 0 };
    assert!(matches!(state.to_bytes(), Err(RateLimiterError::MalformedValue(None))));
}

#[test]
fn leaky_bucket_instance_is_tagged() {
    let policy = LeakyBucket::new(5, UNITS_PER_TOKEN);
    let instance = policy.window_instance(wire(0.25, 8)).expect("decodes");
    assert_eq!(
        instance,
        LimiterInstance::LeakyBucketInstance(LeakyBucketInstance {
            level: UNITS_PER_TOKEN / 4,
            last_leak: 8
        })
    );
}

#[test]
fn buckets_reject_longer_bytes() {
    let mut bytes = wire(1.0, 5);
    assert!(TokenBucketInstance::from_bytes(bytes.clone()).is_ok());
    assert!(LeakyBucketInstance::from_bytes(bytes.clone()).is_ok());
    bytes.push(0);
    assert!(matches!(
        TokenBucketInstance::from_bytes(bytes.clone()),
        Err(RateLimiterError::MalformedValue(None))
    ));
    assert!(matches!(
        LeakyBucketInstance::from_bytes(bytes.clone()),
        Err(RateLimiterError::MalformedValue(None))
    ));
    let token = TokenBucket::new(5, UNITS_PER_TOKEN);
    assert!(matches!(
        token.is_ratelimited(Some(bytes.clone()), 6, 1),
        Err(RateLimiterError::MalformedValue(None))
    ));
    let leaky = LeakyBucket::new(5, UNITS_PER_TOKEN);
    assert!(matches!(
        leaky.window_instance(bytes),
        Err(RateLimiterError::MalformedValue(None))
    ));
}

#[test]
fn buckets_reject_fixed_window_bytes() {
    let stored = vec![60, 0, 0, 0, 0, 0, 0, 0, 5, 0, 0, 0];
    assert!(matches!(
        TokenBucketInstance::from_bytes(stored.clone()),
        Err(RateLimiterError::MalformedValue(Some(_)))
    ));
    assert!(matches!(
        LeakyBucketInstance::from_bytes(stored),
        Err(RateLimiterError::MalformedValue(Some(_)))
    ));
}
