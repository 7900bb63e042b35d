use tokio_rate_limit::algorithm::internal::{
    http_seconds_ceil, mix_seed, nanos_for_tokens, refill_tokens, saturating_mul, time_until_full,
    token_decision, wait_for_tokens, whole_seconds, xorshift, zero_cost_decision, SCALE,
};

#[test]
fn http_seconds_round_up() {
    assert_eq!(http_seconds_ceil(0), 0);
    assert_eq!(http_seconds_ceil(1), 1);
    assert_eq!(http_seconds_ceil(999_999_999), 1);
    assert_eq!(http_seconds_ceil(1_000_000_000), 1);
    assert_eq!(http_seconds_ceil(1_000_000_001), 2);
    assert_eq!(http_seconds_ceil(u128::MAX), u64::MAX);
}

#[test]
fn whole_seconds_round_down() {
    assert_eq!(whole_seconds(0), 0);
    assert_eq!(whole_seconds(1_999_999_999), 1);
    assert_eq!(whole_seconds(60_000_000_000), 60);
    assert_eq!(whole_seconds(u128::MAX), u64::MAX);
}

#[test]
fn waits_are_fractional_with_a_millisecond_floor() {
    assert_eq!(wait_for_tokens(1, 10), 100_000_000);
    assert_eq!(wait_for_tokens(3, 2), 1_500_000_000);
    assert_eq!(wait_for_tokens(1, 10_000_000), 1_000_000);
    assert_eq!(wait_for_tokens(0, 5), 1_000_000);
    assert_eq!(wait_for_tokens(5, 0), 1_000_000_000);
    assert_eq!(time_until_full(0, 5), Some(0));
    assert_eq!(time_until_full(5, 0), None);
    assert_eq!(time_until_full(1, 4), Some(250_000_000));
}

#[test]
fn refill_and_claim() {
    // 100ms at 10 tokens/sec (scaled by 1000): 1000 scaled tokens.
    assert_eq!(refill_tokens(100_000_000, 10 * SCALE), 1_000);
    assert_eq!(refill_tokens(0, 10 * SCALE), 0);
    assert_eq!(refill_tokens(100, 0), 0);
    assert_eq!(refill_tokens(u64::MAX, u64::MAX), u64::MAX);
    assert_eq!(nanos_for_tokens(1_000, 10 * SCALE), 100_000_000);
    assert_eq!(nanos_for_tokens(0, 10 * SCALE), 0);
    // 3 scaled tokens at 7000 per second take 428571.43ns: the claim rounds up.
    assert_eq!(nanos_for_tokens(3, 7 * SCALE), 428_572);
    // At 1.5e9 scaled tokens per second, one scaled token is paid by 1ns.
    assert_eq!(refill_tokens(1, 1_500_000_000), 1);
    assert_eq!(nanos_for_tokens(1, 1_500_000_000), 1);
    assert_eq!(saturating_mul(u64::MAX, 2), u64::MAX);
    assert_eq!(saturating_mul(6, 7), 42);
}

#[test]
fn decisions() {
    let d = token_decision(false, 1, 10, 4, 3);
    assert!(!d.permitted);
    assert_eq!(d.retry_after, Some(500_000_000));
    assert_eq!(d.remaining, Some(1));
    assert_eq!(d.limit, 10);
    assert_eq!(d.reset, Some(2_250_000_000));
    let z = zero_cost_decision(7);
    assert!(!z.permitted);
    assert_eq!(z.limit, 7);
    assert_eq!(z.remaining, None);
    assert_eq!(z.retry_after, None);
    assert_eq!(z.reset, None);
}

#[test]
fn generators() {
    assert_eq!(xorshift(0), xorshift(1));
    assert_ne!(xorshift(1), 1);
    assert_ne!(xorshift(12345), 0);
    assert_ne!(mix_seed(1), mix_seed(2));
    assert_eq!(mix_seed(0), mix_seed(0));
}
