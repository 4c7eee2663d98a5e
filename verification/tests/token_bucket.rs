use agentgate::token_bucket::TokenBucket;

#[test]
fn exhausts_then_throttles() {
    let mut b = TokenBucket::new(2);
    assert!(b.try_consume());
    assert!(b.try_consume());
    assert!(!b.try_consume());
}

#[test]
fn retry_after_is_positive_when_empty() {
    let mut b = TokenBucket::new(60);
    for _ in 0..60 {
        b.try_consume();
    }
    assert!(!b.try_consume());
    assert!(b.retry_after_secs() >= 1);
}

#[test]
fn full_bucket_needs_no_wait() {
    let b = TokenBucket::new(5);
    assert_eq!(b.retry_after_secs(), 0);
}

#[test]
fn burst_without_waiting_allows_exactly_capacity() {
    let mut b = TokenBucket::new(3);
    let allowed = (0..10).filter(|_| b.try_consume_after(0)).count();
    assert_eq!(allowed, 3);
}

#[test]
fn refill_after_one_second() {
    // 60 per minute: one token per second.
    let mut b = TokenBucket::new(60);
    for _ in 0..60 {
        assert!(b.try_consume_after(0));
    }
    assert!(!b.try_consume_after(0));
    assert_eq!(b.retry_after_secs(), 1);
    // Half a second is not enough.
    assert!(!b.try_consume_after(500_000_000));
    // Another half second completes the token.
    assert!(b.try_consume_after(500_000_000));
    assert!(!b.try_consume_after(0));
}

#[test]
fn retry_after_rounds_up() {
    // 2 per minute: one token every 30 seconds.
    let mut b = TokenBucket::new(2);
    assert!(b.try_consume_after(0));
    assert!(b.try_consume_after(0));
    assert_eq!(b.retry_after_secs(), 30);
    // 10.5 seconds later, 19.5 remain: rounded up to 20.
    assert!(!b.try_consume_after(10_500_000_000));
    assert_eq!(b.retry_after_secs(), 20);
    // Waiting the advised time is enough.
    assert!(b.try_consume_after(20_000_000_000));
}

#[test]
fn refill_is_capped_at_capacity() {
    let mut b = TokenBucket::new(2);
    // An hour of waiting still leaves only two tokens.
    assert!(b.try_consume_after(3_600_000_000_000));
    assert!(b.try_consume_after(0));
    assert!(!b.try_consume_after(0));
}

#[test]
fn zero_rate_never_allows() {
    let mut b = TokenBucket::new(0);
    assert!(!b.try_consume());
    assert!(!b.try_consume_after(u128::MAX));
    assert_eq!(b.retry_after_secs(), u64::MAX);
}

#[test]
fn huge_elapsed_does_not_overflow() {
    let mut b = TokenBucket::new(u64::MAX);
    assert!(b.try_consume_after(u128::MAX));
    assert_eq!(b.retry_after_secs(), 0);
}

#[test]
fn rate_over_time_is_bounded() {
    // 6 a minute: a burst of 6, then one every 10 seconds.
    let mut b = TokenBucket::new(6);
    let mut allowed = 0;
    // 60 calls, one every second: 60 seconds in all.
    for _ in 0..60 {
        if b.try_consume_after(1_000_000_000) {
            allowed += 1;
        }
    }
    // At most 6 + 6 * 60 / 60 = 12; the first second refills a bucket that is
    // already full, so 11 are allowed.
    assert!(allowed <= 12);
    assert_eq!(allowed, 11);
}
