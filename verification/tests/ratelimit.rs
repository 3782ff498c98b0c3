use defay_client::clock::nanos;
use defay_client::ratelimit::TokenBucket;
use std::time::Duration;

const SEC: u128 = 1_000_000_000;

fn drained(burst: u32, window: Duration) -> TokenBucket {
    let mut bucket = TokenBucket::new(burst, window);
    for _ in 0..burst {
        assert!(bucket.take_at(0));
    }
    assert_eq!(bucket.available_at(0), 0);
    bucket
}

#[test]
fn eight_takes_succeed_and_the_ninth_fails() {
    let mut bucket = TokenBucket::new(8, Duration::from_secs(30));
    for i in 0..8 {
        assert!(bucket.try_take(), "take {}", i + 1);
    }
    assert!(!bucket.try_take());
    assert_eq!(bucket.available(), 0);
    let wait = bucket.seconds_to_next();
    assert!(wait > 0);
    assert!(wait <= 30);
}

#[test]
fn a_new_bucket_is_full() {
    assert_eq!(TokenBucket::new(8, Duration::from_secs(30)).available(), 8);
    assert_eq!(TokenBucket::new(0, Duration::from_secs(30)).available(), 0);
    assert_eq!(TokenBucket::new(u32::MAX, Duration::from_secs(1)).available(), u32::MAX);
}

#[test]
fn takes_count_down_within_the_window() {
    let mut bucket = TokenBucket::new(3, Duration::from_secs(30));
    assert!(bucket.take_at(0));
    assert_eq!(bucket.available_at(0), 2);
    assert!(bucket.take_at(10 * SEC));
    assert_eq!(bucket.available_at(10 * SEC), 1);
    assert!(bucket.take_at(30 * SEC - 1));
    assert_eq!(bucket.available_at(30 * SEC - 1), 0);
    assert!(!bucket.take_at(30 * SEC - 1));
    assert_eq!(bucket.available_at(30 * SEC - 1), 0);
}

#[test]
fn wait_is_the_whole_seconds_left_of_the_window() {
    let bucket = drained(8, Duration::from_secs(30));
    assert_eq!(bucket.wait_at(0), 30);
    assert_eq!(bucket.wait_at(1), 29);
    assert_eq!(bucket.wait_at(SEC), 29);
    assert_eq!(bucket.wait_at(SEC + SEC / 2), 28);
    assert_eq!(bucket.wait_at(29 * SEC), 1);
    assert_eq!(bucket.wait_at(29 * SEC + 1), 0);
    assert_eq!(bucket.wait_at(30 * SEC - 1), 0);
    assert_eq!(bucket.wait_at(30 * SEC), 0);
    assert_eq!(bucket.wait_at(45 * SEC), 0);
}

#[test]
fn wait_is_nothing_while_tokens_are_there() {
    let mut bucket = TokenBucket::new(2, Duration::from_secs(30));
    assert_eq!(bucket.wait_at(0), 0);
    assert!(bucket.take_at(0));
    assert_eq!(bucket.wait_at(5 * SEC), 0);
    assert!(bucket.take_at(5 * SEC));
    assert_eq!(bucket.wait_at(5 * SEC), 25);
}

#[test]
fn a_full_window_brings_back_exactly_the_capacity() {
    let mut bucket = drained(8, Duration::from_secs(30));
    bucket.refill_at(30 * SEC);
    assert_eq!(bucket.available_at(30 * SEC), 8);
    bucket.refill_at(300 * SEC);
    assert_eq!(bucket.available_at(300 * SEC), 8);
}

#[test]
fn the_count_is_refilled_on_reading() {
    let bucket = drained(8, Duration::from_secs(30));
    assert_eq!(bucket.available_at(0), 0);
    assert_eq!(bucket.available_at(30 * SEC - 1), 0);
    assert_eq!(bucket.available_at(30 * SEC), 8);
    assert_eq!(bucket.available_at(45 * SEC), 8);
    assert_eq!(bucket.available_at(300 * SEC), 8);
    assert_eq!(bucket.available_at(u128::MAX), 8);
}

#[test]
fn reading_the_count_stores_nothing() {
    let mut bucket = drained(8, Duration::from_secs(30));
    assert_eq!(bucket.available_at(31 * SEC), 8);
    assert_eq!(bucket.available_at(0), 0);
    assert_eq!(bucket.wait_at(0), 30);
    assert!(!bucket.take_at(29 * SEC));
    assert!(bucket.take_at(31 * SEC));
    assert_eq!(bucket.available_at(31 * SEC), 7);
}

#[test]
fn the_count_by_the_clock_after_a_window() {
    let mut bucket = TokenBucket::new(3, Duration::from_millis(20));
    for _ in 0..3 {
        assert!(bucket.try_take());
    }
    let start = std::time::Instant::now();
    while start.elapsed() < Duration::from_millis(60) {
        std::hint::spin_loop();
    }
    assert_eq!(bucket.available(), 3);
    assert_eq!(bucket.seconds_to_next(), 0);
    assert!(bucket.try_take());
    assert_eq!(bucket.available(), 2);
}

#[test]
fn refill_is_capped_after_many_windows() {
    let mut bucket = TokenBucket::new(8, Duration::from_secs(30));
    for _ in 0..5 {
        assert!(bucket.take_at(0));
    }
    assert_eq!(bucket.available_at(0), 3);
    assert_eq!(bucket.available_at(30 * SEC), 8);
    bucket.refill_at(10 * 30 * SEC + 7);
    assert_eq!(bucket.available_at(10 * 30 * SEC + 7), 8);
    bucket.refill_at(u128::MAX);
    assert_eq!(bucket.available_at(u128::MAX), 8);
}

#[test]
fn last_refill_moves_by_whole_windows() {
    let mut bucket = drained(2, Duration::from_secs(30));
    assert!(bucket.take_at(70 * SEC));
    assert!(bucket.take_at(70 * SEC));
    assert!(!bucket.take_at(89 * SEC));
    assert_eq!(bucket.wait_at(70 * SEC), 20);
    assert_eq!(bucket.wait_at(89 * SEC), 1);
    assert!(bucket.take_at(90 * SEC));
    assert_eq!(bucket.available_at(90 * SEC), 1);
    assert_eq!(bucket.available_at(120 * SEC - 1), 1);
    assert_eq!(bucket.available_at(120 * SEC), 2);
}

#[test]
fn time_before_the_last_refill_counts_as_none() {
    let mut bucket = drained(1, Duration::from_secs(30));
    assert!(bucket.take_at(60 * SEC));
    assert!(!bucket.take_at(10 * SEC));
    assert_eq!(bucket.wait_at(10 * SEC), 30);
    assert_eq!(bucket.wait_at(60 * SEC), 30);
}

#[test]
fn windows_with_a_fraction_of_a_second() {
    let mut bucket = drained(1, Duration::from_millis(1500));
    assert_eq!(bucket.wait_at(0), 1);
    assert_eq!(bucket.wait_at(500_000_000), 1);
    assert_eq!(bucket.wait_at(500_000_001), 0);
    assert!(!bucket.take_at(1_499_999_999));
    assert!(bucket.take_at(1_500_000_000));
}

#[test]
fn a_window_of_no_length_is_over_at_once() {
    let mut bucket = TokenBucket::new(2, Duration::from_secs(0));
    assert!(bucket.take_at(0));
    assert!(bucket.take_at(0));
    assert!(!bucket.take_at(0));
    assert_eq!(bucket.wait_at(0), 0);
    assert!(bucket.take_at(1));
    assert_eq!(bucket.available_at(0), 1);
    assert_eq!(bucket.available_at(1), 2);
}

#[test]
fn an_empty_bucket_never_gives() {
    let mut bucket = TokenBucket::new(0, Duration::from_secs(1));
    assert!(!bucket.take_at(0));
    assert!(!bucket.take_at(100 * SEC));
    assert!(!bucket.try_take());
    assert_eq!(bucket.available(), 0);
}

#[test]
fn the_longest_window_has_the_longest_wait() {
    let bucket = drained(1, Duration::MAX);
    assert_eq!(bucket.wait_at(0), u64::MAX);
    assert_eq!(bucket.wait_at(999_999_999), u64::MAX);
    assert_eq!(bucket.wait_at(1_000_000_000), u64::MAX - 1);
}

#[test]
fn spans_are_counted_in_nanoseconds() {
    assert_eq!(nanos(&Duration::from_secs(30)), 30 * SEC);
    assert_eq!(nanos(&Duration::from_millis(1500)), 1_500_000_000);
    assert_eq!(nanos(&Duration::new(2, 7)), 2 * SEC + 7);
    assert_eq!(nanos(&Duration::ZERO), 0);
    assert_eq!(nanos(&Duration::MAX), u64::MAX as u128 * SEC + 999_999_999);
}
