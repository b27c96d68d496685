//! The token bucket, driven by a simulated clock.

use filecopier::bandwidth::{ConsumeStep, Throttle, MAX_WAIT_MILLIS};

/// Consumes `bytes` and returns how many milliseconds that took. Each step
/// earns what the time since the last one is worth.
fn consume(throttle: &mut Throttle, bytes: u64) -> u64 {
    let mut consumption = match throttle.consume(bytes) {
        Some(consumption) => consumption,
        None => return 0,
    };
    let mut elapsed: u64 = 0;
    let mut earned: u64 = 0;
    loop {
        match throttle.consume_chunk(&mut consumption, earned) {
            ConsumeStep::Finished => return elapsed,
            ConsumeStep::Continue => earned = 0,
            ConsumeStep::Wait { needed, per_second } => {
                let wait = (needed * 1000).div_ceil(per_second).min(MAX_WAIT_MILLIS);
                elapsed += wait;
                earned = wait * per_second / 1000;
            }
        }
    }
}

#[test]
fn test_unlimited_throttle() {
    let mut throttle = Throttle::unlimited();
    assert!(!throttle.is_limited());
    assert!(throttle.consume(1_000_000_000).is_none());
    let elapsed = consume(&mut throttle, 1_000_000_000);
    assert!(elapsed < 10, "Unlimited throttle should not delay");
    assert!(throttle.try_consume(1_000_000_000, 0));
}

#[test]
fn test_try_consume_success() {
    let mut throttle = Throttle::new(1000, 1000);
    assert!(throttle.try_consume(500, 0));
    assert!(throttle.try_consume(500, 0));
    assert!(!throttle.try_consume(1, 0));
}

#[test]
fn test_try_consume_failure_and_refill() {
    let mut throttle = Throttle::new(1000, 100);
    assert!(throttle.try_consume(100, 0));
    assert!(!throttle.try_consume(1, 0));
    // 110 ms at 1000 bytes per second.
    assert!(throttle.try_consume(50, 110));
    // 60 are left.
    assert!(!throttle.try_consume(61, 0));
    assert!(throttle.try_consume(60, 0));
}

#[test]
fn test_consume_blocks() {
    let mut throttle = Throttle::new(1000, 0);
    let elapsed = consume(&mut throttle, 500);
    assert!(elapsed >= 400, "Expected ~500ms delay, got {elapsed:?}");
    assert!(elapsed < 700, "Delay too long: {elapsed:?}");
}

#[test]
fn test_dynamic_limit_change() {
    let mut throttle = Throttle::new(1000, 1000);
    assert_eq!(consume(&mut throttle, 1000), 0);
    throttle.set_limit(2000);
    assert_eq!(throttle.get_limit(), 2000);
    // 100 ms at 2000 bytes per second.
    assert!(throttle.try_consume(150, 200));
}

#[test]
fn test_large_consumption() {
    let mut throttle = Throttle::new(1000, 0);
    let elapsed = consume(&mut throttle, 3000);
    assert!(elapsed / 1000 >= 2, "Expected ~3s delay, got {elapsed:?}");
    assert!(elapsed / 1000 < 5, "Delay too long: {elapsed:?}");
}

#[test]
fn the_bucket_holds_a_second_and_the_burst() {
    let mut throttle = Throttle::new(1000, 100);
    assert!(!throttle.try_consume(1101, 1_000_000));
    assert!(throttle.try_consume(1100, 0));
    assert!(!throttle.try_consume(1, 0));
}

#[test]
fn no_more_passes_than_was_held_and_earned() {
    let mut throttle = Throttle::new(700, 90);
    let mut passed = 0u64;
    let mut earned = 90u64;
    for i in 0..500u64 {
        let gain = i % 13;
        earned += gain;
        if throttle.try_consume(i % 29, gain) {
            passed += i % 29;
        }
        assert!(passed <= earned);
    }
}

#[test]
fn chunks_add_up() {
    let mut throttle = Throttle::new(10, 0);
    let mut consumption = throttle.consume(25).unwrap();
    assert_eq!(
        throttle.consume_chunk(&mut consumption, 4),
        ConsumeStep::Wait { needed: 6, per_second: 10 }
    );
    assert_eq!(throttle.consume_chunk(&mut consumption, 6), ConsumeStep::Continue);
    assert_eq!(throttle.consume_chunk(&mut consumption, 10), ConsumeStep::Continue);
    assert_eq!(throttle.consume_chunk(&mut consumption, 5), ConsumeStep::Finished);
}

#[test]
fn nothing_is_consumed_at_once() {
    let mut throttle = Throttle::new(10, 0);
    let mut consumption = throttle.consume(0).unwrap();
    assert_eq!(throttle.consume_chunk(&mut consumption, 0), ConsumeStep::Finished);
}

#[test]
fn the_burst_is_granted_to_the_byte() {
    let mut throttle = Throttle::new(1000, 1000);
    assert!(throttle.try_consume(500, 0));
    assert!(!throttle.try_consume(501, 0));
    assert!(throttle.try_consume(500, 0));
    assert!(!throttle.try_consume(1, 0));
    let mut wide = Throttle::new(u64::MAX, 5);
    assert!(wide.try_consume(5, 0));
    assert!(!wide.try_consume(1, 0));
}

#[test]
fn nothing_can_be_waited_for_without_a_limit() {
    let mut throttle = Throttle::new(10, 7);
    let mut consumption = throttle.consume(12).unwrap();
    throttle.set_limit(0);
    assert!(!throttle.can_go_on(&consumption));
    throttle.set_limit(10);
    assert!(throttle.can_go_on(&consumption));
    assert_eq!(throttle.consume_chunk(&mut consumption, 5), ConsumeStep::Continue);
    throttle.set_limit(0);
    assert!(throttle.can_go_on(&consumption));
    assert_eq!(throttle.consume_chunk(&mut consumption, 0), ConsumeStep::Finished);
}

#[test]
fn tokens_stay_within_64_bits() {
    assert!(Throttle::new(1000, 100).can_take_in(u64::MAX - 100));
    assert!(!Throttle::new(1000, 100).can_take_in(u64::MAX));
    assert!(!Throttle::new(u64::MAX, 1).can_take_in(1));
    assert!(Throttle::new(u64::MAX, 1).can_take_in(0));
    assert!(Throttle::unlimited().can_take_in(u64::MAX));
}
