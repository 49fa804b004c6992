use transfer_policy::address::Address;
use transfer_policy::limiters::RateLimitExt;
use transfer_policy::mint_rate_limit::MintRateLimit;

#[test]
fn mint_rate_limit_test_rate_limit_basic() {
    let start_time = 1000;
    let mut rate_limit = MintRateLimit {
        period_duration: 0,
        period_limit: 0,
        current_period_start: 0,
        mint: Default::default(),
        value_transferred: 0,
    };
    rate_limit.initialize(100, 3600, start_time, Default::default()).unwrap(); // 100 tokens per hour
    let current_time = start_time + 1;

    let _authority = Address::new([7u8; 32]);

    // First transfer should work
    assert!(rate_limit.check_and_update(None, 50, current_time).is_ok());

    // Second transfer that would exceed limit should fail
    assert!(rate_limit.check_and_update(None, 51, current_time).is_err());

    // Small transfer still within limits should work
    assert!(rate_limit.check_and_update(None, 40, current_time).is_ok());
}

#[test]
fn mint_rate_limit_test_period_rollover() {
    let start_time = 1000;
    let mut rate_limit = MintRateLimit {
        period_duration: 0,
        period_limit: 0,
        current_period_start: 0,
        mint: Default::default(),
        value_transferred: 0,
    };
    rate_limit.initialize(100, 3600, start_time, Default::default()).unwrap(); // 100 tokens per hour
    let mut current_time = start_time + 1;

    // Use up the limit
    assert!(rate_limit.check_and_update(None, 100, current_time).is_ok());

    current_time = current_time + 3600;

    // This should trigger a rollover and reset the limits
    rate_limit.roll_over(current_time);

    // Should be able to transfer again
    assert!(rate_limit.check_and_update(None, 100, current_time).is_ok());

    current_time = current_time + 9600;

    rate_limit.roll_over(current_time);

    assert_eq!(rate_limit.current_period_start, 11800);
}

#[test]
fn mint_totals_follow_each_transfer() {
    let mut limiter = MintRateLimit::new(100, 3600, 1000, Address::new([3u8; 32])).unwrap();
    assert_eq!(limiter.check_and_update(None, 50, 1001), Ok(()));
    assert_eq!(limiter.value_transferred, 50);
    assert_eq!(
        limiter.check_and_update(None, 51, 1001),
        Err(transfer_policy::error::RateLimitError::RateLimitExceeded)
    );
    assert_eq!(limiter.value_transferred, 50);
    assert_eq!(limiter.check_and_update(None, 40, 1001), Ok(()));
    assert_eq!(limiter.value_transferred, 90);
    // the authority makes no difference
    assert_eq!(limiter.check_and_update(Some(Address::new([1u8; 32])), 10, 1001), Ok(()));
    assert_eq!(limiter.value_transferred, 100);
}

#[test]
fn mint_roll_over_moves_by_whole_periods() {
    let mut limiter = MintRateLimit::new(100, 3600, 1000, Address::new([3u8; 32])).unwrap();
    assert!(limiter.check_and_update(None, 60, 1001).is_ok());
    limiter.roll_over(4599);
    assert_eq!(limiter.current_period_start, 1000);
    assert_eq!(limiter.value_transferred, 60);
    limiter.roll_over(4600);
    assert_eq!(limiter.current_period_start, 4600);
    assert_eq!(limiter.value_transferred, 0);
    limiter.roll_over(14200);
    assert_eq!(limiter.current_period_start, 11800);
    assert_eq!(limiter.value_transferred, 0);
}

#[test]
fn mint_roll_over_twice_is_roll_over_once() {
    let mut limiter = MintRateLimit::new(100, 3600, 1000, Address::new([3u8; 32])).unwrap();
    assert!(limiter.check_and_update(None, 60, 1001).is_ok());
    limiter.roll_over(20000);
    let once = limiter;
    limiter.roll_over(20000);
    assert_eq!(limiter.current_period_start, once.current_period_start);
    assert_eq!(limiter.value_transferred, once.value_transferred);
    assert_eq!(limiter.current_period_start, 1000 + 5 * 3600);
}

#[test]
fn mint_clock_before_the_period_changes_nothing() {
    let mut limiter = MintRateLimit::new(100, 3600, 1000, Address::new([3u8; 32])).unwrap();
    assert!(limiter.check_and_update(None, 60, 10).is_ok());
    assert_eq!(limiter.current_period_start, 1000);
    assert_eq!(limiter.value_transferred, 60);
}

#[test]
fn mint_roll_over_at_the_ends_of_time() {
    let mut limiter = MintRateLimit::new(100, 10, i64::MIN, Address::new([3u8; 32])).unwrap();
    limiter.roll_over(i64::MAX);
    // 2^64 - 1 seconds lie between the two; the last boundary is 5 before the clock
    assert_eq!(limiter.current_period_start, i64::MAX - 5);
    let mut wide = MintRateLimit::new(100, u64::MAX, i64::MIN, Address::new([3u8; 32])).unwrap();
    assert!(wide.check_and_update(None, 1, i64::MAX - 1).is_ok());
    assert_eq!(wide.current_period_start, i64::MIN);
    wide.roll_over(i64::MAX);
    assert_eq!(wide.current_period_start, i64::MAX);
    assert_eq!(wide.value_transferred, 0);
}

#[test]
fn mint_refused_transfer_changes_nothing() {
    let mut limiter = MintRateLimit::new(100, 3600, 1000, Address::new([3u8; 32])).unwrap();
    assert!(limiter.check_and_update(None, 60, 1001).is_ok());
    assert!(limiter.check_and_update(None, 101, 4600).is_err());
    assert_eq!(limiter.current_period_start, 1000);
    assert_eq!(limiter.value_transferred, 60);
    // a transfer that fits the new period rolls over and is counted
    assert!(limiter.check_and_update(None, 100, 4600).is_ok());
    assert_eq!(limiter.current_period_start, 4600);
    assert_eq!(limiter.value_transferred, 100);
}

#[test]
fn mint_total_is_held_at_the_largest_value() {
    let mut limiter = MintRateLimit::new(u64::MAX, 3600, 1000, Address::new([3u8; 32])).unwrap();
    assert!(limiter.check_and_update(None, u64::MAX - 1, 1001).is_ok());
    assert!(limiter.check_and_update(None, 5, 1001).is_ok());
    assert_eq!(limiter.value_transferred, u64::MAX);
    let mut tight =
        MintRateLimit::new(u64::MAX - 1, 3600, 1000, Address::new([3u8; 32])).unwrap();
    assert!(tight.check_and_update(None, u64::MAX - 1, 1001).is_ok());
    assert!(tight.check_and_update(None, 5, 1001).is_err());
    assert_eq!(tight.value_transferred, u64::MAX - 1);
}

#[test]
fn mint_refuses_a_period_without_length() {
    let mut limiter = MintRateLimit::new(100, 3600, 1000, Address::new([3u8; 32])).unwrap();
    assert!(matches!(
        MintRateLimit::new(1, 0, 0, Address::default()),
        Err(transfer_policy::error::RateLimitError::InvalidPeriodConfig)
    ));
    assert_eq!(
        limiter.initialize(5, 0, 7, Address::default()),
        Err(transfer_policy::error::RateLimitError::InvalidPeriodConfig)
    );
    assert_eq!(limiter.period_limit, 100);
    assert_eq!(limiter.current_period_start, 1000);
}

#[test]
fn mint_getters() {
    let limiter = MintRateLimit::new(100, 3600, 1000, Address::new([3u8; 32])).unwrap();
    assert_eq!(limiter.start_time(), 1000);
    assert_eq!(limiter.end_time(), 4600);
    assert_eq!(limiter.period_duration_seconds(), 3600);
    assert_eq!(MintRateLimit::space(), 72);
    let late = MintRateLimit::new(100, 3600, i64::MAX - 10, Address::default()).unwrap();
    assert_eq!(late.end_time(), i64::MAX);
}
