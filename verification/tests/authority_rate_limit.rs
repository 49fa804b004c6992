use transfer_policy::address::Address;
use transfer_policy::authority_rate_limit::AuthorityRateLimit;
use transfer_policy::error::RateLimitError;
use transfer_policy::limiters::RateLimitExt;

fn address(n: u8) -> Address {
    let mut bytes = [0u8; 32];
    bytes[0] = n;
    bytes[31] = 1;
    Address::new(bytes)
}

#[test]
fn authority_rate_limit_test_rate_limit_basic() {
    let start_time = 1000;
    let mut rate_limit =
        AuthorityRateLimit::new(100, 3600, start_time, Default::default()).unwrap(); // 100 tokens per hour
    let current_time = start_time + 1;

    let authority = address(1);

    // First transfer should work
    assert!(rate_limit.check_and_update(Some(authority), 50, current_time).is_ok());

    // Second transfer that would exceed limit should fail
    assert!(rate_limit.check_and_update(Some(authority), 51, current_time).is_err());

    // Small transfer still within limits should work
    assert!(rate_limit.check_and_update(Some(authority), 40, current_time).is_ok());
}

#[test]
fn authority_rate_limit_test_period_rollover() {
    let start_time = 1000;
    let mut rate_limit =
        AuthorityRateLimit::new(100, 3600, start_time, Default::default()).unwrap();
    let mut current_time = start_time + 1;
    let authority = address(1);

    // Use up the limit
    assert!(rate_limit.check_and_update(Some(authority), 100, current_time).is_ok());

    current_time = current_time + 3600;

    // This should trigger a rollover and reset the limits
    rate_limit.roll_over(current_time);

    // Should be able to transfer again
    assert!(rate_limit.check_and_update(Some(authority), 100, current_time).is_ok());

    current_time = current_time + 9600;

    rate_limit.roll_over(current_time);

    assert_eq!(rate_limit.current_period_start, 11800);
}

#[test]
fn authority_totals_follow_each_transfer() {
    let mut limiter = AuthorityRateLimit::new(100, 3600, 1000, address(9)).unwrap();
    let a = address(1);
    assert_eq!(limiter.check_and_update(Some(a), 50, 1001), Ok(()));
    assert_eq!(limiter.transferred_by(&a), 50);
    assert_eq!(
        limiter.check_and_update(Some(a), 51, 1001),
        Err(RateLimitError::RateLimitExceeded)
    );
    assert_eq!(limiter.transferred_by(&a), 50);
    assert_eq!(limiter.check_and_update(Some(a), 40, 1001), Ok(()));
    assert_eq!(limiter.transferred_by(&a), 90);
    assert_eq!(limiter.entries.len(), 1);
}

#[test]
fn authority_counts_each_authority_apart() {
    let mut limiter = AuthorityRateLimit::new(100, 3600, 1000, address(9)).unwrap();
    let a = address(1);
    let b = address(2);
    assert!(limiter.check_and_update(Some(a), 100, 1001).is_ok());
    assert!(limiter.check_and_update(Some(b), 60, 1002).is_ok());
    assert_eq!(
        limiter.check_and_update(Some(a), 1, 1003),
        Err(RateLimitError::RateLimitExceeded)
    );
    assert_eq!(limiter.transferred_by(&a), 100);
    assert_eq!(limiter.transferred_by(&b), 60);
    assert_eq!(limiter.transferred_by(&address(3)), 0);
    assert_eq!(limiter.entries.len(), 2);
    assert_eq!(limiter.entries[0].authority, a);
    assert_eq!(limiter.entries[1].authority, b);
}

#[test]
fn authority_needs_an_authority() {
    let mut limiter = AuthorityRateLimit::new(100, 3600, 1000, address(9)).unwrap();
    assert_eq!(
        limiter.check_and_update(None, 1, 1001),
        Err(RateLimitError::InvalidCheckAndUpdate)
    );
    // also when the period has ended: nothing moves
    assert_eq!(
        limiter.check_and_update(None, 1, 9000),
        Err(RateLimitError::InvalidCheckAndUpdate)
    );
    assert_eq!(limiter.current_period_start, 1000);
    assert!(limiter.entries.is_empty());
}

#[test]
fn authority_refuses_a_period_without_length() {
    let r = AuthorityRateLimit::new(100, 0, 1000, address(9));
    assert!(matches!(r, Err(RateLimitError::InvalidPeriodConfig)));
}

#[test]
fn authority_refused_transfer_changes_nothing() {
    let mut limiter = AuthorityRateLimit::new(100, 3600, 1000, address(9)).unwrap();
    let a = address(1);
    assert!(limiter.check_and_update(Some(a), 70, 1001).is_ok());
    // the period has ended at 4600, but the transfer is too large even for a new period
    assert_eq!(
        limiter.check_and_update(Some(address(2)), 101, 4600),
        Err(RateLimitError::RateLimitExceeded)
    );
    assert_eq!(limiter.current_period_start, 1000);
    assert_eq!(limiter.transferred_by(&a), 70);
    assert_eq!(limiter.entries.len(), 1);
}

#[test]
fn authority_roll_over_clears_every_entry_once() {
    let mut limiter = AuthorityRateLimit::new(100, 3600, 1000, address(9)).unwrap();
    let a = address(1);
    let b = address(2);
    assert!(limiter.check_and_update(Some(a), 30, 1001).is_ok());
    assert!(limiter.check_and_update(Some(b), 40, 1001).is_ok());
    limiter.roll_over(4599);
    assert_eq!(limiter.current_period_start, 1000);
    assert_eq!(limiter.transferred_by(&a), 30);
    limiter.roll_over(4600);
    assert_eq!(limiter.current_period_start, 4600);
    assert_eq!(limiter.transferred_by(&a), 0);
    assert_eq!(limiter.transferred_by(&b), 0);
    assert_eq!(limiter.entries.len(), 2);
    // a second roll-over at the same time changes nothing
    assert!(limiter.check_and_update(Some(a), 5, 4600).is_ok());
    limiter.roll_over(4600);
    assert_eq!(limiter.current_period_start, 4600);
    assert_eq!(limiter.transferred_by(&a), 5);
    // three periods missed at once
    limiter.roll_over(4600 + 3 * 3600 + 17);
    assert_eq!(limiter.current_period_start, 4600 + 3 * 3600);
    assert_eq!(limiter.transferred_by(&a), 0);
}

#[test]
fn authority_entries_are_made_once() {
    let mut limiter = AuthorityRateLimit::new(100, 3600, 1000, address(9)).unwrap();
    let a = address(1);
    assert!(limiter.limiter_entry(a).is_none());
    assert_eq!(limiter.entry_index(&a), None);
    limiter.init_limiter_entry(a);
    limiter.init_limiter_entry(a);
    assert_eq!(limiter.entries.len(), 1);
    assert_eq!(limiter.entry_index(&a), Some(0));
    match limiter.limiter_entry(a) {
        Some(entry) => {
            assert_eq!(entry.value_transferred, 0);
            entry.value_transferred = 7;
        }
        None => panic!("the entry was made"),
    }
    assert_eq!(limiter.transferred_by(&a), 7);
}

#[test]
fn authority_getters() {
    let limiter = AuthorityRateLimit::new(100, 3600, 1000, address(9)).unwrap();
    assert_eq!(limiter.start_time(), 1000);
    assert_eq!(limiter.end_time(), 4600);
    assert_eq!(limiter.period_duration_seconds(), 3600);
    let late = AuthorityRateLimit::new(100, u64::MAX, 5, address(9)).unwrap();
    assert_eq!(late.end_time(), i64::MAX);
}

#[test]
fn authority_total_is_held_at_the_largest_value() {
    let mut limiter = AuthorityRateLimit::new(u64::MAX, 3600, 1000, address(9)).unwrap();
    let a = address(1);
    assert!(limiter.check_and_update(Some(a), u64::MAX - 1, 1001).is_ok());
    assert!(limiter.check_and_update(Some(a), 5, 1001).is_ok());
    assert_eq!(limiter.transferred_by(&a), u64::MAX);
    let mut tight = AuthorityRateLimit::new(u64::MAX - 1, 3600, 1000, address(9)).unwrap();
    assert!(tight.check_and_update(Some(a), u64::MAX - 1, 1001).is_ok());
    assert_eq!(
        tight.check_and_update(Some(a), 5, 1001),
        Err(RateLimitError::RateLimitExceeded)
    );
    assert_eq!(tight.transferred_by(&a), u64::MAX - 1);
}
