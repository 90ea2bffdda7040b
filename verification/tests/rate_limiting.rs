use butterfly_core::rate_limit::rate_limit_basic;
use butterfly_core::rate_limit::RateLimiter;
use butterfly_core::rate_limit::DAY_RATE_LIMIT;
use butterfly_core::rate_limit::HOUR_RATE_LIMIT;
use butterfly_core::rate_limit::MINUTE_RATE_LIMIT;

const ADDR_A: u128 = 0x0a00_0001;
const ADDR_B: u128 = 0x0a00_0002;

#[test]
fn sixth_request_in_a_second_is_rejected() {
    // minute limit five: six requests within one second from one address,
    // and the sixth is turned away
    let mut limiter = RateLimiter::new();
    for i in 0..5 {
        assert!(limiter.check_limit(ADDR_A, i, 5, 100, 1000), "request {} should pass", i);
    }
    assert!(!limiter.check_limit(ADDR_A, 1, 5, 100, 1000));
}

#[test]
fn windows_of_addresses_are_independent() {
    let mut limiter = RateLimiter::new();
    for i in 0..5 {
        assert!(limiter.check_limit(ADDR_A, i, 5, 100, 1000));
    }
    // the first address is now throttled
    assert!(!limiter.check_limit(ADDR_A, 1, 5, 100, 1000));
    // simultaneous requests from another address see their own, empty
    // window and pass untouched by the first address's history
    for i in 0..5 {
        assert!(limiter.check_limit(ADDR_B, i, 5, 100, 1000), "request {} from B should pass", i);
    }
    // each window fills on its own schedule: the other address's sixth
    // request within the minute hits its own limit too
    assert!(!limiter.check_limit(ADDR_B, 1, 5, 100, 1000));
}

#[test]
fn minute_old_requests_count_toward_hour_and_day() {
    // one request, then a second one 90 seconds later: the old entry has
    // aged into the hour bucket
    let mut limiter = RateLimiter::new();
    assert!(limiter.check_limit(ADDR_A, 0, 1, 2, 10));
    // minute count is 1 (only the new request): within its limit;
    // hour count is 2 (old entry counts cumulatively): within its limit
    assert!(limiter.check_limit(ADDR_A, 90, 1, 2, 10));
    // with hour limit 1 the aged entry tips the cumulative hour count over
    let mut strict = RateLimiter::new();
    assert!(strict.check_limit(ADDR_B, 0, 1, 1, 10));
    assert!(!strict.check_limit(ADDR_B, 90, 1, 1, 10));
}

#[test]
fn day_old_requests_are_evicted() {
    let mut limiter = RateLimiter::new();
    // fill up to the limit at time zero
    assert!(limiter.check_limit(ADDR_A, 0, 1, 1, 1));
    assert!(!limiter.check_limit(ADDR_A, 1, 1, 1, 1));
    // a full day later both old instants are evicted and one request
    // passes again
    assert!(limiter.check_limit(ADDR_A, 86_401, 1, 1, 1));
}

#[test]
fn hour_old_requests_leave_the_hour_window() {
    let mut limiter = RateLimiter::new();
    assert!(limiter.check_limit(ADDR_A, 0, 1, 1, 10));
    // one hour later the old instant is in the day bucket only: the hour
    // count holds just the new request
    assert!(limiter.check_limit(ADDR_A, 3_600, 1, 1, 10));
    // but a day limit of one now rejects, since both instants are within a day
    let mut strict = RateLimiter::new();
    assert!(strict.check_limit(ADDR_B, 0, 1, 1, 1));
    assert!(!strict.check_limit(ADDR_B, 3_600, 1, 1, 1));
}

#[test]
fn basic_limits_are_proportional() {
    assert_eq!(MINUTE_RATE_LIMIT, 120);
    assert_eq!(HOUR_RATE_LIMIT, 30 * MINUTE_RATE_LIMIT);
    assert_eq!(DAY_RATE_LIMIT, 12 * HOUR_RATE_LIMIT);
    let mut limiter = RateLimiter::new();
    // the default middleware limits admit a first request
    assert!(rate_limit_basic(&mut limiter, ADDR_A, 0));
    // and reject the 121st within one minute
    for i in 1..120 {
        assert!(rate_limit_basic(&mut limiter, ADDR_A, i % 50));
    }
    assert!(!rate_limit_basic(&mut limiter, ADDR_A, 10));
}
