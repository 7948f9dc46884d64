//! Rate limiters. Rates and bursts are in thousandths, times in nanoseconds.

use tc::addr::Ip;
use tc::rate_limit::{IpRateLimiter, RateLimiter};

const MS: u64 = 1_000_000;
const SEC: u64 = 1_000_000_000;

#[test]
fn burst_allows_initial_requests() {
    let mut rl = RateLimiter::new(1_000, 5_000, 0);
    for _ in 0..5 {
        assert!(rl.check(0));
    }
    assert!(!rl.check(0));
}

#[test]
fn zero_burst_blocks_immediately() {
    let mut rl = RateLimiter::new(100_000, 0, 0);
    assert!(!rl.check(0));
}

#[test]
fn refill_restores_tokens() {
    let mut rl = RateLimiter::new(1_000_000, 1_000, 0);
    assert!(rl.check(0));
    assert!(!rl.check(0));
    assert!(rl.check(5 * MS));
}

#[test]
fn ip_limiter_tracks_and_releases() {
    let mut l = IpRateLimiter::new(100_000, 1_000);
    let ip = Ip::V4(0x7F00_0001);
    l.track(ip, 0);
    l.track(ip, 0);
    assert_eq!(l.len(), 1);
    assert!(l.check(ip, 0));
    l.untrack(ip, 0);
    l.untrack(ip, 0);
    assert_eq!(l.sweep_idle(60 * SEC, 1), 0);
    assert_eq!(l.len(), 1);
    assert_eq!(l.sweep_idle(0, 1), 1);
    assert_eq!(l.len(), 0);
}

#[test]
fn ip_limiter_check_unknown_ip_allows() {
    let mut l = IpRateLimiter::new(1_000, 1_000);
    assert!(l.check(Ip::V4(0x0A00_0001), 0));
}

#[test]
fn ip_limiter_enforces_burst_across_connections() {
    let mut l = IpRateLimiter::new(0, 3_000);
    let ip = Ip::V4(0x7F00_0001);
    l.track(ip, 0);
    l.track(ip, 0);
    assert!(l.check(ip, 0));
    assert!(l.check(ip, 0));
    assert!(l.check(ip, 0));
    assert!(!l.check(ip, 0));
}

#[test]
fn tokens_capped_at_max() {
    let mut rl = RateLimiter::new(10_000_000, 3_000, 0);
    for _ in 0..3 {
        assert!(rl.check(10 * MS));
    }
    assert!(!rl.check(10 * MS));
}

#[test]
fn reconnecting_does_not_refill_the_budget() {
    let mut l = IpRateLimiter::new(0, 2_000);
    let ip = Ip::V4(1);
    l.track(ip, 0);
    assert!(l.check(ip, 0));
    assert!(l.check(ip, 0));
    l.untrack(ip, 0);
    l.track(ip, SEC);
    assert!(!l.check(ip, SEC));
    assert_eq!(l.sweep_idle(0, 2 * SEC), 0);
}

#[test]
fn a_slow_rate_refills_exactly() {
    let mut rl = RateLimiter::new(100, 1_000, 0);
    assert!(rl.check(0));
    assert!(!rl.check(10 * SEC - 1));
    assert!(rl.check(10 * SEC));
}
