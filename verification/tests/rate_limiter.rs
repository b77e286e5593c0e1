use std::time::{Duration, Instant};
use trc_rtt_proxy::clock::{Interval, Stopwatch};
use trc_rtt_proxy::rate_limiter::RateLimiter;

fn ms(millis: u64) -> Interval {
    Interval::from_millis(millis)
}

fn wait(time: Duration) {
    let start = Instant::now();
    while start.elapsed() < time {}
}

#[test]
fn first_check_reaches_the_limit() {
    let mut limiter = RateLimiter::new(ms(60_000));
    assert!(limiter.check());
    assert!(!limiter.check());
}

#[test]
fn reset_makes_the_limit_count_as_reached() {
    let mut limiter = RateLimiter::new(ms(60_000));
    assert!(limiter.check());
    limiter.reset();
    assert!(limiter.check());
    assert!(!limiter.check());
}

#[test]
fn zero_limit_is_always_reached() {
    let mut limiter = RateLimiter::new(ms(0));
    assert!(limiter.check());
    assert!(limiter.check());
}

#[test]
fn limit_is_reached_again_after_a_while() {
    let mut limiter = RateLimiter::new(ms(5));
    assert!(limiter.check());
    wait(Duration::from_millis(20));
    assert!(limiter.check());
}

#[test]
fn reached_checks_are_a_limit_apart() {
    let mut limiter = RateLimiter::new_at(ms(50), Stopwatch::start(), ms(10));
    assert!(limiter.check_at(ms(10)));
    assert!(!limiter.check_at(ms(11)));
    assert!(!limiter.check_at(ms(59)));
    assert!(limiter.check_at(ms(60)));
    assert!(!limiter.check_at(ms(109)));
    assert!(limiter.check_at(ms(110)));
}

#[test]
fn early_checks_do_not_put_the_limit_off() {
    let mut limiter = RateLimiter::new_at(ms(50), Stopwatch::start(), ms(0));
    assert!(limiter.check_at(ms(0)));
    for now in 1..50 {
        assert!(!limiter.check_at(ms(now)));
    }
    assert!(limiter.check_at(ms(50)));
}

#[test]
fn limit_stays_reached_until_a_check_notices() {
    let mut limiter = RateLimiter::new_at(ms(50), Stopwatch::start(), ms(0));
    assert!(limiter.check_at(ms(0)));
    assert!(limiter.check_at(ms(1000)));
    assert!(!limiter.check_at(ms(1001)));
}

#[test]
fn time_that_runs_backwards_counts_as_none() {
    let mut limiter = RateLimiter::new_at(ms(50), Stopwatch::start(), ms(0));
    assert!(limiter.check_at(ms(100)));
    assert!(!limiter.check_at(ms(20)));
}

#[test]
fn reset_at_goes_by_the_given_reading() {
    let mut limiter = RateLimiter::new_at(ms(50), Stopwatch::start(), ms(0));
    assert!(limiter.check_at(ms(0)));
    limiter.reset_at(ms(10));
    assert!(limiter.check_at(ms(10)));
    assert!(!limiter.check_at(ms(59)));
}

#[test]
fn first_check_after_a_reset_needs_no_wait() {
    let mut limiter = RateLimiter::new_at(ms(50), Stopwatch::start(), ms(0));
    assert!(limiter.check_at(ms(100)));
    // A reading before the latest one counts as that
    limiter.reset_at(ms(20));
    assert!(limiter.check_at(ms(30)));
    assert!(!limiter.check_at(ms(149)));
    assert!(limiter.check_at(ms(150)));
}

#[test]
fn intervals_are_counted_in_nanoseconds() {
    let interval = ms(2_345);
    assert_eq!(interval, Interval { secs: 2, nanos: 345_000_000 });
    assert_eq!(interval.as_nanos(), 2_345_000_000);
    assert_eq!(ms(7).since(&ms(5)), 2_000_000);
    assert_eq!(ms(5).since(&ms(7)), 0);
}

#[test]
fn stopwatch_runs() {
    let watch = Stopwatch::start();
    let copy = watch;
    let first = watch.elapsed();
    wait(Duration::from_millis(10));
    let second = copy.elapsed();
    assert!(second.since(&first) >= 10_000_000);
    assert!(second.nanos < 1_000_000_000);
    assert!(second.secs < 60);
}
