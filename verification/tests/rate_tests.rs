use balancebeam::rate::{RateLimiter, WINDOW_SECS};

fn ip(s: &str) -> String {
    s.to_string()
}

#[test]
fn window_is_sixty_seconds() {
    assert_eq!(WINDOW_SECS, 60);
}

#[test]
fn new_limiter_knows_no_client() {
    let limiter = RateLimiter::new(5);
    assert_eq!(limiter.threshold(), 5);
    assert!(limiter.is_enabled());
    assert_eq!(limiter.count(&ip("1.2.3.4")), None);
}

#[test]
fn threshold_zero_disables_limiting() {
    let limiter = RateLimiter::new(0);
    assert_eq!(limiter.threshold(), 0);
    assert!(!limiter.is_enabled());
}

#[test]
fn register_starts_a_new_client_at_zero() {
    let mut limiter = RateLimiter::new(3);
    limiter.register(&ip("1.2.3.4"));
    assert_eq!(limiter.count(&ip("1.2.3.4")), Some(0));
    assert_eq!(limiter.count(&ip("1.2.3.5")), None);
}

#[test]
fn register_keeps_the_count_of_a_known_client() {
    let mut limiter = RateLimiter::new(3);
    assert!(limiter.update_rate_and_check(&ip("1.2.3.4")));
    assert!(limiter.update_rate_and_check(&ip("1.2.3.4")));
    limiter.register(&ip("1.2.3.4"));
    assert_eq!(limiter.count(&ip("1.2.3.4")), Some(2));
}

#[test]
fn exactly_the_threshold_is_let_through() {
    let mut limiter = RateLimiter::new(3);
    let client = ip("1.2.3.4");
    assert!(limiter.update_rate_and_check(&client));
    assert!(limiter.update_rate_and_check(&client));
    assert!(limiter.update_rate_and_check(&client));
    assert!(!limiter.update_rate_and_check(&client));
    assert!(!limiter.update_rate_and_check(&client));
    assert_eq!(limiter.count(&client), Some(5));
}

#[test]
fn a_new_client_is_counted_from_zero() {
    let mut limiter = RateLimiter::new(1);
    assert!(limiter.update_rate_and_check(&ip("9.9.9.9")));
    assert_eq!(limiter.count(&ip("9.9.9.9")), Some(1));
    assert!(!limiter.update_rate_and_check(&ip("9.9.9.9")));
}

#[test]
fn threshold_zero_always_admits_and_counts_nothing() {
    let mut limiter = RateLimiter::new(0);
    let client = ip("1.2.3.4");
    for _ in 0..1000 {
        assert!(limiter.update_rate_and_check(&client));
    }
    assert_eq!(limiter.count(&client), None);
    limiter.register(&client);
    for _ in 0..10 {
        assert!(limiter.update_rate_and_check(&client));
    }
    assert_eq!(limiter.count(&client), Some(0));
}

#[test]
fn clients_are_counted_apart() {
    let mut limiter = RateLimiter::new(2);
    assert!(limiter.update_rate_and_check(&ip("a")));
    assert!(limiter.update_rate_and_check(&ip("a")));
    assert!(!limiter.update_rate_and_check(&ip("a")));
    assert!(limiter.update_rate_and_check(&ip("b")));
    assert_eq!(limiter.count(&ip("a")), Some(3));
    assert_eq!(limiter.count(&ip("b")), Some(1));
}

#[test]
fn update_rate_and_check_with_threshold_zero_admits_a_new_client_and_counts_nothing() {
    let mut limiter = RateLimiter::new(0);
    assert!(limiter.update_rate_and_check(&ip("a")));
    assert_eq!(limiter.count(&ip("a")), None);
    assert!(limiter.update_rate_and_check(&ip("a")));
    assert_eq!(limiter.count(&ip("a")), None);
}

#[test]
fn update_rate_and_check_compares_the_new_count() {
    let mut limiter = RateLimiter::new(2);
    assert!(limiter.update_rate_and_check(&ip("a")));
    assert!(limiter.update_rate_and_check(&ip("a")));
    assert!(!limiter.update_rate_and_check(&ip("a")));
    assert_eq!(limiter.count(&ip("a")), Some(3));
}

#[test]
fn reset_puts_every_count_back_to_zero_and_forgets_nobody() {
    let mut limiter = RateLimiter::new(2);
    for _ in 0..3 {
        limiter.update_rate_and_check(&ip("a"));
    }
    limiter.update_rate_and_check(&ip("b"));
    limiter.register(&ip("c"));
    limiter.reset_rates_with_fixed_window();
    assert_eq!(limiter.count(&ip("a")), Some(0));
    assert_eq!(limiter.count(&ip("b")), Some(0));
    assert_eq!(limiter.count(&ip("c")), Some(0));
    assert_eq!(limiter.count(&ip("d")), None);
    assert_eq!(limiter.threshold(), 2);
}

#[test]
fn after_a_reset_the_threshold_can_be_used_again() {
    let mut limiter = RateLimiter::new(2);
    let client = ip("a");
    assert!(limiter.update_rate_and_check(&client));
    assert!(limiter.update_rate_and_check(&client));
    assert!(!limiter.update_rate_and_check(&client));
    limiter.reset_rates_with_fixed_window();
    assert!(limiter.update_rate_and_check(&client));
    assert!(limiter.update_rate_and_check(&client));
    assert!(!limiter.update_rate_and_check(&client));
}

#[test]
fn a_burst_of_twice_the_threshold_fits_across_a_reset() {
    let mut limiter = RateLimiter::new(4);
    let client = ip("a");
    let mut admitted = 0;
    for _ in 0..4 {
        if limiter.update_rate_and_check(&client) {
            admitted += 1;
        }
    }
    limiter.reset_rates_with_fixed_window();
    for _ in 0..4 {
        if limiter.update_rate_and_check(&client) {
            admitted += 1;
        }
    }
    assert_eq!(admitted, 8);
    assert!(!limiter.update_rate_and_check(&client));
}

#[test]
fn reset_of_an_empty_limiter_changes_nothing() {
    let mut limiter = RateLimiter::new(1);
    limiter.reset_rates_with_fixed_window();
    assert_eq!(limiter.count(&ip("a")), None);
    assert!(limiter.update_rate_and_check(&ip("a")));
}

#[test]
fn many_clients_are_all_reset() {
    let mut limiter = RateLimiter::new(1);
    for i in 0..500 {
        let client = format!("10.0.{}.{}", i / 250, i % 250);
        assert!(limiter.update_rate_and_check(&client));
        assert!(!limiter.update_rate_and_check(&client));
    }
    limiter.reset_rates_with_fixed_window();
    for i in 0..500 {
        let client = format!("10.0.{}.{}", i / 250, i % 250);
        assert_eq!(limiter.count(&client), Some(0));
        assert!(limiter.update_rate_and_check(&client));
    }
}
