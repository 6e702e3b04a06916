use rate_limiter::bucket::InstantSecs;
use rate_limiter::config::RateLimitConfig;
use rate_limiter::cell::RateLimitCell;
use rate_limiter::ip::{IpAddr, Ipv4Addr};

#[test]
fn default_config_values() {
    let c = RateLimitConfig::default();
    assert_eq!(c.message, 180);
    assert_eq!(c.message_per_second, 60);
    assert_eq!(c.post, 6);
    assert_eq!(c.post_per_second, 300);
    assert_eq!(c.register, 3);
    assert_eq!(c.register_per_second, 3600);
    assert_eq!(c.image, 6);
    assert_eq!(c.image_per_second, 3600);
    assert_eq!(c.comment, 6);
    assert_eq!(c.comment_per_second, 600);
    assert_eq!(c.search, 60);
    assert_eq!(c.search_per_second, 600);
    assert_eq!(c.import_user_settings, 1);
    assert_eq!(c.import_user_settings_per_second, 86400);
}

#[test]
fn config_conversion_clamps_unusable_pairs() {
    let mut c = RateLimitConfig::default();
    c.message = -5;
    c.message_per_second = 0;
    c.search_per_second = -3;
    let m = c.bucket_configs();
    assert_eq!(m.message.capacity, 0);
    assert_eq!(m.message.secs_to_refill, 1);
    assert_eq!(m.search.capacity, 60);
    assert_eq!(m.search.secs_to_refill, 1);
    assert_eq!(m.post.capacity, 6);
    assert_eq!(m.post.secs_to_refill, 300);
}

#[test]
fn cell_admits_within_default_limits() {
    let cell = RateLimitCell::new(RateLimitConfig::default());
    let ip = IpAddr::V4(Ipv4Addr::new(192, 0, 2, 1));
    // The default message capacity is far above one: a first request passes.
    assert!(cell.message().check(ip));
    // Checkers for every action category come from the same shared cell.
    assert!(cell.post().check(ip));
    assert!(cell.register().check(ip));
    assert!(cell.image().check(ip));
    assert!(cell.comment().check(ip));
    assert!(cell.search().check(ip));
    assert!(cell.import_user_settings().check(ip));
}

#[test]
fn cell_enforces_a_tight_limit_across_clones() {
    let mut config = RateLimitConfig::default();
    config.import_user_settings = 1;
    config.import_user_settings_per_second = 86400;
    let cell = RateLimitCell::new(config);
    let clone = cell.clone();
    let ip = IpAddr::V4(Ipv4Addr::new(192, 0, 2, 2));
    // Capacity one: the first request uses the only token; a clone of the
    // cell sees the same shared state and rejects the second.
    assert!(cell.import_user_settings().check(ip));
    assert!(!clone.import_user_settings().check(ip));
}

#[test]
fn cell_set_config_and_sweep_run() {
    let cell = RateLimitCell::new(RateLimitConfig::default());
    let ip = IpAddr::V4(Ipv4Addr::new(192, 0, 2, 3));
    assert!(cell.search().check(ip));
    cell.set_config(RateLimitConfig::default());
    cell.remove_full_buckets(InstantSecs::now());
    assert!(cell.search().check(ip));
}
