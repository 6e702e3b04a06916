use rate_limiter::action::{ActionMap, ActionType};
use rate_limiter::bucket::{Bucket, BucketConfig, InstantSecs};
use rate_limiter::ip::{IpAddr, Ipv4Addr, Ipv6Addr};
use rate_limiter::storage::RateLimitStorage;

fn uniform_configs(capacity: i32, secs_to_refill: i32) -> ActionMap<BucketConfig> {
    let c = BucketConfig { capacity, secs_to_refill };
    ActionMap {
        message: c,
        register: c,
        post: c,
        image: c,
        comment: c,
        search: c,
        import_user_settings: c,
    }
}

fn at(secs: u32) -> InstantSecs {
    InstantSecs::from_secs(secs)
}

#[test]
fn test_rate_limiter() {
    let bucket_configs = uniform_configs(2, 1);
    let mut rate_limiter = RateLimitStorage::new(bucket_configs);
    let now = at(1000);

    let v4 = Ipv4Addr::new(123, 123, 123, 123);
    let v6_addrs = [
        Ipv6Addr::new(1, 2, 3, 0, 0, 0, 0, 0),
        Ipv6Addr::new(1, 2, 3, 0x0400, 0, 0, 0, 0),
        Ipv6Addr::new(1, 2, 3, 0x0405, 0, 0, 0, 0),
        Ipv6Addr::new(1, 2, 3, 0x0405, 6, 0, 0, 0),
    ];

    let message_passed = rate_limiter.check(ActionType::Message, IpAddr::V4(v4), now);
    let post_passed = rate_limiter.check(ActionType::Post, IpAddr::V4(v4), now);
    assert!(message_passed);
    assert!(post_passed);
    for ip in v6_addrs {
        let message_passed = rate_limiter.check(ActionType::Message, IpAddr::V6(ip), now);
        let post_passed = rate_limiter.check(ActionType::Post, IpAddr::V6(ip), now);
        assert!(message_passed);
        assert!(post_passed);
    }

    // The IPv4 address has its own group: capacity 2, one token consumed
    // per action checked.
    for action in [ActionType::Message, ActionType::Post] {
        assert_eq!(
            rate_limiter.v4_bucket(v4, action),
            Some(Bucket { last_checked: now, tokens: 1 })
        );
    }
    // An action never checked stays at full capacity.
    assert_eq!(
        rate_limiter.v4_bucket(v4, ActionType::Register),
        Some(Bucket { last_checked: now, tokens: 2 })
    );

    // All four IPv6 addresses share one /48 group seeded at 16-fold
    // capacity; each check consumed one token.
    for action in [ActionType::Message, ActionType::Post] {
        assert_eq!(
            rate_limiter.v6_bucket_48(v6_addrs[0], action),
            Some(Bucket { last_checked: now, tokens: 2 * 16 - 4 })
        );
    }
    assert_eq!(
        rate_limiter.v6_bucket_48(v6_addrs[0], ActionType::Register),
        Some(Bucket { last_checked: now, tokens: 2 * 16 })
    );

    // The /56 groups are seeded at 4-fold capacity: the first address is
    // alone under its /56; the other three share one.
    for action in [ActionType::Message, ActionType::Post] {
        assert_eq!(
            rate_limiter.v6_bucket_56(v6_addrs[0], action),
            Some(Bucket { last_checked: now, tokens: 2 * 4 - 1 })
        );
        assert_eq!(
            rate_limiter.v6_bucket_56(v6_addrs[1], action),
            Some(Bucket { last_checked: now, tokens: 2 * 4 - 3 })
        );
        assert_eq!(
            rate_limiter.v6_bucket_56(v6_addrs[2], action),
            Some(Bucket { last_checked: now, tokens: 2 * 4 - 3 })
        );
    }

    // The /64 groups are unscaled; the last two addresses share theirs.
    for action in [ActionType::Message, ActionType::Post] {
        assert_eq!(
            rate_limiter.v6_bucket_64(v6_addrs[0], action),
            Some(Bucket { last_checked: now, tokens: 1 })
        );
        assert_eq!(
            rate_limiter.v6_bucket_64(v6_addrs[1], action),
            Some(Bucket { last_checked: now, tokens: 1 })
        );
        assert_eq!(
            rate_limiter.v6_bucket_64(v6_addrs[2], action),
            Some(Bucket { last_checked: now, tokens: 0 })
        );
        assert_eq!(
            rate_limiter.v6_bucket_64(v6_addrs[3], action),
            Some(Bucket { last_checked: now, tokens: 0 })
        );
    }

    // After one full refill interval everywhere, garbage collection
    // empties both maps.
    let later = at(1000 + 2);
    rate_limiter.remove_full_buckets(later);
    assert!(rate_limiter.ipv4_is_empty());
    assert!(rate_limiter.ipv6_is_empty());
}

#[test]
fn literal_scenario_two_tokens_per_second() {
    let mut storage = RateLimitStorage::new(uniform_configs(2, 1));
    let ip = IpAddr::V4(Ipv4Addr::new(10, 0, 0, 1));
    let now = at(500);

    assert!(storage.check(ActionType::Message, ip, now));
    assert!(storage.check(ActionType::Message, ip, now));
    assert!(!storage.check(ActionType::Message, ip, now));
    assert_eq!(
        storage.v4_bucket(Ipv4Addr::new(10, 0, 0, 1), ActionType::Message),
        Some(Bucket { last_checked: now, tokens: 0 })
    );

    let later = at(501);
    assert!(storage.check(ActionType::Message, ip, later));
    assert_eq!(
        storage.v4_bucket(Ipv4Addr::new(10, 0, 0, 1), ActionType::Message),
        Some(Bucket { last_checked: later, tokens: 1 })
    );
}

#[test]
fn rejection_changes_nothing() {
    let mut storage = RateLimitStorage::new(uniform_configs(1, 100));
    let addr = Ipv4Addr::new(10, 0, 0, 2);
    let ip = IpAddr::V4(addr);
    let t0 = at(100);

    assert!(storage.check(ActionType::Search, ip, t0));
    let exhausted = storage.v4_bucket(addr, ActionType::Search);
    assert_eq!(exhausted, Some(Bucket { last_checked: t0, tokens: 0 }));

    // Rejected checks leave the bucket exactly as it was, even with a
    // later timestamp, as long as no whole token has accrued.
    let t1 = at(101);
    assert!(!storage.check(ActionType::Search, ip, t1));
    assert_eq!(storage.v4_bucket(addr, ActionType::Search), exhausted);
    assert!(!storage.check(ActionType::Search, ip, t1));
    assert_eq!(storage.v4_bucket(addr, ActionType::Search), exhausted);
}

#[test]
fn ipv4_addresses_are_independent() {
    let mut storage = RateLimitStorage::new(uniform_configs(1, 60));
    let first = Ipv4Addr::new(198, 51, 100, 7);
    let second = Ipv4Addr::new(198, 51, 100, 8);
    let now = at(0);

    assert!(storage.check(ActionType::Post, IpAddr::V4(first), now));
    assert!(!storage.check(ActionType::Post, IpAddr::V4(first), now));
    // Exhausting the first address never affects the second.
    assert!(storage.check(ActionType::Post, IpAddr::V4(second), now));
    assert_eq!(
        storage.v4_bucket(first, ActionType::Post),
        Some(Bucket { last_checked: now, tokens: 0 })
    );
}

#[test]
fn ipv6_hierarchy_is_an_and_of_all_levels() {
    // Capacity 1: each /64 allows one action, the shared /48 allows 16.
    let mut storage = RateLimitStorage::new(uniform_configs(1, 3600));
    let now = at(0);

    // Sixteen addresses spread over four /56 prefixes (scaled capacity 4)
    // with four distinct /64 prefixes each: every intermediate level stays
    // within its own budget while the shared /48 total drains to zero.
    for i in 0..16u16 {
        let seg = ((i / 4) << 8) | (i % 4);
        let ip = Ipv6Addr::new(0x20, 1, 0xdb8, seg, 0, 0, 0, 0);
        assert!(storage.check(ActionType::Register, IpAddr::V6(ip), now));
    }
    // The /48 total is exhausted: a fresh /64 under it is rejected even
    // though its own bucket is new.
    let fresh = Ipv6Addr::new(0x20, 1, 0xdb8, 0x0400, 0, 0, 0, 0);
    assert!(!storage.check(ActionType::Register, IpAddr::V6(fresh), now));
    assert_eq!(
        storage.v6_bucket_48(fresh, ActionType::Register),
        Some(Bucket { last_checked: now, tokens: 0 })
    );
}

#[test]
fn gc_retains_groups_still_owing_refill() {
    let mut storage = RateLimitStorage::new(uniform_configs(2, 100));
    let addr = Ipv4Addr::new(10, 0, 0, 3);
    let t0 = at(0);
    assert!(storage.check(ActionType::Image, IpAddr::V4(addr), t0));

    // One second later no whole token has accrued: the group still holds
    // information and survives the sweep.
    storage.remove_full_buckets(at(1));
    assert!(!storage.ipv4_is_empty());
    assert_eq!(
        storage.v4_bucket(addr, ActionType::Image),
        Some(Bucket { last_checked: t0, tokens: 1 })
    );

    // After a full interval every bucket would be full again: the group is
    // dropped.
    storage.remove_full_buckets(at(100));
    assert!(storage.ipv4_is_empty());
}

#[test]
fn gc_prunes_ipv6_bottom_up() {
    let mut storage = RateLimitStorage::new(uniform_configs(2, 100));
    let ip = Ipv6Addr::new(1, 2, 3, 4, 0, 0, 0, 1);
    let t0 = at(0);
    assert!(storage.check(ActionType::Comment, IpAddr::V6(ip), t0));

    storage.remove_full_buckets(at(1));
    assert!(!storage.ipv6_is_empty());
    assert!(storage.v6_bucket_64(ip, ActionType::Comment).is_some());

    storage.remove_full_buckets(at(200));
    assert!(storage.ipv6_is_empty());
}

#[test]
fn set_config_keeps_accumulated_state() {
    let mut storage = RateLimitStorage::new(uniform_configs(2, 1));
    let addr = Ipv4Addr::new(10, 0, 0, 4);
    let ip = IpAddr::V4(addr);
    let t0 = at(10);
    assert!(storage.check(ActionType::Message, ip, t0));
    assert_eq!(
        storage.v4_bucket(addr, ActionType::Message),
        Some(Bucket { last_checked: t0, tokens: 1 })
    );

    // The new rates apply to the existing bucket without resetting it.
    storage.set_config(uniform_configs(5, 1));
    assert_eq!(
        storage.v4_bucket(addr, ActionType::Message),
        Some(Bucket { last_checked: t0, tokens: 1 })
    );
    assert!(storage.check(ActionType::Message, ip, t0));
    assert_eq!(
        storage.v4_bucket(addr, ActionType::Message),
        Some(Bucket { last_checked: t0, tokens: 0 })
    );
    // One second refills to the new, larger capacity.
    let t1 = at(11);
    assert!(storage.check(ActionType::Message, ip, t1));
    assert_eq!(
        storage.v4_bucket(addr, ActionType::Message),
        Some(Bucket { last_checked: t1, tokens: 4 })
    );
}

#[test]
fn zero_capacity_rejects_everything() {
    let mut storage = RateLimitStorage::new(uniform_configs(0, 1));
    let ip = IpAddr::V4(Ipv4Addr::new(10, 0, 0, 5));
    assert!(!storage.check(ActionType::Search, ip, at(0)));
    assert!(!storage.check(ActionType::Search, ip, at(1000)));
}

#[test]
fn update_follows_the_refill_formula() {
    let config = BucketConfig { capacity: 7, secs_to_refill: 3 };
    let bucket = Bucket { last_checked: at(10), tokens: 3 };

    // floor(1 * 7 / 3) = 2 tokens accrue over one second.
    assert_eq!(bucket.update(at(11), config), Bucket { last_checked: at(11), tokens: 5 });
    // floor(7 * 7 / 3) = 16 would overshoot: clamped at capacity.
    assert_eq!(bucket.update(at(17), config), Bucket { last_checked: at(17), tokens: 7 });
    // Zero elapsed time adds nothing.
    assert_eq!(bucket.update(at(10), config), Bucket { last_checked: at(10), tokens: 3 });
    // A clock running backwards saturates to zero elapsed time.
    assert_eq!(bucket.update(at(5), config), Bucket { last_checked: at(5), tokens: 3 });
}

#[test]
fn multiply_capacity_saturates() {
    let config = BucketConfig { capacity: i32::MAX, secs_to_refill: 5 };
    let scaled = config.multiply_capacity(16);
    assert_eq!(scaled.capacity, i32::MAX);
    assert_eq!(scaled.secs_to_refill, 5);

    let small = BucketConfig { capacity: 3, secs_to_refill: 5 }.multiply_capacity(4);
    assert_eq!(small.capacity, 12);
    assert_eq!(small.secs_to_refill, 5);
}

#[test]
fn split_ipv6_keys() {
    let ip = Ipv6Addr::new(1, 2, 3, 0x0405, 6, 0, 0, 0);
    let (key_48, key_56, key_64) = rate_limiter::ip::split_ipv6(ip);
    assert_eq!(key_48, [0, 1, 0, 2, 0, 3]);
    assert_eq!(key_56, 4);
    assert_eq!(key_64, 5);
}
