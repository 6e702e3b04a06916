//! The stated laws of the limiter, proved once and for all inputs.

use vstd::prelude::*;

use vstd::arithmetic::div_mod::{lemma_div_is_ordered, lemma_div_multiples_vanish};

use crate::action::{ActionMap, ActionType};
use crate::bucket::{Bucket, BucketConfig, InstantSecs};
use crate::group::{
    configs_wf, middle_wf, outer_wf, spec_all_full, spec_bucket_full, spec_check_total,
    spec_gc_middle, spec_gc_outer, spec_keep_middle, spec_keep_outer, totals_wf, MiddleModel,
    OuterModel,
};
use crate::ip::Ipv4Addr;
use crate::storage::{spec_v4_pre, RateLimitStorage};

verus! {

/// Monotonic refill bound: a bucket advanced by `d` seconds holds exactly
/// `min(capacity, tokens + floor(d * capacity / secs_to_refill))` tokens,
/// and the result always lies between zero and the capacity.
pub proof fn lemma_monotonic_refill_bound(b: Bucket, now: InstantSecs, config: BucketConfig)
    requires
        config.wf(),
        b.wf(),
    ensures
        b.spec_update(now, config).tokens == vstd::math::min(
            config.capacity as int,
            b.tokens + b.spec_elapsed(now) * config.capacity / (config.secs_to_refill as int),
        ),
        0 <= b.spec_update(now, config).tokens <= config.capacity,
        b.spec_update(now, config).last_checked == now,
{
    let d = b.spec_elapsed(now);
    let added = d * config.capacity / (config.secs_to_refill as int);
    assert(d * config.capacity >= 0) by (nonlinear_arith)
        requires
            d >= 0,
            config.capacity >= 0,
    {}
    lemma_div_is_ordered(0, d * config.capacity, config.secs_to_refill as int);
    assert(added >= 0);
}

/// No refill on rejection: a rejected check leaves the stored buckets
/// exactly as they were, so repeating the check at the same instant is
/// rejected again, with the buckets still unchanged.
pub proof fn lemma_rejection_is_idempotent(
    t: ActionMap<Bucket>,
    action: ActionType,
    now: InstantSecs,
    config: BucketConfig,
)
    requires
        !spec_check_total(t, action, now, config).0,
    ensures
        spec_check_total(t, action, now, config).1 == t,
        !spec_check_total(spec_check_total(t, action, now, config).1, action, now, config).0,
{
}

/// Consumption exactness: an admitted check stores, for the checked action,
/// the refill-only updated bucket with exactly one token deducted, and
/// leaves every other action's bucket untouched.
pub proof fn lemma_consumption_exact(
    t: ActionMap<Bucket>,
    action: ActionType,
    now: InstantSecs,
    config: BucketConfig,
)
    requires
        config.wf(),
        totals_wf(t),
        spec_check_total(t, action, now, config).0,
    ensures
        spec_check_total(t, action, now, config).1.spec_index(action).tokens == t.spec_index(
            action,
        ).spec_update(now, config).tokens - 1,
        spec_check_total(t, action, now, config).1.spec_index(action).last_checked == now,
        forall|other: ActionType|
            other != action ==> #[trigger] spec_check_total(t, action, now, config).1.spec_index(
                other,
            ) == t.spec_index(other),
{
    assert(t.spec_index(action).wf());
    lemma_monotonic_refill_bound(t.spec_index(action), now, config);
    let stored = Bucket {
        last_checked: now,
        tokens: (t.spec_index(action).spec_update(now, config).tokens - 1) as i32,
    };
    assert forall|other: ActionType| other != action implies #[trigger] t.spec_update(
        action,
        stored,
    ).spec_index(other) == t.spec_index(other) by {
        match action {
            ActionType::Message => {},
            ActionType::Register => {},
            ActionType::Post => {},
            ActionType::Image => {},
            ActionType::Comment => {},
            ActionType::Search => {},
            ActionType::ImportUserSettings => {},
        }
    }
    assert(t.spec_update(action, stored).spec_index(action) == stored) by {
        match action {
            ActionType::Message => {},
            ActionType::Register => {},
            ActionType::Post => {},
            ActionType::Image => {},
            ActionType::Comment => {},
            ActionType::Search => {},
            ActionType::ImportUserSettings => {},
        }
    }
}

/// A bucket that has waited out at least one full refill interval is full
/// again, whatever its token count was.
pub proof fn lemma_full_after_interval(b: Bucket, now: InstantSecs, config: BucketConfig)
    requires
        config.wf(),
        b.wf(),
        b.spec_elapsed(now) >= config.secs_to_refill,
    ensures
        spec_bucket_full(b, now, config),
{
    let d = b.spec_elapsed(now);
    let cap = config.capacity as int;
    let secs = config.secs_to_refill as int;
    assert(secs * cap <= d * cap) by (nonlinear_arith)
        requires
            secs <= d,
            cap >= 0,
    {}
    lemma_div_is_ordered(secs * cap, d * cap, secs);
    lemma_div_multiples_vanish(cap, secs);
    assert((secs * cap) / secs == cap);
    assert(d * cap / secs >= cap);
}

/// Every bucket of a mapping that has waited out its interval would be
/// full, so the whole group is eligible for collection.
pub proof fn lemma_group_full_after_interval(
    t: ActionMap<Bucket>,
    now: InstantSecs,
    configs: ActionMap<BucketConfig>,
)
    requires
        configs_wf(configs),
        totals_wf(t),
        forall|a: ActionType|
            (#[trigger] t.spec_index(a)).spec_elapsed(now) >= configs.spec_index(
                a,
            ).secs_to_refill,
    ensures
        spec_all_full(t, now, configs),
{
    assert forall|a: ActionType|
        spec_bucket_full(#[trigger] t.spec_index(a), now, configs.spec_index(a)) by {
        lemma_full_after_interval(t.spec_index(a), now, configs.spec_index(a));
    }
}

/// Every bucket anywhere in a /48 subtree has waited out its interval.
pub open spec fn outer_waited(m: OuterModel, now: InstantSecs, configs: ActionMap<BucketConfig>) -> bool {
    &&& forall|a: ActionType|
        (#[trigger] m.total.spec_index(a)).spec_elapsed(now) >= configs.spec_index(
            a,
        ).secs_to_refill
    &&& forall|k: u64| m.children.contains_key(k) ==> middle_waited(#[trigger] m.children[k], now, configs)
}

/// Every bucket anywhere in a /56 subtree has waited out its interval.
pub open spec fn middle_waited(
    m: MiddleModel,
    now: InstantSecs,
    configs: ActionMap<BucketConfig>,
) -> bool {
    &&& forall|a: ActionType|
        (#[trigger] m.total.spec_index(a)).spec_elapsed(now) >= configs.spec_index(
            a,
        ).secs_to_refill
    &&& forall|k: u64|
        m.children.contains_key(k) ==> forall|a: ActionType|
            (#[trigger] m.children[k].spec_index(a)).spec_elapsed(now) >= configs.spec_index(
                a,
            ).secs_to_refill
}

/// GC safety: once every tracked bucket has waited out at least one full
/// refill interval, garbage collection retains nothing — both address maps
/// come out empty.
pub proof fn lemma_gc_empties_storage(s: RateLimitStorage, now: InstantSecs)
    requires
        s.wf(),
        forall|k: u64|
            s.v4().contains_key(k) ==> forall|a: ActionType|
                (#[trigger] s.v4()[k].spec_index(a)).spec_elapsed(now) >= s.configs().spec_index(
                    a,
                ).secs_to_refill,
        forall|k: u64|
            s.v6().contains_key(k) ==> outer_waited(#[trigger] s.v6()[k], now, s.configs()),
    ensures
        Map::new(
            |k: u64|
                s.v4().contains_key(k) && !spec_all_full(s.v4()[k], now, s.configs()),
            |k: u64| s.v4()[k],
        ) =~= Map::<u64, ActionMap<Bucket>>::empty(),
        Map::new(
            |k: u64|
                s.v6().contains_key(k) && spec_keep_outer(s.v6()[k], now, s.configs()),
            |k: u64| spec_gc_outer(s.v6()[k], now, s.configs()),
        ) =~= Map::<u64, OuterModel>::empty(),
{
    assert forall|k: u64| s.v4().contains_key(k) implies spec_all_full(
        #[trigger] s.v4()[k],
        now,
        s.configs(),
    ) by {
        assert(totals_wf(s.v4()[k]));
        lemma_group_full_after_interval(s.v4()[k], now, s.configs());
    }
    assert forall|k: u64| s.v6().contains_key(k) implies !spec_keep_outer(
        #[trigger] s.v6()[k],
        now,
        s.configs(),
    ) by {
        let m = s.v6()[k];
        assert(outer_wf(m));
        lemma_outer_not_kept(m, now, s.configs());
    }
}

/// A /48 subtree whose every bucket has waited out its interval does not
/// survive garbage collection.
pub proof fn lemma_outer_not_kept(m: OuterModel, now: InstantSecs, configs: ActionMap<BucketConfig>)
    requires
        configs_wf(configs),
        outer_wf(m),
        outer_waited(m, now, configs),
    ensures
        !spec_keep_outer(m, now, configs),
{
    lemma_group_full_after_interval(m.total, now, configs);
    assert forall|k: u64| m.children.contains_key(k) implies !spec_keep_middle(
        #[trigger] m.children[k],
        now,
        configs,
    ) by {
        assert(middle_wf(m.children[k]));
        lemma_middle_not_kept(m.children[k], now, configs);
    }
    assert(spec_gc_outer(m, now, configs).children =~= Map::<u64, MiddleModel>::empty());
}

/// A /56 subtree whose every bucket has waited out its interval does not
/// survive garbage collection.
pub proof fn lemma_middle_not_kept(
    m: MiddleModel,
    now: InstantSecs,
    configs: ActionMap<BucketConfig>,
)
    requires
        configs_wf(configs),
        middle_wf(m),
        middle_waited(m, now, configs),
    ensures
        !spec_keep_middle(m, now, configs),
{
    lemma_group_full_after_interval(m.total, now, configs);
    assert forall|k: u64| m.children.contains_key(k) implies spec_all_full(
        #[trigger] m.children[k],
        now,
        configs,
    ) by {
        assert(totals_wf(m.children[k]));
        lemma_group_full_after_interval(m.children[k], now, configs);
    }
    assert(spec_gc_middle(m, now, configs).children =~= Map::<u64, ActionMap<Bucket>>::empty());
}

/// IPv4 independence: distinct addresses have distinct keys, so whatever a
/// check stores for one address, the group the other address is checked
/// against — and hence that check's outcome — is unchanged.
pub proof fn lemma_ipv4_independence(
    v4: Map<u64, ActionMap<Bucket>>,
    charged: Ipv4Addr,
    other: Ipv4Addr,
    stored: ActionMap<Bucket>,
    action: ActionType,
    now: InstantSecs,
    configs: ActionMap<BucketConfig>,
    config: BucketConfig,
)
    requires
        charged.octets@ != other.octets@,
    ensures
        charged.spec_key() != other.spec_key(),
        spec_v4_pre(v4.insert(charged.spec_key(), stored), other.spec_key(), now, configs)
            == spec_v4_pre(v4, other.spec_key(), now, configs),
        spec_check_total(
            spec_v4_pre(v4.insert(charged.spec_key(), stored), other.spec_key(), now, configs),
            action,
            now,
            config,
        ) == spec_check_total(spec_v4_pre(v4, other.spec_key(), now, configs), action, now, config),
{
    if charged.spec_key() == other.spec_key() {
        Ipv4Addr::lemma_key_injective(charged, other);
    }
}

} // verus!
