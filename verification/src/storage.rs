//! The shared rate-limit state: bucket groups keyed by IPv4 address and by
//! nested IPv6 prefix, plus the active per-action configurations.

use vstd::prelude::*;

use crate::action::{ActionMap, ActionType};
use crate::assoc::AssocMap;
use crate::bucket::{Bucket, BucketConfig, InstantSecs};
use crate::group::{
    all_buckets_full, configs_wf, middle_wf, outer_wf, scale_configs, spec_all_full,
    spec_check_total, spec_fresh_totals, spec_gc_outer, spec_keep_outer, spec_scale_config,
    spec_scale_configs, totals_wf, InnerGroup, MiddleGroup, MiddleModel, OuterGroup, OuterModel,
};
use crate::ip::IpAddr;

verus! {

/// Capacity multiplier for the group shared by a whole /48 prefix.
pub const SCALE_48: i32 = 16;

/// Capacity multiplier for the group shared by a whole /56 prefix.
pub const SCALE_56: i32 = 4;

/// The group an IPv4 check works on: the stored group for `key`, or a fresh
/// one at full capacity as of `now` if the address is new.
pub open spec fn spec_v4_pre(
    v4: Map<u64, ActionMap<Bucket>>,
    key: u64,
    now: InstantSecs,
    configs: ActionMap<BucketConfig>,
) -> ActionMap<Bucket> {
    if v4.contains_key(key) {
        v4[key]
    } else {
        spec_fresh_totals(now, configs)
    }
}

/// The /48 group a check works on: the stored group for `key`, or a fresh
/// childless one seeded at 16-fold capacity as of `now`.
pub open spec fn spec_outer_pre(
    v6: Map<u64, OuterModel>,
    key: u64,
    now: InstantSecs,
    configs: ActionMap<BucketConfig>,
) -> OuterModel {
    if v6.contains_key(key) {
        v6[key]
    } else {
        OuterModel {
            total: spec_fresh_totals(now, spec_scale_configs(configs, SCALE_48 as int)),
            children: Map::empty(),
        }
    }
}

/// The /56 group a check works on within its /48 parent: stored, or fresh
/// at 4-fold capacity.
pub open spec fn spec_middle_pre(
    children: Map<u64, MiddleModel>,
    key: u64,
    now: InstantSecs,
    configs: ActionMap<BucketConfig>,
) -> MiddleModel {
    if children.contains_key(key) {
        children[key]
    } else {
        MiddleModel {
            total: spec_fresh_totals(now, spec_scale_configs(configs, SCALE_56 as int)),
            children: Map::empty(),
        }
    }
}

/// The /64 group a check works on within its /56 parent: stored, or fresh
/// at unscaled capacity.
pub open spec fn spec_inner_pre(
    children: Map<u64, ActionMap<Bucket>>,
    key: u64,
    now: InstantSecs,
    configs: ActionMap<BucketConfig>,
) -> ActionMap<Bucket> {
    if children.contains_key(key) {
        children[key]
    } else {
        spec_fresh_totals(now, configs)
    }
}

/// The single unit of shared mutable rate-limiter state.
pub struct RateLimitStorage {
    ipv4_buckets: AssocMap<InnerGroup>,
    ipv6_buckets: AssocMap<OuterGroup>,
    bucket_configs: ActionMap<BucketConfig>,
}

impl RateLimitStorage {
    /// The per-address IPv4 groups, as a map from address key to buckets.
    pub closed spec fn v4(self) -> Map<u64, ActionMap<Bucket>> {
        self.ipv4_buckets@
    }

    /// The per-/48 IPv6 groups, as a map from prefix key to group model.
    pub closed spec fn v6(self) -> Map<u64, OuterModel> {
        self.ipv6_buckets@
    }

    /// The active per-action configurations.
    pub closed spec fn configs(self) -> ActionMap<BucketConfig> {
        self.bucket_configs
    }

    /// Every configuration is usable and every tracked bucket holds a
    /// non-negative token count.
    pub open spec fn wf(self) -> bool {
        &&& configs_wf(self.configs())
        &&& forall|k: u64| self.v4().contains_key(k) ==> totals_wf(#[trigger] self.v4()[k])
        &&& forall|k: u64| self.v6().contains_key(k) ==> outer_wf(#[trigger] self.v6()[k])
    }

    /// Empty state under the given configurations.
    pub fn new(bucket_configs: ActionMap<BucketConfig>) -> (r: Self)
        requires
            configs_wf(bucket_configs),
        ensures
            r.wf(),
            r.v4() == Map::<u64, ActionMap<Bucket>>::empty(),
            r.v6() == Map::<u64, OuterModel>::empty(),
            r.configs() == bucket_configs,
    {
        RateLimitStorage {
            ipv4_buckets: AssocMap::new(),
            ipv6_buckets: AssocMap::new(),
            bucket_configs,
        }
    }

    /// Replace the active configurations; every tracked bucket keeps its
    /// current token count and continues under the new rates.
    pub fn set_config(&mut self, new_configs: ActionMap<BucketConfig>)
        requires
            old(self).wf(),
            configs_wf(new_configs),
        ensures
            final(self).wf(),
            final(self).configs() == new_configs,
            final(self).v4() == old(self).v4(),
            final(self).v6() == old(self).v6(),
    {
        self.bucket_configs = new_configs;
        proof {
            assert forall|k: u64| self.v4().contains_key(k) implies totals_wf(
                #[trigger] self.v4()[k],
            ) by {
                assert(old(self).v4().contains_key(k));
                assert(totals_wf(old(self).v4()[k]));
            }
            assert forall|k: u64| self.v6().contains_key(k) implies outer_wf(
                #[trigger] self.v6()[k],
            ) by {
                assert(old(self).v6().contains_key(k));
                assert(outer_wf(old(self).v6()[k]));
            }
        }
    }

    /// Whether no IPv4 group is tracked.
    pub fn ipv4_is_empty(&self) -> (r: bool)
        ensures
            r <==> self.v4() == Map::<u64, ActionMap<Bucket>>::empty(),
    {
        self.ipv4_buckets.is_empty()
    }

    /// Whether no IPv6 group is tracked.
    pub fn ipv6_is_empty(&self) -> (r: bool)
        ensures
            r <==> self.v6() == Map::<u64, OuterModel>::empty(),
    {
        self.ipv6_buckets.is_empty()
    }

    /// The bucket tracked for IPv4 address `ip` and `action`, if any.
    pub fn v4_bucket(&self, ip: crate::ip::Ipv4Addr, action: ActionType) -> (r: Option<Bucket>)
        ensures
            match r {
                Some(b) => self.v4().contains_key(ip.spec_key())
                    && b == self.v4()[ip.spec_key()].spec_index(action),
                None => !self.v4().contains_key(ip.spec_key()),
            },
    {
        match self.ipv4_buckets.get(ip.key()) {
            Some(g) => Some(g.total.get(action)),
            None => None,
        }
    }

    /// The bucket tracked for the /48 prefix of IPv6 address `ip` and
    /// `action`, if any.
    pub fn v6_bucket_48(&self, ip: crate::ip::Ipv6Addr, action: ActionType) -> (r: Option<Bucket>)
        ensures
            match r {
                Some(b) => self.v6().contains_key(ip.spec_key48())
                    && b == self.v6()[ip.spec_key48()].total.spec_index(action),
                None => !self.v6().contains_key(ip.spec_key48()),
            },
    {
        match self.ipv6_buckets.get(ip.key48()) {
            Some(g) => Some(g.total.get(action)),
            None => None,
        }
    }

    /// The bucket tracked for the /56 prefix of IPv6 address `ip` and
    /// `action`, if any.
    pub fn v6_bucket_56(&self, ip: crate::ip::Ipv6Addr, action: ActionType) -> (r: Option<Bucket>)
        ensures
            match r {
                Some(b) => {
                    &&& self.v6().contains_key(ip.spec_key48())
                    &&& self.v6()[ip.spec_key48()].children.contains_key(ip.spec_key56())
                    &&& b == self.v6()[ip.spec_key48()].children[ip.spec_key56()].total.spec_index(action)
                },
                None => {
                    ||| !self.v6().contains_key(ip.spec_key48())
                    ||| !self.v6()[ip.spec_key48()].children.contains_key(ip.spec_key56())
                },
            },
    {
        match self.ipv6_buckets.get(ip.key48()) {
            Some(g) => match g.children.get(ip.key56()) {
                Some(m) => Some(m.total.get(action)),
                None => None,
            },
            None => None,
        }
    }

    /// The bucket tracked for the /64 prefix of IPv6 address `ip` and
    /// `action`, if any.
    pub fn v6_bucket_64(&self, ip: crate::ip::Ipv6Addr, action: ActionType) -> (r: Option<Bucket>)
        ensures
            match r {
                Some(b) => {
                    &&& self.v6().contains_key(ip.spec_key48())
                    &&& self.v6()[ip.spec_key48()].children.contains_key(ip.spec_key56())
                    &&& self.v6()[ip.spec_key48()].children[ip.spec_key56()].children.contains_key(
                        ip.spec_key64(),
                    )
                    &&& b == self.v6()[ip.spec_key48()].children[ip.spec_key56()].children[ip.spec_key64()].spec_index(action)
                },
                None => {
                    ||| !self.v6().contains_key(ip.spec_key48())
                    ||| !self.v6()[ip.spec_key48()].children.contains_key(ip.spec_key56())
                    ||| !self.v6()[ip.spec_key48()].children[ip.spec_key56()].children.contains_key(
                        ip.spec_key64(),
                    )
                },
            },
    {
        match self.ipv6_buckets.get(ip.key48()) {
            Some(g) => match g.children.get(ip.key56()) {
                Some(m) => match m.children.get(ip.key64()) {
                    Some(inner) => Some(inner.total.get(action)),
                    None => None,
                },
                None => None,
            },
            None => None,
        }
    }

    /// Admit or reject one action from `ip` at `now`.
    ///
    /// An IPv4 address is checked against its own group alone. An IPv6
    /// address is checked against its /48, /56 and /64 groups in turn —
    /// every level is advanced and charged independently, with no short
    /// circuit — and admitted only if all three levels have a token. Groups
    /// are created on first access, seeded at the full (scaled) capacity of
    /// the current configuration as of `now`; a rejected level keeps its
    /// stored bucket exactly as it was.
    pub fn check(&mut self, action_type: ActionType, ip: IpAddr, now: InstantSecs) -> (passed:
        bool)
        requires
            old(self).wf(),
        ensures
            final(self).wf(),
            final(self).configs() == old(self).configs(),
            match ip {
                IpAddr::V4(a) => {
                    let cfg = old(self).configs().spec_index(action_type);
                    let pre = spec_v4_pre(old(self).v4(), a.spec_key(), now, old(self).configs());
                    let (p, post) = spec_check_total(pre, action_type, now, cfg);
                    &&& passed == p
                    &&& final(self).v4() == old(self).v4().insert(a.spec_key(), post)
                    &&& final(self).v6() == old(self).v6()
                },
                IpAddr::V6(a) => {
                    let cfg = old(self).configs().spec_index(action_type);
                    let pre48 = spec_outer_pre(
                        old(self).v6(),
                        a.spec_key48(),
                        now,
                        old(self).configs(),
                    );
                    let (p48, t48) = spec_check_total(
                        pre48.total,
                        action_type,
                        now,
                        spec_scale_config(cfg, SCALE_48 as int),
                    );
                    let pre56 = spec_middle_pre(
                        pre48.children,
                        a.spec_key56(),
                        now,
                        old(self).configs(),
                    );
                    let (p56, t56) = spec_check_total(
                        pre56.total,
                        action_type,
                        now,
                        spec_scale_config(cfg, SCALE_56 as int),
                    );
                    let pre64 = spec_inner_pre(
                        pre56.children,
                        a.spec_key64(),
                        now,
                        old(self).configs(),
                    );
                    let (p64, t64) = spec_check_total(pre64, action_type, now, cfg);
                    &&& passed == (p48 && p56 && p64)
                    &&& final(self).v6() == old(self).v6().insert(
                        a.spec_key48(),
                        OuterModel {
                            total: t48,
                            children: pre48.children.insert(
                                a.spec_key56(),
                                MiddleModel {
                                    total: t56,
                                    children: pre56.children.insert(a.spec_key64(), t64),
                                },
                            ),
                        },
                    )
                    &&& final(self).v4() == old(self).v4()
                },
            },
    {
        let config = self.bucket_configs.get(action_type);
        proof {
            assert(config.wf());
        }
        match ip {
            IpAddr::V4(a) => {
                let key: u64 = a.key();
                let mut group: InnerGroup = match self.ipv4_buckets.remove(key) {
                    Some(g) => {
                        proof {
                            assert(old(self).v4().contains_key(key));
                            assert(totals_wf(old(self).v4()[key]));
                        }
                        g
                    },
                    None => InnerGroup::new(now, &self.bucket_configs),
                };
                proof {
                    assert(group@ == spec_v4_pre(old(self).v4(), key, now, old(self).configs()));
                    assert(totals_wf(group.total));
                }
                let passed = group.total.check_total(action_type, now, config);
                self.ipv4_buckets.insert(key, group);
                proof {
                    assert(self.v4() =~= old(self).v4().insert(
                        key,
                        spec_check_total(
                            spec_v4_pre(old(self).v4(), key, now, old(self).configs()),
                            action_type,
                            now,
                            config,
                        ).1,
                    ));
                    assert forall|k: u64| self.v4().contains_key(k) implies totals_wf(
                        #[trigger] self.v4()[k],
                    ) by {
                        if k != key {
                            assert(old(self).v4().contains_key(k));
                            assert(totals_wf(old(self).v4()[k]));
                        }
                    }
                    assert forall|k: u64| self.v6().contains_key(k) implies outer_wf(
                        #[trigger] self.v6()[k],
                    ) by {
                        assert(old(self).v6().contains_key(k));
                        assert(outer_wf(old(self).v6()[k]));
                    }
                }
                passed
            },
            IpAddr::V6(a) => {
                let k48: u64 = a.key48();
                let k56: u64 = a.key56();
                let k64: u64 = a.key64();
                let config16 = config.multiply_capacity(SCALE_48);
                let config4 = config.multiply_capacity(SCALE_56);

                let ghost cfg = old(self).configs().spec_index(action_type);
                let ghost pre48 = spec_outer_pre(old(self).v6(), k48, now, old(self).configs());
                let ghost pre56 = spec_middle_pre(pre48.children, k56, now, old(self).configs());
                let ghost pre64 = spec_inner_pre(pre56.children, k64, now, old(self).configs());
                let ghost t48 = spec_check_total(
                    pre48.total,
                    action_type,
                    now,
                    spec_scale_config(cfg, SCALE_48 as int),
                ).1;
                let ghost t56 = spec_check_total(
                    pre56.total,
                    action_type,
                    now,
                    spec_scale_config(cfg, SCALE_56 as int),
                ).1;
                let ghost t64 = spec_check_total(pre64, action_type, now, cfg).1;

                let mut g48: OuterGroup = match self.ipv6_buckets.remove(k48) {
                    Some(g) => {
                        proof {
                            assert(old(self).v6().contains_key(k48));
                            assert(outer_wf(old(self).v6()[k48]));
                        }
                        g
                    },
                    None => {
                        let scaled = scale_configs(&self.bucket_configs, SCALE_48);
                        OuterGroup::new(now, &scaled)
                    },
                };
                proof {
                    assert(g48@ == pre48);
                    assert(outer_wf(pre48));
                    assert(totals_wf(g48.total));
                }
                let p48 = g48.total.check_total(action_type, now, config16);

                let mut g56: MiddleGroup = match g48.children.remove(k56) {
                    Some(g) => {
                        proof {
                            assert(pre48.children.contains_key(k56));
                            assert(middle_wf(pre48.children[k56]));
                        }
                        g
                    },
                    None => {
                        let scaled = scale_configs(&self.bucket_configs, SCALE_56);
                        MiddleGroup::new(now, &scaled)
                    },
                };
                proof {
                    assert(g56@ == pre56);
                    assert(middle_wf(pre56));
                    assert(totals_wf(g56.total));
                }
                let p56 = g56.total.check_total(action_type, now, config4);

                let mut g64: InnerGroup = match g56.children.remove(k64) {
                    Some(g) => {
                        proof {
                            assert(pre56.children.contains_key(k64));
                            assert(totals_wf(pre56.children[k64]));
                        }
                        g
                    },
                    None => InnerGroup::new(now, &self.bucket_configs),
                };
                proof {
                    assert(g64@ == pre64);
                    assert(totals_wf(g64.total));
                }
                let p64 = g64.total.check_total(action_type, now, config);

                g56.children.insert(k64, g64);
                proof {
                    assert(g56.children@ =~= pre56.children.insert(k64, t64));
                    assert(g56@ == MiddleModel {
                        total: t56,
                        children: pre56.children.insert(k64, t64),
                    });
                }
                g48.children.insert(k56, g56);
                proof {
                    assert(g48.children@ =~= pre48.children.insert(
                        k56,
                        MiddleModel { total: t56, children: pre56.children.insert(k64, t64) },
                    ));
                }
                self.ipv6_buckets.insert(k48, g48);

                proof {
                    let post48 = OuterModel {
                        total: t48,
                        children: pre48.children.insert(
                            k56,
                            MiddleModel { total: t56, children: pre56.children.insert(k64, t64) },
                        ),
                    };
                    assert(g48@ == post48);
                    assert(self.v6() =~= old(self).v6().insert(k48, post48));
                    assert(self.v4() =~= old(self).v4());
                    assert forall|k: u64| self.v4().contains_key(k) implies totals_wf(
                        #[trigger] self.v4()[k],
                    ) by {
                        assert(old(self).v4().contains_key(k));
                        assert(totals_wf(old(self).v4()[k]));
                    }
                    assert forall|k: u64| self.v6().contains_key(k) implies outer_wf(
                        #[trigger] self.v6()[k],
                    ) by {
                        if k != k48 {
                            assert(old(self).v6().contains_key(k));
                            assert(outer_wf(old(self).v6()[k]));
                        } else {
                            assert(self.v6()[k48] == post48);
                            assert forall|k2: u64| post48.children.contains_key(
                                k2,
                            ) implies middle_wf(#[trigger] post48.children[k2]) by {
                                if k2 != k56 {
                                    assert(pre48.children.contains_key(k2));
                                    assert(middle_wf(pre48.children[k2]));
                                } else {
                                    let post56 = MiddleModel {
                                        total: t56,
                                        children: pre56.children.insert(k64, t64),
                                    };
                                    assert(post48.children[k56] == post56);
                                    assert forall|k3: u64| post56.children.contains_key(
                                        k3,
                                    ) implies totals_wf(#[trigger] post56.children[k3]) by {
                                        if k3 != k64 {
                                            assert(pre56.children.contains_key(k3));
                                            assert(totals_wf(pre56.children[k3]));
                                        }
                                    }
                                }
                            }
                        }
                    }
                }
                p48 && p56 && p64
            },
        }
    }

    /// Drop every tracked group that holds no information any more: a group
    /// (and, for IPv6, its whole subtree) whose every bucket would be back
    /// at full capacity if advanced to `now` behaves, if recreated later,
    /// exactly like the stored one, so it is removed to bound memory.
    pub fn remove_full_buckets(&mut self, now: InstantSecs)
        requires
            old(self).wf(),
        ensures
            final(self).wf(),
            final(self).configs() == old(self).configs(),
            final(self).v4() == Map::new(
                |k: u64|
                    old(self).v4().contains_key(k) && !spec_all_full(
                        old(self).v4()[k],
                        now,
                        old(self).configs(),
                    ),
                |k: u64| old(self).v4()[k],
            ),
            final(self).v6() == Map::new(
                |k: u64|
                    old(self).v6().contains_key(k) && spec_keep_outer(
                        old(self).v6()[k],
                        now,
                        old(self).configs(),
                    ),
                |k: u64| spec_gc_outer(old(self).v6()[k], now, old(self).configs()),
            ),
    {
        let cfgs = self.bucket_configs;
        let ghost v4_0 = self.ipv4_buckets@;
        let ghost v6_0 = self.ipv6_buckets@;
        proof {
            assert forall|k: u64| v4_0.contains_key(k) implies totals_wf(#[trigger] v4_0[k]) by {
                assert(old(self).v4().contains_key(k));
                assert(totals_wf(old(self).v4()[k]));
            }
            assert forall|k: u64| v6_0.contains_key(k) implies outer_wf(#[trigger] v6_0[k]) by {
                assert(old(self).v6().contains_key(k));
                assert(outer_wf(old(self).v6()[k]));
            }
        }

        let mut rem4: AssocMap<InnerGroup> = AssocMap::new();
        std::mem::swap(&mut rem4, &mut self.ipv4_buckets);
        let mut kept4: AssocMap<InnerGroup> = AssocMap::new();
        loop
            invariant
                configs_wf(cfgs),
                forall|k: u64| #[trigger]
                    rem4@.contains_key(k) ==> v4_0.contains_key(k) && rem4@[k] == v4_0[k],
                forall|k: u64| v4_0.contains_key(k) ==> totals_wf(#[trigger] v4_0[k]),
                kept4@ =~= Map::new(
                    |k: u64|
                        v4_0.contains_key(k) && !rem4@.contains_key(k) && !spec_all_full(
                            v4_0[k],
                            now,
                            cfgs,
                        ),
                    |k: u64| v4_0[k],
                ),
            ensures
                kept4@ =~= Map::new(
                    |k: u64| v4_0.contains_key(k) && !spec_all_full(v4_0[k], now, cfgs),
                    |k: u64| v4_0[k],
                ),
            decreases rem4.size(),
        {
            match rem4.pop() {
                None => {
                    break ;
                },
                Some((k, g)) => {
                    if !all_buckets_full(&g.total, now, &cfgs) {
                        kept4.insert(k, g);
                    }
                    proof {
                        assert(kept4@ =~= Map::new(
                            |k2: u64|
                                v4_0.contains_key(k2) && !rem4@.contains_key(k2) && !spec_all_full(
                                    v4_0[k2],
                                    now,
                                    cfgs,
                                ),
                            |k2: u64| v4_0[k2],
                        ));
                    }
                },
            }
        }
        self.ipv4_buckets = kept4;

        let mut rem6: AssocMap<OuterGroup> = AssocMap::new();
        std::mem::swap(&mut rem6, &mut self.ipv6_buckets);
        let mut kept6: AssocMap<OuterGroup> = AssocMap::new();
        loop
            invariant
                configs_wf(cfgs),
                forall|k: u64| #[trigger]
                    rem6@.contains_key(k) ==> v6_0.contains_key(k) && rem6@[k] == v6_0[k],
                forall|k: u64| v6_0.contains_key(k) ==> outer_wf(#[trigger] v6_0[k]),
                kept6@ =~= Map::new(
                    |k: u64|
                        v6_0.contains_key(k) && !rem6@.contains_key(k) && spec_keep_outer(
                            v6_0[k],
                            now,
                            cfgs,
                        ),
                    |k: u64| spec_gc_outer(v6_0[k], now, cfgs),
                ),
                forall|k: u64| #[trigger]
                    kept6@.contains_key(k) ==> outer_wf(kept6@[k]),
            ensures
                kept6@ =~= Map::new(
                    |k: u64| v6_0.contains_key(k) && spec_keep_outer(v6_0[k], now, cfgs),
                    |k: u64| spec_gc_outer(v6_0[k], now, cfgs),
                ),
                forall|k: u64| #[trigger] kept6@.contains_key(k) ==> outer_wf(kept6@[k]),
            decreases rem6.size(),
        {
            match rem6.pop() {
                None => {
                    break ;
                },
                Some((k, g)) => {
                    let mut g = g;
                    g.remove_full(now, &cfgs);
                    let no_children = g.children.is_empty();
                    let totals_full = all_buckets_full(&g.total, now, &cfgs);
                    if !no_children || !totals_full {
                        proof {
                            assert(spec_keep_outer(v6_0[k], now, cfgs));
                        }
                        kept6.insert(k, g);
                    } else {
                        proof {
                            assert(!spec_keep_outer(v6_0[k], now, cfgs));
                        }
                    }
                    proof {
                        assert(kept6@ =~= Map::new(
                            |k2: u64|
                                v6_0.contains_key(k2) && !rem6@.contains_key(k2)
                                    && spec_keep_outer(v6_0[k2], now, cfgs),
                            |k2: u64| spec_gc_outer(v6_0[k2], now, cfgs),
                        ));
                    }
                },
            }
        }
        self.ipv6_buckets = kept6;
        proof {
            assert(self.v4() =~= Map::new(
                |k: u64|
                    old(self).v4().contains_key(k) && !spec_all_full(
                        old(self).v4()[k],
                        now,
                        old(self).configs(),
                    ),
                |k: u64| old(self).v4()[k],
            ));
            assert(self.v6() =~= Map::new(
                |k: u64|
                    old(self).v6().contains_key(k) && spec_keep_outer(
                        old(self).v6()[k],
                        now,
                        old(self).configs(),
                    ),
                |k: u64| spec_gc_outer(old(self).v6()[k], now, old(self).configs()),
            ));
        }
    }
}

} // verus!
