//! Bucket groups: one token bucket per action category, grouped per network
//! key, with the three concretely-shaped nesting levels used for IPv6
//! prefixes (/48 holding /56 holding /64).

use vstd::prelude::*;

use crate::action::{ActionMap, ActionType};
use crate::assoc::AssocMap;
use crate::bucket::{spec_saturating_scale, Bucket, BucketConfig, InstantSecs};

verus! {

/// Every bucket of the mapping holds a non-negative token count.
pub open spec fn totals_wf(t: ActionMap<Bucket>) -> bool {
    forall|a: ActionType| (#[trigger] t.spec_index(a)).wf()
}

/// Every configuration of the mapping is usable.
pub open spec fn configs_wf(c: ActionMap<BucketConfig>) -> bool {
    forall|a: ActionType| (#[trigger] c.spec_index(a)).wf()
}

/// One fresh bucket per action category, each at the full capacity of its
/// configuration as of `now`.
pub open spec fn spec_fresh_totals(
    now: InstantSecs,
    configs: ActionMap<BucketConfig>,
) -> ActionMap<Bucket> {
    ActionMap {
        message: Bucket::spec_full(now, configs.message),
        register: Bucket::spec_full(now, configs.register),
        post: Bucket::spec_full(now, configs.post),
        image: Bucket::spec_full(now, configs.image),
        comment: Bucket::spec_full(now, configs.comment),
        search: Bucket::spec_full(now, configs.search),
        import_user_settings: Bucket::spec_full(now, configs.import_user_settings),
    }
}

/// Each fresh bucket is the full bucket of its own configuration.
pub proof fn lemma_fresh_totals_pointwise(
    now: InstantSecs,
    configs: ActionMap<BucketConfig>,
    a: ActionType,
)
    ensures
        spec_fresh_totals(now, configs).spec_index(a) == Bucket::spec_full(
            now,
            configs.spec_index(a),
        ),
{
    match a {
        ActionType::Message => {},
        ActionType::Register => {},
        ActionType::Post => {},
        ActionType::Image => {},
        ActionType::Comment => {},
        ActionType::Search => {},
        ActionType::ImportUserSettings => {},
    }
}

/// Build one fresh bucket per action category as of `now`.
pub fn fresh_totals(now: InstantSecs, configs: &ActionMap<BucketConfig>) -> (r: ActionMap<Bucket>)
    requires
        configs_wf(*configs),
    ensures
        r == spec_fresh_totals(now, *configs),
        totals_wf(r),
{
    let r = ActionMap {
        message: Bucket { last_checked: now, tokens: configs.message.capacity },
        register: Bucket { last_checked: now, tokens: configs.register.capacity },
        post: Bucket { last_checked: now, tokens: configs.post.capacity },
        image: Bucket { last_checked: now, tokens: configs.image.capacity },
        comment: Bucket { last_checked: now, tokens: configs.comment.capacity },
        search: Bucket { last_checked: now, tokens: configs.search.capacity },
        import_user_settings: Bucket {
            last_checked: now,
            tokens: configs.import_user_settings.capacity,
        },
    };
    proof {
        assert forall|a: ActionType| (#[trigger] r.spec_index(a)).wf() by {
            lemma_fresh_totals_pointwise(now, *configs, a);
            assert(configs.spec_index(a).wf());
        }
    }
    r
}

/// The per-action configurations with every capacity multiplied by `factor`
/// (saturating), leaving refill intervals unchanged.
pub open spec fn spec_scale_configs(
    c: ActionMap<BucketConfig>,
    factor: int,
) -> ActionMap<BucketConfig> {
    ActionMap {
        message: spec_scale_config(c.message, factor),
        register: spec_scale_config(c.register, factor),
        post: spec_scale_config(c.post, factor),
        image: spec_scale_config(c.image, factor),
        comment: spec_scale_config(c.comment, factor),
        search: spec_scale_config(c.search, factor),
        import_user_settings: spec_scale_config(c.import_user_settings, factor),
    }
}

/// One configuration with its capacity multiplied by `factor`, saturating.
pub open spec fn spec_scale_config(c: BucketConfig, factor: int) -> BucketConfig {
    BucketConfig {
        capacity: spec_saturating_scale(c.capacity as int, factor) as i32,
        secs_to_refill: c.secs_to_refill,
    }
}

/// Scaling distributes over the categories.
pub proof fn lemma_scale_configs_pointwise(c: ActionMap<BucketConfig>, factor: int, a: ActionType)
    ensures
        spec_scale_configs(c, factor).spec_index(a) == spec_scale_config(c.spec_index(a), factor),
{
    match a {
        ActionType::Message => {},
        ActionType::Register => {},
        ActionType::Post => {},
        ActionType::Image => {},
        ActionType::Comment => {},
        ActionType::Search => {},
        ActionType::ImportUserSettings => {},
    }
}

/// Multiply every capacity of `c` by `factor`, saturating.
pub fn scale_configs(c: &ActionMap<BucketConfig>, factor: i32) -> (r: ActionMap<BucketConfig>)
    requires
        configs_wf(*c),
        factor >= 1,
    ensures
        r == spec_scale_configs(*c, factor as int),
        configs_wf(r),
{
    proof {
        assert(c.spec_index(ActionType::Message).wf());
        assert(c.spec_index(ActionType::Register).wf());
        assert(c.spec_index(ActionType::Post).wf());
        assert(c.spec_index(ActionType::Image).wf());
        assert(c.spec_index(ActionType::Comment).wf());
        assert(c.spec_index(ActionType::Search).wf());
        assert(c.spec_index(ActionType::ImportUserSettings).wf());
    }
    let r = ActionMap {
        message: c.message.multiply_capacity(factor),
        register: c.register.multiply_capacity(factor),
        post: c.post.multiply_capacity(factor),
        image: c.image.multiply_capacity(factor),
        comment: c.comment.multiply_capacity(factor),
        search: c.search.multiply_capacity(factor),
        import_user_settings: c.import_user_settings.multiply_capacity(factor),
    };
    proof {
        assert forall|a: ActionType| (#[trigger] r.spec_index(a)).wf() by {
            lemma_scale_configs_pointwise(*c, factor as int, a);
            assert(c.spec_index(a).wf());
        }
    }
    r
}

/// The outcome of checking `action` against the bucket mapping `t` at `now`:
/// the bucket is first advanced to `now`; if it would then hold no token the
/// check fails and the stored mapping is left exactly as it was, otherwise
/// the advanced bucket is stored with one token consumed.
pub open spec fn spec_check_total(
    t: ActionMap<Bucket>,
    action: ActionType,
    now: InstantSecs,
    config: BucketConfig,
) -> (bool, ActionMap<Bucket>) {
    let updated = t.spec_index(action).spec_update(now, config);
    if updated.tokens == 0 {
        (false, t)
    } else {
        (
            true,
            t.spec_update(
                action,
                Bucket { last_checked: now, tokens: (updated.tokens - 1) as i32 },
            ),
        )
    }
}

impl ActionMap<Bucket> {
    /// Admit or reject one `action` at `now`, consuming one token on
    /// admission and leaving the mapping untouched on rejection.
    pub fn check_total(
        &mut self,
        action: ActionType,
        now: InstantSecs,
        config: BucketConfig,
    ) -> (passed: bool)
        requires
            config.wf(),
            totals_wf(*old(self)),
        ensures
            ({
                let (p, t) = spec_check_total(*old(self), action, now, config);
                passed == p && *final(self) == t
            }),
            totals_wf(*final(self)),
    {
        let bucket = self.get(action);
        let updated = bucket.update(now, config);
        if updated.tokens == 0 {
            false
        } else {
            self.set(action, Bucket { last_checked: now, tokens: updated.tokens - 1 });
            proof {
                assert forall|a: ActionType| (#[trigger] self.spec_index(a)).wf() by {
                    assert(old(self).spec_index(a).wf());
                }
            }
            true
        }
    }
}

/// Whether `b`, advanced to `now`, would hold its full capacity again (so
/// that forgetting it loses nothing).
pub open spec fn spec_bucket_full(b: Bucket, now: InstantSecs, config: BucketConfig) -> bool {
    b.spec_update(now, config).tokens == config.capacity
}

/// Whether every bucket of `t` would be full again at `now`.
pub open spec fn spec_all_full(
    t: ActionMap<Bucket>,
    now: InstantSecs,
    configs: ActionMap<BucketConfig>,
) -> bool {
    forall|a: ActionType| spec_bucket_full(#[trigger] t.spec_index(a), now, configs.spec_index(a))
}

fn bucket_full(b: Bucket, now: InstantSecs, config: BucketConfig) -> (r: bool)
    requires
        config.wf(),
        b.wf(),
    ensures
        r == spec_bucket_full(b, now, config),
{
    b.update(now, config).tokens == config.capacity
}

/// Whether every bucket of `t` would be full again at `now`.
pub fn all_buckets_full(
    t: &ActionMap<Bucket>,
    now: InstantSecs,
    configs: &ActionMap<BucketConfig>,
) -> (r: bool)
    requires
        totals_wf(*t),
        configs_wf(*configs),
    ensures
        r == spec_all_full(*t, now, *configs),
{
    proof {
        assert(t.spec_index(ActionType::Message).wf());
        assert(t.spec_index(ActionType::Register).wf());
        assert(t.spec_index(ActionType::Post).wf());
        assert(t.spec_index(ActionType::Image).wf());
        assert(t.spec_index(ActionType::Comment).wf());
        assert(t.spec_index(ActionType::Search).wf());
        assert(t.spec_index(ActionType::ImportUserSettings).wf());
        assert(configs.spec_index(ActionType::Message).wf());
        assert(configs.spec_index(ActionType::Register).wf());
        assert(configs.spec_index(ActionType::Post).wf());
        assert(configs.spec_index(ActionType::Image).wf());
        assert(configs.spec_index(ActionType::Comment).wf());
        assert(configs.spec_index(ActionType::Search).wf());
        assert(configs.spec_index(ActionType::ImportUserSettings).wf());
    }
    let r = bucket_full(t.message, now, configs.message) && bucket_full(
        t.register,
        now,
        configs.register,
    ) && bucket_full(t.post, now, configs.post) && bucket_full(t.image, now, configs.image)
        && bucket_full(t.comment, now, configs.comment) && bucket_full(
        t.search,
        now,
        configs.search,
    ) && bucket_full(t.import_user_settings, now, configs.import_user_settings);
    proof {
        if r {
            assert forall|a: ActionType|
                spec_bucket_full(
                    #[trigger] t.spec_index(a),
                    now,
                    configs.spec_index(a),
                ) by {
                match a {
                    ActionType::Message => {},
                    ActionType::Register => {},
                    ActionType::Post => {},
                    ActionType::Image => {},
                    ActionType::Comment => {},
                    ActionType::Search => {},
                    ActionType::ImportUserSettings => {},
                }
            }
        }
    }
    r
}

/// The innermost level: the buckets shared by one IPv4 address or one IPv6
/// /64 prefix. It has no children.
pub struct InnerGroup {
    pub total: ActionMap<Bucket>,
}

impl View for InnerGroup {
    type V = ActionMap<Bucket>;

    open spec fn view(&self) -> ActionMap<Bucket> {
        self.total
    }
}

impl InnerGroup {
    /// A fresh group at full capacity as of `now`.
    pub fn new(now: InstantSecs, configs: &ActionMap<BucketConfig>) -> (r: Self)
        requires
            configs_wf(*configs),
        ensures
            r@ == spec_fresh_totals(now, *configs),
            totals_wf(r@),
    {
        InnerGroup { total: fresh_totals(now, configs) }
    }
}

/// The abstract content of a /56 group: its own buckets plus the buckets of
/// its surviving /64 children.
#[verifier::ext_equal]
pub struct MiddleModel {
    pub total: ActionMap<Bucket>,
    pub children: Map<u64, ActionMap<Bucket>>,
}

/// Every bucket of the group and of its children is well formed.
pub open spec fn middle_wf(m: MiddleModel) -> bool {
    &&& totals_wf(m.total)
    &&& forall|k: u64| m.children.contains_key(k) ==> totals_wf(#[trigger] m.children[k])
}

/// The middle level: the buckets shared by one IPv6 /56 prefix, with one
/// child group per /64 prefix under it.
pub struct MiddleGroup {
    pub total: ActionMap<Bucket>,
    pub children: AssocMap<InnerGroup>,
}

impl View for MiddleGroup {
    type V = MiddleModel;

    open spec fn view(&self) -> MiddleModel {
        MiddleModel { total: self.total, children: self.children@ }
    }
}

impl MiddleGroup {
    /// A fresh childless group at full capacity as of `now`.
    pub fn new(now: InstantSecs, configs: &ActionMap<BucketConfig>) -> (r: Self)
        requires
            configs_wf(*configs),
        ensures
            r@ == (MiddleModel {
                total: spec_fresh_totals(now, *configs),
                children: Map::empty(),
            }),
            middle_wf(r@),
    {
        MiddleGroup { total: fresh_totals(now, configs), children: AssocMap::new() }
    }
}

/// The abstract content of a /48 group: its own buckets plus the models of
/// its surviving /56 children.
#[verifier::ext_equal]
pub struct OuterModel {
    pub total: ActionMap<Bucket>,
    pub children: Map<u64, MiddleModel>,
}

/// Every bucket of the group and of its descendants is well formed.
pub open spec fn outer_wf(m: OuterModel) -> bool {
    &&& totals_wf(m.total)
    &&& forall|k: u64| m.children.contains_key(k) ==> middle_wf(#[trigger] m.children[k])
}

/// The outer level: the buckets shared by one IPv6 /48 prefix, with one
/// child group per /56 prefix under it.
pub struct OuterGroup {
    pub total: ActionMap<Bucket>,
    pub children: AssocMap<MiddleGroup>,
}

impl View for OuterGroup {
    type V = OuterModel;

    open spec fn view(&self) -> OuterModel {
        OuterModel { total: self.total, children: self.children@ }
    }
}

impl OuterGroup {
    /// A fresh childless group at full capacity as of `now`.
    pub fn new(now: InstantSecs, configs: &ActionMap<BucketConfig>) -> (r: Self)
        requires
            configs_wf(*configs),
        ensures
            r@ == (OuterModel { total: spec_fresh_totals(now, *configs), children: Map::empty() }),
            outer_wf(r@),
    {
        OuterGroup { total: fresh_totals(now, configs), children: AssocMap::new() }
    }
}

/// The /56 group after garbage collection: its own buckets stay; exactly the
/// /64 children whose buckets would all be full again are dropped.
pub open spec fn spec_gc_middle(
    m: MiddleModel,
    now: InstantSecs,
    configs: ActionMap<BucketConfig>,
) -> MiddleModel {
    MiddleModel {
        total: m.total,
        children: Map::new(
            |k: u64| m.children.contains_key(k) && !spec_all_full(m.children[k], now, configs),
            |k: u64| m.children[k],
        ),
    }
}

/// Whether a /56 group survives garbage collection: it keeps a child, or its
/// own buckets are not all full yet.
pub open spec fn spec_keep_middle(
    m: MiddleModel,
    now: InstantSecs,
    configs: ActionMap<BucketConfig>,
) -> bool {
    ||| spec_gc_middle(m, now, configs).children != Map::<u64, ActionMap<Bucket>>::empty()
    ||| !spec_all_full(m.total, now, configs)
}

/// The /48 group after garbage collection: children are pruned bottom-up and
/// exactly the /56 children that survive are kept.
pub open spec fn spec_gc_outer(
    m: OuterModel,
    now: InstantSecs,
    configs: ActionMap<BucketConfig>,
) -> OuterModel {
    OuterModel {
        total: m.total,
        children: Map::new(
            |k: u64| m.children.contains_key(k) && spec_keep_middle(m.children[k], now, configs),
            |k: u64| spec_gc_middle(m.children[k], now, configs),
        ),
    }
}

/// Whether a /48 group survives garbage collection.
pub open spec fn spec_keep_outer(
    m: OuterModel,
    now: InstantSecs,
    configs: ActionMap<BucketConfig>,
) -> bool {
    ||| spec_gc_outer(m, now, configs).children != Map::<u64, MiddleModel>::empty()
    ||| !spec_all_full(m.total, now, configs)
}

impl MiddleGroup {
    /// Drop every /64 child whose buckets would all be full again at `now`.
    pub fn remove_full(&mut self, now: InstantSecs, configs: &ActionMap<BucketConfig>)
        requires
            configs_wf(*configs),
            middle_wf(old(self)@),
        ensures
            final(self)@ == spec_gc_middle(old(self)@, now, *configs),
            middle_wf(final(self)@),
    {
        let ghost c0 = self.children@;
        proof {
            assert forall|k: u64| c0.contains_key(k) implies totals_wf(#[trigger] c0[k]) by {
                assert(old(self)@.children.contains_key(k));
                assert(totals_wf(old(self)@.children[k]));
            }
        }
        let mut rem: AssocMap<InnerGroup> = AssocMap::new();
        std::mem::swap(&mut rem, &mut self.children);
        let mut kept: AssocMap<InnerGroup> = AssocMap::new();
        loop
            invariant
                configs_wf(*configs),
                forall|k: u64| #[trigger]
                    rem@.contains_key(k) ==> c0.contains_key(k) && rem@[k] == c0[k],
                forall|k: u64| c0.contains_key(k) ==> totals_wf(#[trigger] c0[k]),
                kept@ =~= Map::new(
                    |k: u64|
                        c0.contains_key(k) && !rem@.contains_key(k) && !spec_all_full(
                            c0[k],
                            now,
                            *configs,
                        ),
                    |k: u64| c0[k],
                ),
            ensures
                kept@ =~= Map::new(
                    |k: u64| c0.contains_key(k) && !spec_all_full(c0[k], now, *configs),
                    |k: u64| c0[k],
                ),
            decreases rem.size(),
        {
            match rem.pop() {
                None => {
                    break ;
                },
                Some((k, g)) => {
                    let ghost rem_pre = rem@.insert(k, c0[k]);
                    if !all_buckets_full(&g.total, now, configs) {
                        kept.insert(k, g);
                    }
                    proof {
                        assert(kept@ =~= Map::new(
                            |k2: u64|
                                c0.contains_key(k2) && !rem@.contains_key(k2) && !spec_all_full(
                                    c0[k2],
                                    now,
                                    *configs,
                                ),
                            |k2: u64| c0[k2],
                        ));
                    }
                },
            }
        }
        self.children = kept;
        proof {
            assert(self@.children =~= spec_gc_middle(old(self)@, now, *configs).children);
            assert(self@ =~= spec_gc_middle(old(self)@, now, *configs));
        }
    }
}

impl OuterGroup {
    /// Prune this group's /56 children bottom-up: each child first drops its
    /// own full /64 children, then survives only if it kept a child or its
    /// own buckets are not all full yet.
    pub fn remove_full(&mut self, now: InstantSecs, configs: &ActionMap<BucketConfig>)
        requires
            configs_wf(*configs),
            outer_wf(old(self)@),
        ensures
            final(self)@ == spec_gc_outer(old(self)@, now, *configs),
            outer_wf(final(self)@),
    {
        let ghost c0 = self.children@;
        proof {
            assert forall|k: u64| c0.contains_key(k) implies middle_wf(#[trigger] c0[k]) by {
                assert(old(self)@.children.contains_key(k));
                assert(middle_wf(old(self)@.children[k]));
            }
        }
        let mut rem: AssocMap<MiddleGroup> = AssocMap::new();
        std::mem::swap(&mut rem, &mut self.children);
        let mut kept: AssocMap<MiddleGroup> = AssocMap::new();
        loop
            invariant
                configs_wf(*configs),
                forall|k: u64| #[trigger]
                    rem@.contains_key(k) ==> c0.contains_key(k) && rem@[k] == c0[k],
                forall|k: u64| c0.contains_key(k) ==> middle_wf(#[trigger] c0[k]),
                kept@ =~= Map::new(
                    |k: u64|
                        c0.contains_key(k) && !rem@.contains_key(k) && spec_keep_middle(
                            c0[k],
                            now,
                            *configs,
                        ),
                    |k: u64| spec_gc_middle(c0[k], now, *configs),
                ),
            ensures
                kept@ =~= Map::new(
                    |k: u64| c0.contains_key(k) && spec_keep_middle(c0[k], now, *configs),
                    |k: u64| spec_gc_middle(c0[k], now, *configs),
                ),
            decreases rem.size(),
        {
            match rem.pop() {
                None => {
                    break ;
                },
                Some((k, g)) => {
                    let mut g = g;
                    g.remove_full(now, configs);
                    let no_children = g.children.is_empty();
                    let totals_full = all_buckets_full(&g.total, now, configs);
                    if !no_children || !totals_full {
                        proof {
                            assert(spec_keep_middle(c0[k], now, *configs));
                        }
                        kept.insert(k, g);
                    } else {
                        proof {
                            assert(!spec_keep_middle(c0[k], now, *configs));
                        }
                    }
                    proof {
                        assert(kept@ =~= Map::new(
                            |k2: u64|
                                c0.contains_key(k2) && !rem@.contains_key(k2) && spec_keep_middle(
                                    c0[k2],
                                    now,
                                    *configs,
                                ),
                            |k2: u64| spec_gc_middle(c0[k2], now, *configs),
                        ));
                    }
                },
            }
        }
        self.children = kept;
        proof {
            assert(self@.children =~= spec_gc_outer(old(self)@, now, *configs).children);
            assert(self@ =~= spec_gc_outer(old(self)@, now, *configs));
        }
    }
}

} // verus!
