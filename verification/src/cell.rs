//! The shared, lock-protected rate limiter and its per-action checkers.
//!
//! One `RateLimitCell` is constructed at process start and handed (cloned)
//! to every request-handling context; all of them share one lock-protected
//! `RateLimitStorage`. A periodic caller invokes `remove_full_buckets`; the
//! scheduling of that sweep, like all I/O, lives outside this crate.

use vstd::prelude::*;
use vstd::rwlock::{RwLock, RwLockPredicate};

use std::sync::Arc;

use crate::action::ActionType;
use crate::bucket::InstantSecs;
use crate::config::RateLimitConfig;
use crate::ip::IpAddr;
use crate::storage::RateLimitStorage;

verus! {

/// The lock invariant of the shared storage: it is always well formed.
pub struct StoragePred {}

impl RwLockPredicate<RateLimitStorage> for StoragePred {
    open spec fn inv(self, v: RateLimitStorage) -> bool {
        v.wf()
    }
}

/// Single instance of rate limit config and buckets, shared across all
/// request-handling tasks.
#[derive(Clone)]
pub struct RateLimitCell {
    state: Arc<RwLock<RateLimitStorage, StoragePred>>,
}

/// A checker for one action category, bound to the shared cell; handed to
/// the request pipeline as its admission gate.
#[derive(Clone)]
pub struct RateLimitChecker {
    state: Arc<RwLock<RateLimitStorage, StoragePred>>,
    action_type: ActionType,
}

impl RateLimitChecker {
    /// The action category this checker gates.
    pub closed spec fn spec_action_type(self) -> ActionType {
        self.action_type
    }
}

impl RateLimitCell {
    /// A fresh cell with empty bucket maps under `config`.
    pub fn new(config: RateLimitConfig) -> RateLimitCell {
        let configs = config.bucket_configs();
        let storage = RateLimitStorage::new(configs);
        RateLimitCell { state: Arc::new(RwLock::new(storage, Ghost(StoragePred {  }))) }
    }

    /// Replace the active rate parameters; tracked buckets keep their
    /// current token counts and continue under the new rates.
    pub fn set_config(&self, config: RateLimitConfig) {
        let configs = config.bucket_configs();
        let (mut storage, handle) = self.state.acquire_write();
        storage.set_config(configs);
        handle.release_write(storage);
    }

    /// Drop every tracked group whose buckets would all be full again as of
    /// `now`; meant to be called on a fixed interval, never inline with
    /// request checks.
    pub fn remove_full_buckets(&self, now: InstantSecs) {
        let (mut storage, handle) = self.state.acquire_write();
        storage.remove_full_buckets(now);
        handle.release_write(storage);
    }

    /// A checker for message sends.
    pub fn message(&self) -> (c: RateLimitChecker)
        ensures
            c.spec_action_type() == ActionType::Message,
    {
        self.new_checker(ActionType::Message)
    }

    /// A checker for post creations.
    pub fn post(&self) -> (c: RateLimitChecker)
        ensures
            c.spec_action_type() == ActionType::Post,
    {
        self.new_checker(ActionType::Post)
    }

    /// A checker for registrations.
    pub fn register(&self) -> (c: RateLimitChecker)
        ensures
            c.spec_action_type() == ActionType::Register,
    {
        self.new_checker(ActionType::Register)
    }

    /// A checker for image uploads.
    pub fn image(&self) -> (c: RateLimitChecker)
        ensures
            c.spec_action_type() == ActionType::Image,
    {
        self.new_checker(ActionType::Image)
    }

    /// A checker for comment creations.
    pub fn comment(&self) -> (c: RateLimitChecker)
        ensures
            c.spec_action_type() == ActionType::Comment,
    {
        self.new_checker(ActionType::Comment)
    }

    /// A checker for search queries.
    pub fn search(&self) -> (c: RateLimitChecker)
        ensures
            c.spec_action_type() == ActionType::Search,
    {
        self.new_checker(ActionType::Search)
    }

    /// A checker for user-settings imports.
    pub fn import_user_settings(&self) -> (c: RateLimitChecker)
        ensures
            c.spec_action_type() == ActionType::ImportUserSettings,
    {
        self.new_checker(ActionType::ImportUserSettings)
    }

    /// A checker for an arbitrary action category, bound to this cell.
    pub fn new_checker(&self, action_type: ActionType) -> (c: RateLimitChecker)
        ensures
            c.spec_action_type() == action_type,
    {
        RateLimitChecker { state: self.state.clone(), action_type }
    }
}

impl RateLimitChecker {
    /// Returns true if the request passed the rate limit, false if it
    /// failed and should be rejected.
    ///
    /// The outcome depends on the shared storage as other tasks have left
    /// it; what one check does to that storage for each possible state is
    /// the contract of [`RateLimitStorage::check`].
    pub fn check(self, ip_addr: IpAddr) -> bool {
        let now = InstantSecs::now();
        let (mut storage, handle) = self.state.acquire_write();
        let passed = storage.check(self.action_type, ip_addr, now);
        handle.release_write(storage);
        passed
    }
}

} // verus!
