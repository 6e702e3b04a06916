//! The user-facing configuration: a capacity and a refill interval for each
//! action category, with the defaults the server ships with.

use vstd::prelude::*;

use crate::action::ActionMap;
use crate::bucket::BucketConfig;
use crate::group::configs_wf;

verus! {

/// Rate parameters as named integer pairs: for each action category, the
/// number of actions allowed per interval and the interval length in
/// seconds.
#[derive(Clone, Copy, Debug, PartialEq, Eq, Structural)]
pub struct RateLimitConfig {
    /// Maximum number of messages created in interval
    pub message: i32,
    /// Interval length for message limit, in seconds
    pub message_per_second: i32,
    /// Maximum number of posts created in interval
    pub post: i32,
    /// Interval length for post limit, in seconds
    pub post_per_second: i32,
    /// Maximum number of registrations in interval
    pub register: i32,
    /// Interval length for registration limit, in seconds
    pub register_per_second: i32,
    /// Maximum number of image uploads in interval
    pub image: i32,
    /// Interval length for image uploads, in seconds
    pub image_per_second: i32,
    /// Maximum number of comments created in interval
    pub comment: i32,
    /// Interval length for comment limit, in seconds
    pub comment_per_second: i32,
    /// Maximum number of searches created in interval
    pub search: i32,
    /// Interval length for search limit, in seconds
    pub search_per_second: i32,
    /// Maximum number of user settings imports in interval
    pub import_user_settings: i32,
    /// Interval length for importing user settings, in seconds
    pub import_user_settings_per_second: i32,
}

/// One bucket configuration from a raw pair, validated at load time: a
/// negative capacity becomes zero, and a non-positive interval becomes one
/// second (the interval is divided by, so zero would be unusable).
pub open spec fn spec_clamped_config(capacity: i32, secs_to_refill: i32) -> BucketConfig {
    BucketConfig {
        capacity: if capacity >= 0 {
            capacity
        } else {
            0
        },
        secs_to_refill: if secs_to_refill >= 1 {
            secs_to_refill
        } else {
            1
        },
    }
}

fn clamped_config(capacity: i32, secs_to_refill: i32) -> (r: BucketConfig)
    ensures
        r == spec_clamped_config(capacity, secs_to_refill),
        r.wf(),
{
    BucketConfig {
        capacity: if capacity >= 0 {
            capacity
        } else {
            0
        },
        secs_to_refill: if secs_to_refill >= 1 {
            secs_to_refill
        } else {
            1
        },
    }
}

impl RateLimitConfig {
    /// The per-action bucket configurations this configuration stands for.
    pub open spec fn spec_bucket_configs(self) -> ActionMap<BucketConfig> {
        ActionMap {
            message: spec_clamped_config(self.message, self.message_per_second),
            register: spec_clamped_config(self.register, self.register_per_second),
            post: spec_clamped_config(self.post, self.post_per_second),
            image: spec_clamped_config(self.image, self.image_per_second),
            comment: spec_clamped_config(self.comment, self.comment_per_second),
            search: spec_clamped_config(self.search, self.search_per_second),
            import_user_settings: spec_clamped_config(
                self.import_user_settings,
                self.import_user_settings_per_second,
            ),
        }
    }

    /// Convert to per-action bucket configurations, clamping each pair so
    /// that every resulting configuration is usable.
    pub fn bucket_configs(&self) -> (r: ActionMap<BucketConfig>)
        ensures
            r == self.spec_bucket_configs(),
            configs_wf(r),
    {
        let r = ActionMap {
            message: clamped_config(self.message, self.message_per_second),
            register: clamped_config(self.register, self.register_per_second),
            post: clamped_config(self.post, self.post_per_second),
            image: clamped_config(self.image, self.image_per_second),
            comment: clamped_config(self.comment, self.comment_per_second),
            search: clamped_config(self.search, self.search_per_second),
            import_user_settings: clamped_config(
                self.import_user_settings,
                self.import_user_settings_per_second,
            ),
        };
        proof {
            assert forall|a: crate::action::ActionType|
                (#[trigger] r.spec_index(a)).wf() by {
                match a {
                    crate::action::ActionType::Message => {},
                    crate::action::ActionType::Register => {},
                    crate::action::ActionType::Post => {},
                    crate::action::ActionType::Image => {},
                    crate::action::ActionType::Comment => {},
                    crate::action::ActionType::Search => {},
                    crate::action::ActionType::ImportUserSettings => {},
                }
            }
        }
        r
    }
}

impl Default for RateLimitConfig {
    /// The stock rate parameters.
    fn default() -> (c: Self)
        ensures
            c == (RateLimitConfig {
                message: 180,
                message_per_second: 60,
                post: 6,
                post_per_second: 300,
                register: 3,
                register_per_second: 3600,
                image: 6,
                image_per_second: 3600,
                comment: 6,
                comment_per_second: 600,
                search: 60,
                search_per_second: 600,
                import_user_settings: 1,
                import_user_settings_per_second: 86400,
            }),
    {
        RateLimitConfig {
            message: 180,
            message_per_second: 60,
            post: 6,
            post_per_second: 300,
            register: 3,
            register_per_second: 3600,
            image: 6,
            image_per_second: 3600,
            comment: 6,
            comment_per_second: 600,
            search: 60,
            search_per_second: 600,
            import_user_settings: 1,
            import_user_settings_per_second: 86400,
        }
    }
}

} // verus!
