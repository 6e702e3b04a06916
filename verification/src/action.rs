//! The closed set of rate-limited action categories, and a dense mapping
//! from categories to values.

use vstd::prelude::*;

verus! {

/// One category of rate-limited operation. Every category owns exactly one
/// token bucket in each bucket group.
#[derive(Clone, Copy, Debug, PartialEq, Eq, Structural)]
pub enum ActionType {
    Message,
    Register,
    Post,
    Image,
    Comment,
    Search,
    ImportUserSettings,
}

/// A total mapping from `ActionType` to `T`, stored densely as one field per
/// category so that access is O(1) and exhaustiveness is checked at compile
/// time.
#[derive(Clone, Copy, Debug, PartialEq, Eq, Structural)]
pub struct ActionMap<T> {
    pub message: T,
    pub register: T,
    pub post: T,
    pub image: T,
    pub comment: T,
    pub search: T,
    pub import_user_settings: T,
}

impl<T> ActionMap<T> {
    /// The value held for `action`.
    pub open spec fn spec_index(self, action: ActionType) -> T {
        match action {
            ActionType::Message => self.message,
            ActionType::Register => self.register,
            ActionType::Post => self.post,
            ActionType::Image => self.image,
            ActionType::Comment => self.comment,
            ActionType::Search => self.search,
            ActionType::ImportUserSettings => self.import_user_settings,
        }
    }

    /// The mapping with the entry for `action` replaced by `value`.
    pub open spec fn spec_update(self, action: ActionType, value: T) -> ActionMap<T> {
        match action {
            ActionType::Message => ActionMap { message: value, ..self },
            ActionType::Register => ActionMap { register: value, ..self },
            ActionType::Post => ActionMap { post: value, ..self },
            ActionType::Image => ActionMap { image: value, ..self },
            ActionType::Comment => ActionMap { comment: value, ..self },
            ActionType::Search => ActionMap { search: value, ..self },
            ActionType::ImportUserSettings => ActionMap { import_user_settings: value, ..self },
        }
    }
}

impl<T: Copy> ActionMap<T> {
    /// Read the value held for `action`.
    pub fn get(&self, action: ActionType) -> (r: T)
        ensures
            r == self.spec_index(action),
    {
        match action {
            ActionType::Message => self.message,
            ActionType::Register => self.register,
            ActionType::Post => self.post,
            ActionType::Image => self.image,
            ActionType::Comment => self.comment,
            ActionType::Search => self.search,
            ActionType::ImportUserSettings => self.import_user_settings,
        }
    }

    /// Replace the value held for `action`.
    pub fn set(&mut self, action: ActionType, value: T)
        ensures
            *final(self) == old(self).spec_update(action, value),
    {
        match action {
            ActionType::Message => self.message = value,
            ActionType::Register => self.register = value,
            ActionType::Post => self.post = value,
            ActionType::Image => self.image = value,
            ActionType::Comment => self.comment = value,
            ActionType::Search => self.search = value,
            ActionType::ImportUserSettings => self.import_user_settings = value,
        }
    }
}

} // verus!
