//! Rows read by the item feature service.

use vstd::prelude::*;

verus! {

/// An item the user has watched.
pub struct WatchedItemRow {
    pub item_id: i32,
}

/// A user's content preferences.
pub struct UserContentPreferencesRow {
    pub allow_explicit: Option<bool>,
    pub allow_violence: Option<bool>,
    pub allow_language: Option<bool>,
    pub allow_drugs: Option<bool>,
}

/// A subset of a user's profile.
pub struct UserProfileRow {
    pub segment: Option<String>,
    pub subscription_tier: Option<String>,
}

} // verus!
