//! Carriers for profile edits.

use vstd::prelude::*;

verus! {

/// Links a profile shows.
pub struct SocialLinks {
    pub instagram: Option<String>,
    pub tiktok: Option<String>,
    pub youtube: Option<String>,
    pub twitter: Option<String>,
    pub other: Option<String>,
}

/// Edits to one's own profile.
pub struct UpdateProfileRequest {
    pub full_name: Option<String>,
    pub bio: Option<String>,
    pub avatar_url: Option<String>,
    pub school: Option<String>,
    pub year_of_study: Option<i32>,
    pub age: Option<i32>,
    pub gender: Option<String>,
    pub social_links: Option<SocialLinks>,
    pub public_key: Option<String>,
}

} // verus!
