//! Administrative views over user accounts.

use vstd::prelude::*;

verus! {

/// How an administrator narrows the user listing.
pub struct UserFilter {
    pub role: Option<String>,
    pub verified: Option<bool>,
    pub premium: Option<bool>,
    pub search: Option<String>,
}

/// One user as the administration screens show it.
pub struct AdminUserResponse {
    pub id: String,
    pub email: String,
    pub role: String,
    pub is_verified: bool,
    pub is_premium: bool,
    pub is_banned: bool,
    pub username: Option<String>,
    pub created_at: String,
}

/// A role change.
pub struct UpdateRoleRequest {
    pub role: String,
}

/// A ban or unban.
pub struct BanUserRequest {
    pub banned: bool,
}

} // verus!
