//! Carriers for community groups, distinct from group chats.

use vstd::prelude::*;

verus! {

/// A new community group.
pub struct CreateGroupRequest {
    pub name: String,
    pub description: String,
    pub category: String,
    pub is_private: bool,
    pub max_members: Option<i32>,
}

/// Edits to a community group.
pub struct UpdateGroupRequest {
    pub name: Option<String>,
    pub description: Option<String>,
    pub category: Option<String>,
    pub is_private: Option<bool>,
    pub max_members: Option<i32>,
    pub avatar_url: Option<String>,
    pub cover_url: Option<String>,
}

/// A member to add.
pub struct AddMemberRequest {
    pub user_id: String,
}

/// A member to remove.
pub struct RemoveMemberRequest {
    pub user_id: String,
}

/// A member to promote.
pub struct MakeAdminRequest {
    pub user_id: String,
}

/// One member as shown.
pub struct MemberInfo {
    pub user_id: String,
    pub username: String,
    pub full_name: Option<String>,
    pub avatar_url: Option<String>,
}

/// A community group as shown.
pub struct GroupResponse {
    pub id: String,
    pub name: String,
    pub description: String,
    pub category: String,
    pub avatar_url: Option<String>,
    pub cover_url: Option<String>,
    pub creator_id: String,
    pub admins: Vec<String>,
    pub members: Vec<MemberInfo>,
    pub is_private: bool,
    pub max_members: Option<i32>,
    pub member_count: usize,
    pub created_at: String,
}

/// How a group listing is narrowed.
pub struct GroupFilter {
    pub category: Option<String>,
    pub is_private: Option<bool>,
}

} // verus!
