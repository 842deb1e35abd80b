//! Carriers for shared study rooms.

use vstd::prelude::*;

verus! {

/// A new room.
pub struct CreateRoomRequest {
    pub name: String,
    pub subject: Option<String>,
}

/// An invite with its expiry.
pub struct InviteLinkResponse {
    pub invite_link: String,
    pub expires_at: String,
}

/// One participant as shown.
pub struct ParticipantInfo {
    pub user_id: String,
    pub username: String,
    pub avatar_url: Option<String>,
}

/// A room as shown.
pub struct RoomResponse {
    pub id: String,
    pub name: String,
    pub subject: Option<String>,
    pub creator_id: String,
    pub participant_count: usize,
    pub max_participants: i32,
    pub is_active: bool,
    pub created_at: String,
    pub participants: Option<Vec<ParticipantInfo>>,
}

} // verus!
