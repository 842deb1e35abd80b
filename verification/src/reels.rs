//! Carriers for short-video interactions and processing.

use vstd::prelude::*;

verus! {

/// A comment on a reel.
pub struct CreateReelCommentRequest {
    pub content: String,
    pub parent_comment_id: Option<String>,
}

/// A share of a reel.
pub struct CreateReelShareRequest {
    pub platform: String,
    pub share_type: String,
}

/// A duet against a reel.
pub struct CreateReelDuetRequest {
    pub original_reel_id: String,
    pub duet_type: String,
}

/// A moderation action on a reel.
pub struct ModerateReelRequest {
    pub action: String,
    pub reason: Option<String>,
    pub notes: Option<String>,
    pub after_description: Option<String>,
}

/// A transcoding job for a reel.
pub struct CreateReelTranscodingJobRequest {
    pub reel_id: String,
    pub target_qualities: Vec<String>,
}

} // verus!
