//! Carriers for comment creation and moderation.

use vstd::prelude::*;

verus! {

/// A new comment on some content.
pub struct CreateCommentRequest {
    pub content_id: String,
    pub content_type: String,
    pub parent_id: Option<String>,
    pub content: String,
}

/// An edit to a comment.
pub struct UpdateCommentRequest {
    pub content: String,
    pub moderation_notes: Option<String>,
}

/// A report against a comment.
pub struct ReportCommentRequest {
    pub reason: String,
    pub description: Option<String>,
}

/// A moderation action on a comment.
pub struct ModerateCommentRequest {
    pub action: String,
    pub reason: Option<String>,
    pub notes: Option<String>,
    pub after_content: Option<String>,
}

} // verus!
