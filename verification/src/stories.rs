//! Carriers for story replies, reports and moderation.

use vstd::prelude::*;

verus! {

/// A reply to a story.
pub struct CreateStoryReplyRequest {
    pub content: String,
    pub reply_type: String,
}

/// A report against a story.
pub struct CreateStoryReportRequest {
    pub reason: String,
    pub description: Option<String>,
}

/// A moderation action on a story.
pub struct ModerateStoryRequest {
    pub action: String,
    pub reason: Option<String>,
    pub notes: Option<String>,
    pub after_caption: Option<String>,
}

} // verus!
