//! Carriers for the public content feed.

use vstd::prelude::*;

verus! {

/// A page of the feed.
pub struct FeedQuery {
    pub last_id: Option<String>,
    pub limit: Option<u64>,
}

/// A comment on a feed item.
pub struct CommentRequest {
    pub content: String,
    pub parent_comment_id: Option<String>,
}

} // verus!
