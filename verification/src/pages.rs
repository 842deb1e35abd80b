//! Carriers for page management and its traffic figures.

use vstd::prelude::*;

verus! {

/// A new page.
pub struct CreatePageRequest {
    pub title: String,
    pub slug: String,
    pub content: String,
    pub excerpt: Option<String>,
    pub featured_image: Option<String>,
    pub meta_title: Option<String>,
    pub meta_description: Option<String>,
    pub meta_keywords: Option<Vec<String>>,
    pub status: String,
    pub visibility: String,
    pub category: Option<String>,
    pub tags: Option<Vec<String>>,
    pub template: Option<String>,
    pub redirect_url: Option<String>,
}

/// Edits to a page.
pub struct UpdatePageRequest {
    pub title: Option<String>,
    pub slug: Option<String>,
    pub content: Option<String>,
    pub excerpt: Option<String>,
    pub featured_image: Option<String>,
    pub meta_title: Option<String>,
    pub meta_description: Option<String>,
    pub meta_keywords: Option<Vec<String>>,
    pub status: Option<String>,
    pub visibility: Option<String>,
    pub category: Option<String>,
    pub tags: Option<Vec<String>>,
    pub template: Option<String>,
    pub redirect_url: Option<String>,
}

/// When a page goes live.
pub struct PublishPageRequest {
    pub publish_now: bool,
    pub scheduled_date: Option<String>,
}

/// How a page listing is narrowed.
pub struct PageFilter {
    pub status: Option<String>,
    pub visibility: Option<String>,
    pub category: Option<String>,
    pub author: Option<String>,
    pub search: Option<String>,
    pub sort_by: Option<String>,
    pub sort_order: Option<String>,
    pub page: Option<i64>,
    pub limit: Option<i64>,
}

/// Views per referrer.
pub struct ReferrerInfo {
    pub referrer: String,
    pub views: i32,
}

/// Views in one hour.
pub struct TrafficHour {
    pub hour: i32,
    pub views: i32,
}

/// Views on one day.
pub struct TrafficDay {
    pub date: String,
    pub views: i32,
}

} // verus!
