//! Carriers for event attendance and the calendar.

use vstd::prelude::*;

verus! {

/// An attendance answer.
pub struct RSVPRequest {
    pub status: String,
    pub notes: Option<String>,
}

/// A check-in at the door.
pub struct CheckInRequest {
    pub user_id: String,
    pub attended: bool,
}

/// How an event listing is narrowed.
pub struct EventFilter {
    pub status: Option<String>,
    pub category: Option<String>,
    pub location_type: Option<String>,
    pub event_type: Option<String>,
    pub organizer: Option<String>,
    pub date_from: Option<String>,
    pub date_to: Option<String>,
    pub search: Option<String>,
    pub sort_by: Option<String>,
    pub sort_order: Option<String>,
    pub page: Option<i64>,
    pub limit: Option<i64>,
}

/// Attendance counts per answer.
pub struct RSVPStats {
    pub interested: i32,
    pub going: i32,
    pub maybe: i32,
    pub not_going: i32,
}

/// One event on the calendar.
pub struct CalendarEvent {
    pub id: String,
    pub title: String,
    pub start: String,
    pub end: String,
    pub category: String,
    pub location: String,
    pub status: String,
    pub attendees: i32,
    pub max_attendees: Option<i32>,
}

/// Counts over the calendar.
pub struct CalendarSummary {
    pub total_events: i32,
    pub upcoming_events: i32,
    pub ongoing_events: i32,
    pub completed_events: i32,
    pub total_attendees: i32,
}

/// The calendar with its summary.
pub struct EventCalendarResponse {
    pub events: Vec<CalendarEvent>,
    pub summary: CalendarSummary,
}

} // verus!
