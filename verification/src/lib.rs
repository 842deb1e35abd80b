//! Core of a social-platform backend: the real-time messaging and presence
//! engine. Durable chat and message state lives in a store whose operations
//! (send, react, vote, read receipts, view-once redaction, disappearing
//! messages, deletion, group administration) are verified against their
//! contracts, together with notification fan-out rules, a TTL-based presence
//! tracker, a connection registry and the signaling session machine.

pub mod ably;
pub mod admin;
pub mod ads;
pub mod ai;
pub mod auth;
pub mod chatlist;
pub mod chats;
pub mod comments;
pub mod content;
pub mod engine;
pub mod events;
pub mod groups;
pub mod hookup;
pub mod marketplace;
pub mod media;
pub mod model;
pub mod notify;
pub mod pages;
pub mod payments;
pub mod poll;
pub mod posts;
pub mod presence;
pub mod preview;
pub mod reels;
pub mod registry;
pub mod render;
pub mod send;
pub mod session;
pub mod store;
pub mod stories;
pub mod strutil;
pub mod study_rooms;
pub mod user;
