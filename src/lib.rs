//! Collects a user's activity feed from a code-hosting platform, groups the
//! events by repository and by the issue, pull request or commit they concern,
//! and renders the grouping as markdown.

pub mod timestamp;
pub mod json;
pub mod text;
pub mod activity;
pub mod event;
pub mod client;
pub mod dateutil;
pub mod markdown;
