//! Analytics for a blog: user-agent classification, session tokens,
//! date-range resolution and the aggregations behind the stats pages.
pub mod api;
pub mod auth;
pub mod classify;
pub mod clock;
pub mod dashboard;
pub mod dates;
pub mod models;
pub mod stats;
pub mod text;
pub mod timeline;
