//! Client-side core of a profile API client: an expiring bearer-credential
//! cache that coalesces concurrent refreshes, a cursor-driven pagination
//! iterator over batches of profiles, and the configuration they run on.

pub mod auth;
pub mod batch;
pub mod cache;
pub mod error;
pub mod getby;
pub mod secrets;
pub mod settings;
