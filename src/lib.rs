//! Post lifecycle and response contract of a personal blogging platform.
//!
//! The library holds the domain model (users, posts, tags and tag usages),
//! the tag synchronisation performed when a post is saved, the uniform
//! response envelope with its error taxonomy, and the session cookie format.
//! Storage, markdown rendering, the clock and HTTP transport are supplied by
//! the caller as plain values.

pub mod cookie;
pub mod envelope;
pub mod error;
pub mod laws;
pub mod model;
pub mod store;
