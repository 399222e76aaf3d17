//! The routing, key-decoding and authorization core of an HTTP API over resources
//! (JSON documents) and files (byte blobs), both addressed by a percent-decoded key.
//!
//! A request goes through `router::route` (path, method, key, authentication), then
//! `dispatch::prepare` (the body guard), which yields the store call to make; the
//! store's answer becomes a reply through `handlers::reply_for`.

pub mod auth;
pub mod body;
pub mod codec;
pub mod config;
pub mod dispatch;
pub mod handlers;
pub mod query;
pub mod router;
