//! A minimal HTTP request dispatcher: request-line parsing into a
//! method/url/query model, exact-match routing, and response
//! serialization, with contracts proved by Verus. The thread pool and
//! socket plumbing around this library are ordinary Rust.

pub mod config;
pub mod dispatch;
pub mod matcher;
pub mod multimap;
pub mod request;
pub mod response;
pub mod text;
