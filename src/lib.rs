//! A memoising front for JSON POST requests: a request's target and body are
//! reduced to a fixed-width key, and the response bytes are kept in a
//! bounded and/or expiring least-recently-used cache under that key.
pub mod key;
pub mod store;
pub mod client;
pub mod laws;
