//! Client-side protocol layer for a remote key-value store: fixed-width key
//! encoding, the request/response wire shapes, and the mapping of server
//! responses to typed results.

pub mod db;
pub mod encode;
pub mod query;
pub mod response;
