//! Request resolution and response handling for a browser-impersonating HTTP client.
//!
//! The library decides everything that does not touch the network: which
//! defaults a request inherits, which header and cookie entries survive
//! validation, which body and which authentication a request carries, how
//! response headers and cookies are read, how the body cell moves from unread
//! to cached, and how the body is decoded.
pub mod client;
pub mod headers;
pub mod text;
pub mod response;
