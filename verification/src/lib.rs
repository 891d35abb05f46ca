//! Verified core of an HTTP/2 wire-format codec: the frame layer and the
//! HPACK header-compression layer, together with the HPACK indexing state
//! that makes header compression stateful across frames of one connection.

pub mod buffer;
pub mod error;
pub mod frame;
pub mod header;
pub mod start;
