//! Response compression: content negotiation over `Accept-Encoding`,
//! `Content-Encoding` / `Content-Length` rewriting, and the decision logic of
//! a middleware that wraps an inner handler.

pub mod coding;
pub mod header_map;
pub mod content_encoding;
pub mod accept;
pub mod compression;
pub mod encode;
