//! A small HTTP/1.x server core: request parsing, response building and
//! serialisation, first-match routing, and the per-connection exchange.

pub mod channel;
pub mod connection;
pub mod headers;
pub mod parse;
pub mod pattern;
pub mod request;
pub mod response;
pub mod router;
pub mod text;
