//! The core of a small HTTP/1.1 server: request parsing, routing, response
//! assembly and gzip content negotiation, as verified functions on bytes.

pub mod bytes;
pub mod response;
pub mod gzip;
pub mod request;
pub mod router;
pub mod pool;
