//! HTTP transport for a JSON-RPC 2.0 service: admission policy (allowed hosts,
//! CORS origins, method and media type), envelope classification, response
//! assembly and chunked framing, all verified.

pub mod text;
pub mod admission;
pub mod envelope;
pub mod response;
pub mod connection;
pub mod head;
pub mod session;
pub mod client;
