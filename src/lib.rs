//! A small HTTP/1.1 server core: request parsing, routing and response encoding.
//!
//! The byte-level protocol decisions live here with their contracts; socket and
//! filesystem work is left to the caller, who performs the file operation that a
//! route asks for and hands the outcome back.
pub mod text;
pub mod headers;
pub mod method;
pub mod request;
pub mod gzip;
pub mod response;
pub mod routes;
pub mod laws;
pub mod reader;
