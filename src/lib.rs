//! A bounded-window reader for requests framed by a `Content-Length` header.
//!
//! The window scanner and the request handler are driven by plain events:
//! the handler asks for a read, is handed the bytes that were read, and hands
//! back the body bytes to append to a sink. Transport and sink stay with the
//! caller.

pub mod search;
pub mod length;
pub mod scanner;
pub mod handler;
pub mod laws;
pub mod benchmark;
