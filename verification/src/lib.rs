//! The core of a minimal HTTP/1.1 server: reading the head of a request,
//! deciding what answers it, and writing the response. Sockets, files and
//! the scheduling of connections stay with the caller.

pub mod config;
pub mod http;
pub mod request_processor;
pub mod text;
