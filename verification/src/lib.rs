//! The decisions of a small HTTP server that answers requests by running PHP.
pub mod connection;
pub mod course;
pub mod error;
pub mod framing;
pub mod http;
pub mod link;
pub mod path;
pub mod php;
pub mod request_id;
pub mod runtime;
pub mod script;
pub mod server;
pub mod static_file;
pub mod text;
