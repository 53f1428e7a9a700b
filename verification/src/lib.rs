//! A small HTTP server toolkit: request and response models, a response
//! state machine, routing, static file serving decisions and websocket
//! handshake helpers.

pub mod error;
pub mod text;
pub mod paths;
pub mod hex;
pub mod content_hash;
pub mod headers;
pub mod request;
pub mod response;
pub mod http1;
pub mod plan;
pub mod file_server;
pub mod include_dir;
pub mod routes;
pub mod router;
pub mod mux;
pub mod websocket;
pub mod server;
pub mod body_reader;
pub mod bytes;
pub mod body;
pub mod head_scan;
pub mod sync_request;

pub use error::{Error, Result};
