//! A minimal HTTP/1.1 client engine.
//!
//! The crate builds the exact bytes of a request, parses the raw byte
//! stream of a response (status line, header block, framed body), and
//! drives the redirect/timeout control loop around one logical request.
//! The transport (sockets, name resolution) is a collaborator outside
//! this crate: the engine consumes bytes and emits actions.

pub mod engine;
pub mod error;
pub mod header;
pub mod request;
pub mod response;
pub mod text;
pub mod url;
