//! A single-process HTTP/1.1 server core: request parsing, response
//! encoding, routing, CGI output handling and connection bookkeeping.
//!
//! The library decides; it does no I/O. Sockets, files and child processes
//! are the caller's part: it hands in what it has read and found, and is
//! told what to send and do.
use vstd::prelude::*;

pub mod text;
pub mod split;
pub mod number;
pub mod bytes;
pub mod strmap;
pub mod keyed;
pub mod error;
pub mod utils;
pub mod session;
pub mod http;
pub mod defaults;
pub mod config;
pub mod routing;
pub mod cgi;
pub mod server;

pub use config::types::Config;
pub use error::{ServerError, ServerResult};
pub use server::engine::Server;

verus! {

/// Server version information.
pub const VERSION: &'static str = "0.1.0";

pub const NAME: &'static str = "localhost-http-server";

} // verus!
