//! Default configuration values.
use vstd::prelude::*;

verus! {

pub const DEFAULT_PORT: u16 = 8080;

pub const DEFAULT_HOST: &'static str = "127.0.0.1";

/// Seconds.
pub const DEFAULT_TIMEOUT: u64 = 30;

/// One mebibyte.
pub const DEFAULT_MAX_BODY_SIZE: usize = 1048576;

/// Eight kibibytes.
pub const DEFAULT_BUFFER_SIZE: usize = 8192;

pub const MAX_CONNECTIONS: usize = 1024;

pub const MAX_EVENTS: usize = 1024;

} // verus!
