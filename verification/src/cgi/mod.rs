//! The Common Gateway Interface: environment and script output.
pub mod environment;
pub mod executor;
