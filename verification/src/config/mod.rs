//! Server configuration: its types, its text format, its validity.
pub mod parser;
pub mod types;
pub mod validate;
