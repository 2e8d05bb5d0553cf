//! Routing: from host and path to a server binding and a route, and from
//! there to files.
pub mod router;
pub mod static_files;
