//! Cookies and sessions.
pub mod cookie;
pub mod manager;
