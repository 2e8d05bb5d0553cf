//! Common utilities: buffers, time, dates, MIME types, timeouts.
pub mod clock;
pub mod date;
pub mod mime;
pub mod buffer;
pub mod timeout;
