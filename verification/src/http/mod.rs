//! HTTP/1.1: requests, responses, headers, dispatch.
pub mod headers;
pub mod methods;
pub mod request;
pub mod response;
pub mod resumption;
pub mod round_trip;
