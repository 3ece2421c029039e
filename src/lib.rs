//! Non-blocking HTTP requests and a length-prefixed message protocol.
pub mod http_request;
pub mod protocol;
