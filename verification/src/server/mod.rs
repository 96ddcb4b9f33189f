//! The logic of an HTTP/3 test server: what it answers, and when.
pub mod channel;
pub mod connect_proxy;
pub mod counts;
pub mod forward;
pub mod laws;
pub mod requests;
pub mod responses;
pub mod reverse_proxy;
pub mod scenario;
pub mod sessions;
pub mod start;
pub mod test_server;
pub mod timed;
pub mod webtransport;
