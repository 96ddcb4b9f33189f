//! Glue between an HTTP/3 stack and its embedder.
pub mod address;
pub mod bytes;
pub mod cert;
pub mod codec;
pub mod conn;
pub mod errors;
pub mod events;
pub mod headers;
pub mod io;
pub mod mcquic;
pub mod mcrx;
pub mod metrics;
pub mod moq;
pub mod nsresult;
pub mod probe;
pub mod server;
pub mod text;
pub mod thin;
