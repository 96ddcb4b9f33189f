//! Media over QUIC: the control messages and object datagrams that a multicast client
//! exchanges with a relay.
pub mod control;
pub mod datagram;
pub mod encode;
pub mod laws;
pub mod reader;
pub mod varint;
