//! Sans-I/O core of a QUIC datagram messaging harness.
//!
//! The crate holds the decisions of a two-role (client, server) session layer:
//! how a message is laid out on the wire, how a connection's closure is
//! classified, and how the client and server session state machines react to
//! what the transport reports. A driver performs the network I/O and feeds the
//! outcomes back in.
//!
//! - [`message`]: the application message.
//! - [`wire`]: the byte layout of a message, and what is proved of it.
//! - [`codec`]: encoding and decoding of messages.
//! - [`closure`]: classification of a connection's terminal closure.
//! - [`quic`]: transport configuration and endpoint binding.
//! - [`client`]: the client session.
//! - [`server`]: the server session.
//! - [`addr`]: socket addresses as plain values.

pub mod addr;
pub mod client;
pub mod closure;
pub mod codec;
pub mod message;
pub mod quic;
pub mod server;
pub mod wire;

pub use crate::message::Message;
