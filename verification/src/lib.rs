//! Client-side engine for a JSON-RPC tool-server protocol: a server
//! registry with a handshake lifecycle, a JSON codec, and the method
//! dispatch layer built on top of them.
//!
//! All network and host interaction stays outside this crate. Every
//! operation is a total computation on plain values: requests are built
//! as byte strings with their headers, and whatever the transport
//! returns is interpreted from its status, session header and body.
//!
//! - [`bytes`]: byte-string helpers (case folding, escaping, decimals).
//! - [`strs`]: the literal texts of the protocol.
//! - [`json`]: the JSON value model, parser and serializer.
//! - [`rpc`]: JSON-RPC envelopes, read and built.
//! - [`transport`]: the shape of planned requests and their outcomes.
//! - [`registry`]: the server records and the default pointer.
//! - [`handshake`]: the `initialize` exchange.
//! - [`dispatch`]: the public operations over the transport boundary.
//! - [`client`]: the context object the host drives.

pub mod bytes;
pub mod strs;
pub mod json;
pub mod rpc;
pub mod registry;
pub mod transport;
pub mod handshake;
pub mod dispatch;
pub mod client;
