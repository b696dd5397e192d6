//! A small client/server protocol: greeting, optional username/password
//! authorization, an x25519 key exchange and an AES-256-GCM protected
//! command phase. This crate holds the wire formats, the cryptographic
//! session and the decision logic of both peers; sockets live elsewhere.
pub mod client;
pub mod protocol;
pub mod server;

mod version;

pub use version::PROTOCOL_VERSION;
