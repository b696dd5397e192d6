pub mod crypto;
pub mod error;
pub mod frame;
pub mod packets;
pub mod types;
pub mod wire;

pub use crypto::{CryptoSession, KeyExchange};
pub use error::ProtocolError;
