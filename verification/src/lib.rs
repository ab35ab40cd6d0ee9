//! Hybrid encryption for a reliable byte stream: an RSA key exchange that
//! leaves both ends with one AES-256-GCM session key, and the codec for the
//! authenticated records that carry the data afterwards.
//!
//! Nothing here touches a socket. The handshakes are state machines that say
//! what to send and how much to read; the code that owns the transport
//! drives them and guards the private key.

pub mod cipher;
pub mod error;
pub mod frame;
pub mod handshake;
pub mod packet;
pub mod rsa_calls;
pub mod server;

pub use cipher::CipherContext;
pub use error::StcpError;
pub use handshake::{Action, Initiator, InitiatorPhase, Responder, ResponderPhase};
pub use packet::AesPacket;
pub use server::{client_kex, client_kex_with, unwrap_session_key, StcpServer};
