//! One-time-pad message channel keyed by material from a key management entity.
//!
//! The crate holds the decisions of such a channel: the pad itself, the queue of
//! key material, the length-prefixed framing, the decoding of the key manager's
//! answers, and the two session loops as state machines.  Sockets, files and the
//! HTTP client stay with the caller, who performs the actions that the state
//! machines ask for.

pub mod cipher;
pub mod config;
pub mod error;
pub mod frame;
pub mod json;
pub mod key;
pub mod kme;
pub mod receiver;
pub mod sender;
pub mod status;
pub mod text;
pub mod transport;
