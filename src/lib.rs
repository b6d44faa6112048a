//! Protocol core for a legacy game client/server: the Twofish block cipher
//! used to seed legacy connections, the packet codecs, the packet registry,
//! the type-erased packet container and the framing rules of the wire.
//! Packets are encoded and decoded for a negotiated client version.

pub mod any_packet;
pub mod characters;
pub mod error;
pub mod framing;
pub mod login;
pub mod packet;
pub mod twofish;
pub mod version;
pub mod wire;
