//! What can go wrong on a connection.
use vstd::prelude::*;

verus! {

/// A failure of the protocol layer. None of them can be recovered from on
/// the connection that produced it.
#[derive(Clone, Copy, Debug, PartialEq, Eq, Structural)]
pub enum ProtocolError {
    /// A packet began with a kind that no packet type is registered under.
    UnknownPacketKind(u8),
    /// A variable-length packet declared a total length below its own
    /// three-byte header.
    MalformedLength(u16),
    /// The payload of a packet of this kind does not decode.
    MalformedPayload(u8),
    /// A packet of this kind holds a value that its wire form cannot carry:
    /// a string longer than its field or holding a NUL, or a list longer
    /// than its count field.
    UnencodableValue(u8),
    /// The legacy seed was to be sent after another packet, or twice.
    LegacySeedAfterOtherPackets,
    /// A variable-length packet of this many bytes does not fit its
    /// 16-bit length field.
    PacketTooLong(usize),
}

} // verus!
