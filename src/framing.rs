//! The framing rules of a connection: what a reader makes of the bytes it
//! has so far, and what a writer puts on the wire for a packet. The I/O
//! itself is left to the caller, which hands bytes in and takes bytes out.
use vstd::prelude::*;

use crate::any_packet::{
    lemma_fixed_length, lemma_round_trip, registered_type, AnyPacket, PacketRegistry,
    PacketType,
};
use crate::error::ProtocolError;
use crate::login::LegacySeed;
use crate::packet::Packet;
use crate::version::ClientVersion;
use crate::wire::{
    be16, be16_value, be32, be32_value, lemma_be16_round_trip, push_u32, read_u16, read_u32,
};

verus! {

/// The kind of the framed hello. No legacy client's first address byte
/// takes this value, so it tells the two kinds of client apart.
pub const FRAMED_HELLO_KIND: u8 = 0xef;

/// The bytes of the header of a variable-length packet: its kind and its
/// 16-bit total length.
pub const VARIABLE_HEADER_LENGTH: usize = 3;

/// What the bytes received so far come to.
pub enum FrameStep {
    /// Nothing can be decided before this many bytes are there.
    NeedMore(nat),
    /// A legacy client's raw 4-byte seed.
    Legacy(u32),
    /// A packet of this type whose body lies between the two offsets.
    Decode(PacketType, int, int),
    /// The stream cannot be read on.
    Fail(ProtocolError),
}

/// The next step on `input`, the bytes received and not yet consumed.
/// `awaiting_hello` holds before the first packet of a server-side
/// connection, where a legacy client may send its seed unframed.
pub open spec fn step_spec(awaiting_hello: bool, v: ClientVersion, input: Seq<u8>) -> FrameStep {
    if input.len() == 0 {
        FrameStep::NeedMore(1)
    } else if awaiting_hello && input[0] != FRAMED_HELLO_KIND {
        if input.len() < 4 {
            FrameStep::NeedMore(4)
        } else {
            FrameStep::Legacy(be32_value(input, 0))
        }
    } else {
        match registered_type(input[0]) {
            None => FrameStep::Fail(ProtocolError::UnknownPacketKind(input[0])),
            Some(t) => match t.length_spec(v) {
                Some(n) => if input.len() < 1 + n {
                    FrameStep::NeedMore(1 + n)
                } else {
                    FrameStep::Decode(t, 1, (1 + n) as int)
                },
                None => if input.len() < 3 {
                    FrameStep::NeedMore(3)
                } else {
                    let total = be16_value(input[1], input[2]);
                    if total < 3 {
                        FrameStep::Fail(ProtocolError::MalformedLength(total))
                    } else if input.len() < total {
                        FrameStep::NeedMore(total as nat)
                    } else {
                        FrameStep::Decode(t, 3, total as int)
                    }
                },
            },
        }
    }
}

/// What the reader hands back when it did not fail.
#[derive(Debug)]
pub enum Received {
    /// No packet yet: the input must hold at least this many bytes.
    NeedMore(usize),
    /// A packet, and the number of input bytes that it took.
    Packet(AnyPacket, usize),
}

/// The reading half of a connection's framing.
pub struct ReadState {
    awaiting_hello: bool,
}

impl ReadState {
    /// Whether the legacy handshake may still come.
    pub closed spec fn awaiting_hello(&self) -> bool {
        self.awaiting_hello
    }

    /// A reader for a fresh connection; a server first looks out for the
    /// legacy handshake.
    pub fn new(is_server: bool) -> (r: ReadState)
        ensures
            r.awaiting_hello() == is_server,
    {
        ReadState { awaiting_hello: is_server }
    }

    /// Reads the next packet from the start of `input`, the bytes received
    /// and not consumed yet. Where a call asked for more bytes, nothing was
    /// consumed and the state is unchanged: the next call must get the same
    /// bytes again, with more after them.
    pub fn receive(&mut self, registry: &PacketRegistry, client_version: ClientVersion, input: &[u8]) -> (r: Result<Received, ProtocolError>)
        ensures
            match step_spec(old(self).awaiting_hello(), client_version, input@) {
                FrameStep::NeedMore(n) => r matches Ok(Received::NeedMore(m)) && m == n,
                FrameStep::Legacy(seed) => r matches Ok(Received::Packet(a, c)) && c == 4
                    && LegacySeed::unwrap_spec(a) == Some(LegacySeed { seed }),
                FrameStep::Decode(t, start, end) => if t.parses(
                    client_version,
                    input@.subrange(start, end),
                ) {
                    r matches Ok(Received::Packet(a, c)) && c == end && t.decodes_to(
                        client_version,
                        input@.subrange(start, end),
                        a,
                    )
                } else {
                    r == Err::<Received, ProtocolError>(
                        ProtocolError::MalformedPayload(t.kind_spec()),
                    )
                },
                FrameStep::Fail(e) => r == Err::<Received, ProtocolError>(e),
            },
            final(self).awaiting_hello() == (old(self).awaiting_hello() && r matches Ok(
                Received::NeedMore(_),
            )),
    {
        let len = input.len();
        if len == 0 {
            return Ok(Received::NeedMore(1));
        }
        let packet_kind = input[0];
        if self.awaiting_hello && packet_kind != FRAMED_HELLO_KIND {
            // A legacy client sends its seed unframed, before anything else.
            if len < 4 {
                return Ok(Received::NeedMore(4));
            }
            self.awaiting_hello = false;
            let seed = read_u32(input, 0);
            return Ok(Received::Packet(LegacySeed { seed }.into_any(), 4));
        }
        let registration = match registry.lookup(packet_kind) {
            Some(r) => r,
            None => {
                self.awaiting_hello = false;
                return Err(ProtocolError::UnknownPacketKind(packet_kind));
            },
        };
        let t = registration.packet_type;
        let (start, end) = match t.fixed_length(client_version) {
            Some(n) => {
                if len < 1 + n {
                    return Ok(Received::NeedMore(1 + n));
                }
                (1, 1 + n)
            },
            None => {
                if len < VARIABLE_HEADER_LENGTH {
                    return Ok(Received::NeedMore(VARIABLE_HEADER_LENGTH));
                }
                let total = read_u16(input, 1);
                if total < 3 {
                    self.awaiting_hello = false;
                    return Err(ProtocolError::MalformedLength(total));
                }
                if len < total as usize {
                    return Ok(Received::NeedMore(total as usize));
                }
                (VARIABLE_HEADER_LENGTH, total as usize)
            },
        };
        self.awaiting_hello = false;
        let payload = slice_range(input, start, end);
        match t.decode(client_version, payload) {
            Ok(a) => Ok(Received::Packet(a, end)),
            Err(e) => Err(e),
        }
    }
}

/// The frame of a packet of kind `kind` with body `body`: the kind, then,
/// where the length is not fixed, the big-endian total length, then the
/// body. `None` where the total length does not fit 16 bits.
pub open spec fn frame_spec(kind: u8, length: Option<nat>, body: Seq<u8>) -> Option<Seq<u8>> {
    match length {
        Some(_) => Some(seq![kind] + body),
        None => if body.len() + 3 <= u16::MAX {
            Some(seq![kind] + be16((body.len() + 3) as u16) + body)
        } else {
            None
        },
    }
}

/// The writing half of a connection's framing.
pub struct WriteState {
    has_sent: bool,
}

impl WriteState {
    /// Whether anything was sent yet. A client's writer starts out unsent,
    /// and may then send the legacy seed first; a server's starts out sent.
    pub closed spec fn has_sent(&self) -> bool {
        self.has_sent
    }

    pub fn new(is_server: bool) -> (r: WriteState)
        ensures
            r.has_sent() == is_server,
    {
        WriteState { has_sent: is_server }
    }

    /// The four raw bytes of the legacy seed, which only a client sends and
    /// only before anything else.
    pub fn send_legacy_seed(&mut self, seed: u32) -> (r: Result<Vec<u8>, ProtocolError>)
        ensures
            old(self).has_sent() ==> r == Err::<Vec<u8>, ProtocolError>(
                ProtocolError::LegacySeedAfterOtherPackets,
            ),
            !old(self).has_sent() ==> (r matches Ok(b) && b@ == be32(seed)),
            final(self).has_sent(),
    {
        if self.has_sent {
            return Err(ProtocolError::LegacySeedAfterOtherPackets);
        }
        self.has_sent = true;
        let mut bytes: Vec<u8> = Vec::new();
        push_u32(&mut bytes, seed);
        Ok(bytes)
    }

    /// The frame of `packet` for `client_version`.
    pub fn send<T: Packet>(&mut self, client_version: ClientVersion, packet: &T) -> (r: Result<
        Vec<u8>,
        ProtocolError,
    >)
        ensures
            final(self).has_sent(),
            !T::valid_spec(packet@, client_version) ==> r == Err::<Vec<u8>, ProtocolError>(
                ProtocolError::UnencodableValue(T::kind_spec()),
            ),
            T::valid_spec(packet@, client_version) ==> match frame_spec(
                T::kind_spec(),
                T::length_spec(client_version),
                T::body_spec(packet@, client_version),
            ) {
                Some(f) => r matches Ok(b) && b@ == f,
                None => r == Err::<Vec<u8>, ProtocolError>(
                    ProtocolError::PacketTooLong(
                        (T::body_spec(packet@, client_version).len() + 3) as usize,
                    ),
                ),
            },
    {
        self.has_sent = true;
        let mut buffer: Vec<u8> = Vec::new();
        if let Some(length) = T::fixed_length(client_version) {
            buffer.push(T::packet_kind());
            if let Err(e) = packet.encode(client_version, &mut buffer) {
                return Err(e);
            }
            proof {
                T::lemma_fixed_length(packet@, client_version);
            }
            assert(buffer@.len() == length + 1);
        } else {
            buffer.push(T::packet_kind());
            buffer.push(0);
            buffer.push(0);
            if let Err(e) = packet.encode(client_version, &mut buffer) {
                return Err(e);
            }
            let packet_len = buffer.len();
            if packet_len > 0xffff {
                return Err(ProtocolError::PacketTooLong(packet_len));
            }
            set_length(&mut buffer, packet_len as u16);
        }
        Ok(buffer)
    }

    /// The frame of `packet` for `client_version`.
    pub fn send_any(&mut self, client_version: ClientVersion, packet: &AnyPacket) -> (r: Result<
        Vec<u8>,
        ProtocolError,
    >)
        ensures
            final(self).has_sent(),
            !packet.valid_spec(client_version) ==> r == Err::<Vec<u8>, ProtocolError>(
                ProtocolError::UnencodableValue(packet.kind_spec()),
            ),
            packet.valid_spec(client_version) ==> match frame_spec(
                packet.kind_spec(),
                packet.length_spec(client_version),
                packet.body_spec(client_version),
            ) {
                Some(f) => r matches Ok(b) && b@ == f,
                None => r == Err::<Vec<u8>, ProtocolError>(
                    ProtocolError::PacketTooLong(
                        (packet.body_spec(client_version).len() + 3) as usize,
                    ),
                ),
            },
    {
        self.has_sent = true;
        let kind = packet.packet_kind();
        let mut buffer: Vec<u8> = Vec::new();
        if let Some(length) = packet.fixed_length(client_version) {
            buffer.push(kind);
            if let Err(e) = packet.encode(client_version, &mut buffer) {
                return Err(e);
            }
            proof {
                lemma_fixed_length(*packet, client_version);
            }
            assert(buffer@.len() == length + 1);
        } else {
            buffer.push(kind);
            buffer.push(0);
            buffer.push(0);
            if let Err(e) = packet.encode(client_version, &mut buffer) {
                return Err(e);
            }
            let packet_len = buffer.len();
            if packet_len > 0xffff {
                return Err(ProtocolError::PacketTooLong(packet_len));
            }
            set_length(&mut buffer, packet_len as u16);
        }
        Ok(buffer)
    }
}

/// Writes the big-endian `total` over the two placeholder bytes after the
/// kind.
fn set_length(buffer: &mut Vec<u8>, total: u16)
    requires
        old(buffer)@.len() >= 3,
    ensures
        final(buffer)@ == seq![old(buffer)@[0]] + be16(total) + old(buffer)@.subrange(
            3,
            old(buffer)@.len() as int,
        ),
{
    buffer.set(1, (total >> 8) as u8);
    #[verifier::truncate]
    let low = total as u8;
    buffer.set(2, low);
    assert(buffer@ =~= seq![old(buffer)@[0]] + be16(total) + old(buffer)@.subrange(
        3,
        old(buffer)@.len() as int,
    ));
}

/// Once framing is established, a byte under which no packet type is
/// registered fails the stream as an unknown kind.
pub proof fn lemma_unknown_kind(v: ClientVersion, input: Seq<u8>)
    requires
        input.len() > 0,
        registered_type(input[0]) is None,
    ensures
        step_spec(false, v, input) == FrameStep::Fail(ProtocolError::UnknownPacketKind(input[0])),
{
}

/// A fresh server-side reader that sees a first byte other than the framed
/// hello takes the first four bytes as the legacy seed; once it did, no
/// input is ever read as a legacy seed again.
pub proof fn lemma_legacy_handshake(v: ClientVersion, input: Seq<u8>, later: Seq<u8>)
    requires
        input.len() >= 4,
        input[0] != FRAMED_HELLO_KIND,
    ensures
        step_spec(true, v, input) == FrameStep::Legacy(be32_value(input, 0)),
        !(step_spec(false, v, later) is Legacy),
{
}

/// What a writer frames for a registered packet that the wire form can
/// carry, a reader in the framed state reads back as that packet's body,
/// whatever bytes follow it, and that body decodes to the packet itself, as
/// far as the version carries it.
pub proof fn lemma_frame_round_trip(a: AnyPacket, v: ClientVersion, rest: Seq<u8>)
    requires
        a.type_spec() is Some,
        a.valid_spec(v),
        frame_spec(a.kind_spec(), a.length_spec(v), a.body_spec(v)) is Some,
    ensures
        ({
            let f = frame_spec(a.kind_spec(), a.length_spec(v), a.body_spec(v)).unwrap();
            let t = a.type_spec().unwrap();
            step_spec(false, v, f + rest) matches FrameStep::Decode(t2, start, end) && t2 == t
                && end == f.len() && (f + rest).subrange(start, end) == a.body_spec(v) && t.parses(
                v,
                (f + rest).subrange(start, end),
            ) && t.recovers(v, (f + rest).subrange(start, end), a)
        }),
{
    let f = frame_spec(a.kind_spec(), a.length_spec(v), a.body_spec(v)).unwrap();
    let body = a.body_spec(v);
    let input = f + rest;
    lemma_fixed_length(a, v);
    lemma_round_trip(a, v);
    assert(input[0] == a.kind_spec());
    match a.length_spec(v) {
        Some(n) => {
            assert(input.subrange(1, (1 + n) as int) =~= body);
        },
        None => {
            let total = (body.len() + 3) as u16;
            lemma_be16_round_trip(total);
            assert(input[1] == be16(total)[0]);
            assert(input[2] == be16(total)[1]);
            assert(input.subrange(3, total as int) =~= body);
        },
    }
}

/// The bytes of `input` from `start` to `end`.
fn slice_range(input: &[u8], start: usize, end: usize) -> (r: &[u8])
    requires
        start <= end <= input@.len(),
    ensures
        r@ == input@.subrange(start as int, end as int),
{
    let (head, _) = input.split_at(end);
    let (_, body) = head.split_at(start);
    body
}

} // verus!
