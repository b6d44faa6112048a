//! What every packet type provides: its kind, its length on the wire for a
//! client version, and its codec.
use vstd::prelude::*;

use crate::any_packet::AnyPacket;
use crate::error::ProtocolError;
use crate::version::ClientVersion;

verus! {

/// A length in bytes, if there is one.
pub open spec fn length_view(n: Option<usize>) -> Option<nat> {
    match n {
        Some(n) => Some(n as nat),
        None => None,
    }
}

/// A message type of the protocol. Its value is described by its view;
/// the spec functions say what its codec does on that view.
pub trait Packet: Sized + View {
    /// The kind byte that starts a packet of this type on the wire.
    spec fn kind_spec() -> u8;

    /// The length of the body for `v`, where it is fixed; `None` where the
    /// packet carries a length field.
    spec fn length_spec(v: ClientVersion) -> Option<nat>;

    /// The bytes of the body that encode `m` for `v`.
    spec fn body_spec(m: Self::V, v: ClientVersion) -> Seq<u8>;

    /// The value that the body `payload` decodes to for `v`, if it decodes.
    spec fn parse_spec(v: ClientVersion, payload: Seq<u8>) -> Option<Self::V>;

    /// The values that the wire form for `v` can carry; `encode` refuses
    /// the others.
    spec fn valid_spec(m: Self::V, v: ClientVersion) -> bool;

    /// What of `m` the wire form for `v` carries: `m` with the fields that
    /// `v` lacks set to zero.
    spec fn at_version(m: Self::V, v: ClientVersion) -> Self::V;

    /// The value of this type that `a` holds, if it holds one.
    spec fn unwrap_spec(a: AnyPacket) -> Option<Self::V>;

    /// The container that holds `p`.
    spec fn wrap_spec(p: Self) -> AnyPacket;

    fn packet_kind() -> (r: u8)
        ensures
            r == Self::kind_spec(),
    ;

    fn fixed_length(client_version: ClientVersion) -> (r: Option<usize>)
        ensures
            length_view(r) == Self::length_spec(client_version),
    ;

    fn decode(client_version: ClientVersion, payload: &[u8]) -> (r: Result<Self, ProtocolError>)
        ensures
            match r {
                Ok(p) => Self::parse_spec(client_version, payload@) == Some(p@),
                Err(e) => Self::parse_spec(client_version, payload@) is None
                    && e == ProtocolError::MalformedPayload(Self::kind_spec()),
            },
    ;

    /// Appends the body of the packet for `client_version`, or fails,
    /// leaving `writer` as it was, where the value cannot be carried.
    fn encode(&self, client_version: ClientVersion, writer: &mut Vec<u8>) -> (r: Result<
        (),
        ProtocolError,
    >)
        ensures
            r is Ok <==> Self::valid_spec(self@, client_version),
            r is Ok ==> final(writer)@ == old(writer)@ + Self::body_spec(self@, client_version),
            r matches Err(e) ==> e == ProtocolError::UnencodableValue(Self::kind_spec())
                && final(writer)@ == old(writer)@,
    ;

    /// Wraps the packet into the type-erased container.
    fn into_any(self) -> (r: AnyPacket)
        ensures
            r == Self::wrap_spec(self),
            Self::unwrap_spec(r) == Some(self@),
            r.kind_spec() == Self::kind_spec(),
            forall|v: ClientVersion| #[trigger] r.length_spec(v) == Self::length_spec(v),
            forall|v: ClientVersion| #[trigger] r.body_spec(v) == Self::body_spec(self@, v),
            forall|v: ClientVersion| #[trigger] r.valid_spec(v) == Self::valid_spec(self@, v),
    ;

    /// Takes the packet out of `a` where it holds this type, else gives
    /// `a` back unchanged.
    fn from_any(a: AnyPacket) -> (r: Result<Self, AnyPacket>)
        ensures
            match r {
                Ok(p) => Self::unwrap_spec(a) == Some(p@),
                Err(b) => Self::unwrap_spec(a) is None && b == a,
            },
    ;

    /// Borrows the packet in `a` where it holds this type.
    fn from_any_ref(a: &AnyPacket) -> (r: Option<&Self>)
        ensures
            match r {
                Some(p) => Self::unwrap_spec(*a) == Some(p@),
                None => Self::unwrap_spec(*a) is None,
            },
    ;

    /// Borrows the packet in `a` mutably where it holds this type; what is
    /// written through the borrow ends up in `a`.
    fn from_any_mut(a: &mut AnyPacket) -> (r: Option<&mut Self>)
        ensures
            match r {
                Some(p) => Self::unwrap_spec(*old(a)) == Some(p@) && *final(a) == Self::wrap_spec(
                    *final(p),
                ),
                None => Self::unwrap_spec(*old(a)) is None && *final(a) == *old(a),
            },
    ;

    /// Only a container of this kind holds a packet of this type.
    proof fn lemma_unwrap_kind(a: AnyPacket)
        ensures
            Self::unwrap_spec(a) is Some ==> a.kind_spec() == Self::kind_spec(),
    ;

    /// Decoding what `encode` wrote for a version gives the value back, as
    /// far as that version carries it.
    proof fn lemma_round_trip(m: Self::V, v: ClientVersion)
        requires
            Self::valid_spec(m, v),
        ensures
            Self::parse_spec(v, Self::body_spec(m, v)) == Some(Self::at_version(m, v)),
    ;

    /// Where the length is fixed for a version, every body that `encode`
    /// writes is that long.
    proof fn lemma_fixed_length(m: Self::V, v: ClientVersion)
        requires
            Self::valid_spec(m, v),
        ensures
            Self::length_spec(v) matches Some(n) ==> Self::body_spec(m, v).len() == n,
    ;
}

} // verus!
