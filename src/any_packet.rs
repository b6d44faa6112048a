//! The packet registry and the type-erased packet container.
use vstd::prelude::*;

use crate::characters::{
    CharacterList, CreateCharacterClassic, CreateCharacterEnhanced, SelectCharacter,
    character_list_body, character_list_length, character_list_valid, create_character_classic_body,
    create_character_classic_length, create_character_classic_valid, create_character_enhanced_body,
    create_character_enhanced_length, create_character_enhanced_valid, select_character_body,
    select_character_length, select_character_valid,
};
use crate::error::ProtocolError;
use crate::login::{
    AccountLogin, DeleteCharacter, GameServerLogin, LegacySeed, Seed, SelectGameServer, ServerList,
    account_login_body, account_login_length, account_login_valid, delete_character_body,
    delete_character_length, delete_character_valid, game_server_login_body,
    game_server_login_length, game_server_login_valid, legacy_seed_body, legacy_seed_length,
    legacy_seed_valid, seed_body, seed_length, seed_valid, select_game_server_body,
    select_game_server_length, select_game_server_valid, server_list_body, server_list_length,
    server_list_valid,
};
use crate::packet::{length_view, Packet};
use crate::version::ClientVersion;

verus! {

/// The packet types that the registry knows, one per kind.
#[derive(Clone, Copy, Debug, PartialEq, Eq, Structural)]
pub enum PacketType {
    Seed,
    AccountLogin,
    ServerList,
    SelectGameServer,
    GameServerLogin,
    DeleteCharacter,
    CharacterList,
    CreateCharacterEnhanced,
    CreateCharacterClassic,
    SelectCharacter,
}

impl PacketType {
    /// The kind byte of packets of this type.
    pub open spec fn kind_spec(self) -> u8 {
        match self {
            PacketType::Seed => Seed::kind_spec(),
            PacketType::AccountLogin => AccountLogin::kind_spec(),
            PacketType::ServerList => ServerList::kind_spec(),
            PacketType::SelectGameServer => SelectGameServer::kind_spec(),
            PacketType::GameServerLogin => GameServerLogin::kind_spec(),
            PacketType::DeleteCharacter => DeleteCharacter::kind_spec(),
            PacketType::CharacterList => CharacterList::kind_spec(),
            PacketType::CreateCharacterEnhanced => CreateCharacterEnhanced::kind_spec(),
            PacketType::CreateCharacterClassic => CreateCharacterClassic::kind_spec(),
            PacketType::SelectCharacter => SelectCharacter::kind_spec(),
        }
    }

    /// The fixed body length of packets of this type for `v`, if any.
    pub open spec fn length_spec(self, v: ClientVersion) -> Option<nat> {
        match self {
            PacketType::Seed => Seed::length_spec(v),
            PacketType::AccountLogin => AccountLogin::length_spec(v),
            PacketType::ServerList => ServerList::length_spec(v),
            PacketType::SelectGameServer => SelectGameServer::length_spec(v),
            PacketType::GameServerLogin => GameServerLogin::length_spec(v),
            PacketType::DeleteCharacter => DeleteCharacter::length_spec(v),
            PacketType::CharacterList => CharacterList::length_spec(v),
            PacketType::CreateCharacterEnhanced => CreateCharacterEnhanced::length_spec(v),
            PacketType::CreateCharacterClassic => CreateCharacterClassic::length_spec(v),
            PacketType::SelectCharacter => SelectCharacter::length_spec(v),
        }
    }

    /// `payload` decodes as a packet of this type for `v`.
    pub open spec fn parses(self, v: ClientVersion, payload: Seq<u8>) -> bool {
        match self {
            PacketType::Seed => Seed::parse_spec(v, payload) is Some,
            PacketType::AccountLogin => AccountLogin::parse_spec(v, payload) is Some,
            PacketType::ServerList => ServerList::parse_spec(v, payload) is Some,
            PacketType::SelectGameServer => SelectGameServer::parse_spec(v, payload) is Some,
            PacketType::GameServerLogin => GameServerLogin::parse_spec(v, payload) is Some,
            PacketType::DeleteCharacter => DeleteCharacter::parse_spec(v, payload) is Some,
            PacketType::CharacterList => CharacterList::parse_spec(v, payload) is Some,
            PacketType::CreateCharacterEnhanced => CreateCharacterEnhanced::parse_spec(v, payload) is Some,
            PacketType::CreateCharacterClassic => CreateCharacterClassic::parse_spec(v, payload) is Some,
            PacketType::SelectCharacter => SelectCharacter::parse_spec(v, payload) is Some,
        }
    }

    /// `a` is the packet of this type that `payload` decodes to for `v`.
    pub open spec fn decodes_to(self, v: ClientVersion, payload: Seq<u8>, a: AnyPacket) -> bool {
        match self {
            PacketType::Seed => Seed::unwrap_spec(a) is Some && Seed::parse_spec(v, payload)
                == Seed::unwrap_spec(a),
            PacketType::AccountLogin => AccountLogin::unwrap_spec(a) is Some
                && AccountLogin::parse_spec(v, payload) == AccountLogin::unwrap_spec(a),
            PacketType::ServerList => ServerList::unwrap_spec(a) is Some
                && ServerList::parse_spec(v, payload) == ServerList::unwrap_spec(a),
            PacketType::SelectGameServer => SelectGameServer::unwrap_spec(a) is Some
                && SelectGameServer::parse_spec(v, payload) == SelectGameServer::unwrap_spec(a),
            PacketType::GameServerLogin => GameServerLogin::unwrap_spec(a) is Some
                && GameServerLogin::parse_spec(v, payload) == GameServerLogin::unwrap_spec(a),
            PacketType::DeleteCharacter => DeleteCharacter::unwrap_spec(a) is Some
                && DeleteCharacter::parse_spec(v, payload) == DeleteCharacter::unwrap_spec(a),
            PacketType::CharacterList => CharacterList::unwrap_spec(a) is Some
                && CharacterList::parse_spec(v, payload) == CharacterList::unwrap_spec(a),
            PacketType::CreateCharacterEnhanced => CreateCharacterEnhanced::unwrap_spec(a) is Some
                && CreateCharacterEnhanced::parse_spec(v, payload) == CreateCharacterEnhanced::unwrap_spec(a),
            PacketType::CreateCharacterClassic => CreateCharacterClassic::unwrap_spec(a) is Some
                && CreateCharacterClassic::parse_spec(v, payload) == CreateCharacterClassic::unwrap_spec(a),
            PacketType::SelectCharacter => SelectCharacter::unwrap_spec(a) is Some
                && SelectCharacter::parse_spec(v, payload) == SelectCharacter::unwrap_spec(a),
        }
    }

    /// `payload` decodes to what the wire form for `v` carries of the
    /// packet of this type that `a` holds.
    pub open spec fn recovers(self, v: ClientVersion, payload: Seq<u8>, a: AnyPacket) -> bool {
        match self {
            PacketType::Seed => Seed::unwrap_spec(a) matches Some(m) && Seed::parse_spec(
                v,
                payload,
            ) == Some(Seed::at_version(m, v)),
            PacketType::AccountLogin => AccountLogin::unwrap_spec(a) matches Some(m)
                && AccountLogin::parse_spec(v, payload) == Some(AccountLogin::at_version(m, v)),
            PacketType::ServerList => ServerList::unwrap_spec(a) matches Some(m)
                && ServerList::parse_spec(v, payload) == Some(ServerList::at_version(m, v)),
            PacketType::SelectGameServer => SelectGameServer::unwrap_spec(a) matches Some(m)
                && SelectGameServer::parse_spec(v, payload) == Some(
                SelectGameServer::at_version(m, v),
            ),
            PacketType::GameServerLogin => GameServerLogin::unwrap_spec(a) matches Some(m)
                && GameServerLogin::parse_spec(v, payload) == Some(
                GameServerLogin::at_version(m, v),
            ),
            PacketType::DeleteCharacter => DeleteCharacter::unwrap_spec(a) matches Some(m)
                && DeleteCharacter::parse_spec(v, payload) == Some(
                DeleteCharacter::at_version(m, v),
            ),
            PacketType::CharacterList => CharacterList::unwrap_spec(a) matches Some(m)
                && CharacterList::parse_spec(v, payload) == Some(
                CharacterList::at_version(m, v),
            ),
            PacketType::CreateCharacterEnhanced => CreateCharacterEnhanced::unwrap_spec(a) matches Some(m)
                && CreateCharacterEnhanced::parse_spec(v, payload) == Some(
                CreateCharacterEnhanced::at_version(m, v),
            ),
            PacketType::CreateCharacterClassic => CreateCharacterClassic::unwrap_spec(a) matches Some(m)
                && CreateCharacterClassic::parse_spec(v, payload) == Some(
                CreateCharacterClassic::at_version(m, v),
            ),
            PacketType::SelectCharacter => SelectCharacter::unwrap_spec(a) matches Some(m)
                && SelectCharacter::parse_spec(v, payload) == Some(
                SelectCharacter::at_version(m, v),
            ),
        }
    }

    pub fn packet_kind(self) -> (r: u8)
        ensures
            r == self.kind_spec(),
    {
        match self {
            PacketType::Seed => Seed::packet_kind(),
            PacketType::AccountLogin => AccountLogin::packet_kind(),
            PacketType::ServerList => ServerList::packet_kind(),
            PacketType::SelectGameServer => SelectGameServer::packet_kind(),
            PacketType::GameServerLogin => GameServerLogin::packet_kind(),
            PacketType::DeleteCharacter => DeleteCharacter::packet_kind(),
            PacketType::CharacterList => CharacterList::packet_kind(),
            PacketType::CreateCharacterEnhanced => CreateCharacterEnhanced::packet_kind(),
            PacketType::CreateCharacterClassic => CreateCharacterClassic::packet_kind(),
            PacketType::SelectCharacter => SelectCharacter::packet_kind(),
        }
    }

    pub fn fixed_length(self, client_version: ClientVersion) -> (r: Option<usize>)
        ensures
            length_view(r) == self.length_spec(client_version),
    {
        match self {
            PacketType::Seed => Seed::fixed_length(client_version),
            PacketType::AccountLogin => AccountLogin::fixed_length(client_version),
            PacketType::ServerList => ServerList::fixed_length(client_version),
            PacketType::SelectGameServer => SelectGameServer::fixed_length(client_version),
            PacketType::GameServerLogin => GameServerLogin::fixed_length(client_version),
            PacketType::DeleteCharacter => DeleteCharacter::fixed_length(client_version),
            PacketType::CharacterList => CharacterList::fixed_length(client_version),
            PacketType::CreateCharacterEnhanced => CreateCharacterEnhanced::fixed_length(client_version),
            PacketType::CreateCharacterClassic => CreateCharacterClassic::fixed_length(client_version),
            PacketType::SelectCharacter => SelectCharacter::fixed_length(client_version),
        }
    }

    /// Decodes the body of a packet of this type.
    pub fn decode(self, client_version: ClientVersion, payload: &[u8]) -> (r: Result<
        AnyPacket,
        ProtocolError,
    >)
        ensures
            r is Ok <==> self.parses(client_version, payload@),
            r matches Ok(a) ==> self.decodes_to(client_version, payload@, a),
            r matches Err(e) ==> e == ProtocolError::MalformedPayload(self.kind_spec()),
    {
        match self {
            PacketType::Seed => match Seed::decode(client_version, payload) {
                Ok(p) => Ok(AnyPacket::Seed(p)),
                Err(e) => Err(e),
            },
            PacketType::AccountLogin => match AccountLogin::decode(client_version, payload) {
                Ok(p) => Ok(AnyPacket::AccountLogin(p)),
                Err(e) => Err(e),
            },
            PacketType::ServerList => match ServerList::decode(client_version, payload) {
                Ok(p) => Ok(AnyPacket::ServerList(p)),
                Err(e) => Err(e),
            },
            PacketType::SelectGameServer => match SelectGameServer::decode(
                client_version,
                payload,
            ) {
                Ok(p) => Ok(AnyPacket::SelectGameServer(p)),
                Err(e) => Err(e),
            },
            PacketType::GameServerLogin => match GameServerLogin::decode(client_version, payload) {
                Ok(p) => Ok(AnyPacket::GameServerLogin(p)),
                Err(e) => Err(e),
            },
            PacketType::DeleteCharacter => match DeleteCharacter::decode(client_version, payload) {
                Ok(p) => Ok(AnyPacket::DeleteCharacter(p)),
                Err(e) => Err(e),
            },
            PacketType::CharacterList => match CharacterList::decode(client_version, payload) {
                Ok(p) => Ok(AnyPacket::CharacterList(p)),
                Err(e) => Err(e),
            },
            PacketType::CreateCharacterEnhanced => match CreateCharacterEnhanced::decode(client_version, payload) {
                Ok(p) => Ok(AnyPacket::CreateCharacterEnhanced(p)),
                Err(e) => Err(e),
            },
            PacketType::CreateCharacterClassic => match CreateCharacterClassic::decode(client_version, payload) {
                Ok(p) => Ok(AnyPacket::CreateCharacterClassic(p)),
                Err(e) => Err(e),
            },
            PacketType::SelectCharacter => match SelectCharacter::decode(client_version, payload) {
                Ok(p) => Ok(AnyPacket::SelectCharacter(p)),
                Err(e) => Err(e),
            },
        }
    }
}

/// The entry of the registry for one packet type.
#[derive(Clone, Copy, Debug, PartialEq, Eq, Structural)]
pub struct PacketRegistration {
    pub packet_kind: u8,
    pub packet_type: PacketType,
}

/// The packet type registered under `kind`, if any.
pub open spec fn registered_type(kind: u8) -> Option<PacketType> {
    if kind == 0xef {
        Some(PacketType::Seed)
    } else if kind == 0x80 {
        Some(PacketType::AccountLogin)
    } else if kind == 0xa8 {
        Some(PacketType::ServerList)
    } else if kind == 0xa0 {
        Some(PacketType::SelectGameServer)
    } else if kind == 0x91 {
        Some(PacketType::GameServerLogin)
    } else if kind == 0x83 {
        Some(PacketType::DeleteCharacter)
    } else if kind == 0xa9 {
        Some(PacketType::CharacterList)
    } else if kind == 0xf8 {
        Some(PacketType::CreateCharacterEnhanced)
    } else if kind == 0x00 {
        Some(PacketType::CreateCharacterClassic)
    } else if kind == 0x5d {
        Some(PacketType::SelectCharacter)
    } else {
        None
    }
}

/// The registry's entry for `kind`.
pub open spec fn registration_for(kind: u8) -> Option<PacketRegistration> {
    match registered_type(kind) {
        Some(t) => Some(PacketRegistration { packet_kind: kind, packet_type: t }),
        None => None,
    }
}

/// The table from kind byte to packet type, built once and then only read.
pub struct PacketRegistry {
    registrations: Vec<Option<PacketRegistration>>,
}

impl PacketRegistry {
    #[verifier::type_invariant]
    spec fn holds_registered_types(&self) -> bool {
        &&& self.registrations@.len() == 0x100
        &&& forall|k: int|
            0 <= k < 0x100 ==> #[trigger] self.registrations@[k] == registration_for(k as u8)
    }

    /// The entry for `kind`: the type registered under it, if any.
    pub fn lookup(&self, kind: u8) -> (r: Option<PacketRegistration>)
        ensures
            r == registration_for(kind),
    {
        proof {
            use_type_invariant(self);
        }
        self.registrations[kind as usize]
    }
}

fn register(registrations: &mut Vec<Option<PacketRegistration>>, packet_type: PacketType)
    requires
        old(registrations)@.len() == 0x100,
    ensures
        final(registrations)@ == old(registrations)@.update(
            packet_type.kind_spec() as int,
            Some(PacketRegistration { packet_kind: packet_type.kind_spec(), packet_type }),
        ),
{
    let kind = packet_type.packet_kind();
    registrations.set(kind as usize, Some(PacketRegistration { packet_kind: kind, packet_type }));
}

/// Builds the registry of every packet type of the protocol.
pub fn packet_registry() -> (r: PacketRegistry)
    ensures
        forall|k: u8| #[trigger] r.lookup_spec(k) == registration_for(k),
{
    let mut registrations: Vec<Option<PacketRegistration>> = Vec::new();
    for i in 0..0x100usize
        invariant
            registrations@.len() == i,
            forall|k: int| 0 <= k < i ==> registrations@[k] is None,
    {
        registrations.push(None);
    }
    register(&mut registrations, PacketType::Seed);
    register(&mut registrations, PacketType::AccountLogin);
    register(&mut registrations, PacketType::ServerList);
    register(&mut registrations, PacketType::SelectGameServer);
    register(&mut registrations, PacketType::GameServerLogin);
    register(&mut registrations, PacketType::DeleteCharacter);
    register(&mut registrations, PacketType::CharacterList);
    register(&mut registrations, PacketType::CreateCharacterEnhanced);
    register(&mut registrations, PacketType::CreateCharacterClassic);
    register(&mut registrations, PacketType::SelectCharacter);
    assert forall|k: int| 0 <= k < 0x100 implies #[trigger] registrations@[k] == registration_for(
        k as u8,
    ) by {}
    PacketRegistry { registrations }
}

impl PacketRegistry {
    /// What [`PacketRegistry::lookup`] returns for `kind`.
    pub closed spec fn lookup_spec(&self, kind: u8) -> Option<PacketRegistration> {
        self.registrations@[kind as int]
    }
}

/// One packet of any known type. The variant decides the kind, the length
/// on the wire and the codec, so they always agree.
#[derive(Debug)]
pub enum AnyPacket {
    LegacySeed(LegacySeed),
    Seed(Seed),
    AccountLogin(AccountLogin),
    ServerList(ServerList),
    SelectGameServer(SelectGameServer),
    GameServerLogin(GameServerLogin),
    DeleteCharacter(DeleteCharacter),
    CharacterList(CharacterList),
    CreateCharacterEnhanced(CreateCharacterEnhanced),
    CreateCharacterClassic(CreateCharacterClassic),
    SelectCharacter(SelectCharacter),
}


impl AnyPacket {
    /// The registered type of the packet held; the legacy seed is not
    /// registered, as it never arrives framed.
    pub open spec fn type_spec(&self) -> Option<PacketType> {
        match self {
            AnyPacket::LegacySeed(_) => None,
            AnyPacket::Seed(_) => Some(PacketType::Seed),
            AnyPacket::AccountLogin(_) => Some(PacketType::AccountLogin),
            AnyPacket::ServerList(_) => Some(PacketType::ServerList),
            AnyPacket::SelectGameServer(_) => Some(PacketType::SelectGameServer),
            AnyPacket::GameServerLogin(_) => Some(PacketType::GameServerLogin),
            AnyPacket::DeleteCharacter(_) => Some(PacketType::DeleteCharacter),
            AnyPacket::CharacterList(_) => Some(PacketType::CharacterList),
            AnyPacket::CreateCharacterEnhanced(_) => Some(PacketType::CreateCharacterEnhanced),
            AnyPacket::CreateCharacterClassic(_) => Some(PacketType::CreateCharacterClassic),
            AnyPacket::SelectCharacter(_) => Some(PacketType::SelectCharacter),
        }
    }

    /// The kind byte of the packet held.
    pub open spec fn kind_spec(&self) -> u8 {
        match self {
            AnyPacket::LegacySeed(_) => 0xef,
            AnyPacket::Seed(_) => 0xef,
            AnyPacket::AccountLogin(_) => 0x80,
            AnyPacket::ServerList(_) => 0xa8,
            AnyPacket::SelectGameServer(_) => 0xa0,
            AnyPacket::GameServerLogin(_) => 0x91,
            AnyPacket::DeleteCharacter(_) => 0x83,
            AnyPacket::CharacterList(_) => 0xa9,
            AnyPacket::CreateCharacterEnhanced(_) => 0xf8,
            AnyPacket::CreateCharacterClassic(_) => 0x00,
            AnyPacket::SelectCharacter(_) => 0x5d,
        }
    }

    /// The fixed body length of the packet held for `v`, if any.
    pub open spec fn length_spec(&self, v: ClientVersion) -> Option<nat> {
        match self {
            AnyPacket::LegacySeed(_) => legacy_seed_length(v),
            AnyPacket::Seed(_) => seed_length(v),
            AnyPacket::AccountLogin(_) => account_login_length(v),
            AnyPacket::ServerList(_) => server_list_length(v),
            AnyPacket::SelectGameServer(_) => select_game_server_length(v),
            AnyPacket::GameServerLogin(_) => game_server_login_length(v),
            AnyPacket::DeleteCharacter(_) => delete_character_length(v),
            AnyPacket::CharacterList(_) => character_list_length(v),
            AnyPacket::CreateCharacterEnhanced(_) => create_character_enhanced_length(v),
            AnyPacket::CreateCharacterClassic(_) => create_character_classic_length(v),
            AnyPacket::SelectCharacter(_) => select_character_length(v),
        }
    }

    /// The body that encodes the packet held for `v`.
    pub open spec fn body_spec(&self, v: ClientVersion) -> Seq<u8> {
        match self {
            AnyPacket::LegacySeed(p) => legacy_seed_body(p@, v),
            AnyPacket::Seed(p) => seed_body(p@, v),
            AnyPacket::AccountLogin(p) => account_login_body(p@, v),
            AnyPacket::ServerList(p) => server_list_body(p@, v),
            AnyPacket::SelectGameServer(p) => select_game_server_body(p@, v),
            AnyPacket::GameServerLogin(p) => game_server_login_body(p@, v),
            AnyPacket::DeleteCharacter(p) => delete_character_body(p@, v),
            AnyPacket::CharacterList(p) => character_list_body(p@, v),
            AnyPacket::CreateCharacterEnhanced(p) => create_character_enhanced_body(p@, v),
            AnyPacket::CreateCharacterClassic(p) => create_character_classic_body(p@, v),
            AnyPacket::SelectCharacter(p) => select_character_body(p@, v),
        }
    }

    /// The wire form for `v` can carry the packet held.
    pub open spec fn valid_spec(&self, v: ClientVersion) -> bool {
        match self {
            AnyPacket::LegacySeed(p) => legacy_seed_valid(p@, v),
            AnyPacket::Seed(p) => seed_valid(p@, v),
            AnyPacket::AccountLogin(p) => account_login_valid(p@, v),
            AnyPacket::ServerList(p) => server_list_valid(p@, v),
            AnyPacket::SelectGameServer(p) => select_game_server_valid(p@, v),
            AnyPacket::GameServerLogin(p) => game_server_login_valid(p@, v),
            AnyPacket::DeleteCharacter(p) => delete_character_valid(p@, v),
            AnyPacket::CharacterList(p) => character_list_valid(p@, v),
            AnyPacket::CreateCharacterEnhanced(p) => create_character_enhanced_valid(p@, v),
            AnyPacket::CreateCharacterClassic(p) => create_character_classic_valid(p@, v),
            AnyPacket::SelectCharacter(p) => select_character_valid(p@, v),
        }
    }

    /// The registry's entry for the packet held.
    pub fn registration(&self) -> (r: Option<PacketRegistration>)
        ensures
            r == (match self.type_spec() {
                Some(t) => registration_for(t.kind_spec()),
                None => None,
            }),
            r matches Some(g) ==> g.packet_kind == self.kind_spec() && self.type_spec() == Some(
                g.packet_type,
            ),
    {
        let t = match self {
            AnyPacket::LegacySeed(_) => None,
            AnyPacket::Seed(_) => Some(PacketType::Seed),
            AnyPacket::AccountLogin(_) => Some(PacketType::AccountLogin),
            AnyPacket::ServerList(_) => Some(PacketType::ServerList),
            AnyPacket::SelectGameServer(_) => Some(PacketType::SelectGameServer),
            AnyPacket::GameServerLogin(_) => Some(PacketType::GameServerLogin),
            AnyPacket::DeleteCharacter(_) => Some(PacketType::DeleteCharacter),
            AnyPacket::CharacterList(_) => Some(PacketType::CharacterList),
            AnyPacket::CreateCharacterEnhanced(_) => Some(PacketType::CreateCharacterEnhanced),
            AnyPacket::CreateCharacterClassic(_) => Some(PacketType::CreateCharacterClassic),
            AnyPacket::SelectCharacter(_) => Some(PacketType::SelectCharacter),
        };
        match t {
            Some(t) => Some(PacketRegistration { packet_kind: t.packet_kind(), packet_type: t }),
            None => None,
        }
    }

    pub fn packet_kind(&self) -> (r: u8)
        ensures
            r == self.kind_spec(),
    {
        match self {
            AnyPacket::LegacySeed(_) => LegacySeed::packet_kind(),
            AnyPacket::Seed(_) => Seed::packet_kind(),
            AnyPacket::AccountLogin(_) => AccountLogin::packet_kind(),
            AnyPacket::ServerList(_) => ServerList::packet_kind(),
            AnyPacket::SelectGameServer(_) => SelectGameServer::packet_kind(),
            AnyPacket::GameServerLogin(_) => GameServerLogin::packet_kind(),
            AnyPacket::DeleteCharacter(_) => DeleteCharacter::packet_kind(),
            AnyPacket::CharacterList(_) => CharacterList::packet_kind(),
            AnyPacket::CreateCharacterEnhanced(_) => CreateCharacterEnhanced::packet_kind(),
            AnyPacket::CreateCharacterClassic(_) => CreateCharacterClassic::packet_kind(),
            AnyPacket::SelectCharacter(_) => SelectCharacter::packet_kind(),
        }
    }

    pub fn fixed_length(&self, client_version: ClientVersion) -> (r: Option<usize>)
        ensures
            length_view(r) == self.length_spec(client_version),
    {
        match self {
            AnyPacket::LegacySeed(_) => LegacySeed::fixed_length(client_version),
            AnyPacket::Seed(_) => Seed::fixed_length(client_version),
            AnyPacket::AccountLogin(_) => AccountLogin::fixed_length(client_version),
            AnyPacket::ServerList(_) => ServerList::fixed_length(client_version),
            AnyPacket::SelectGameServer(_) => SelectGameServer::fixed_length(client_version),
            AnyPacket::GameServerLogin(_) => GameServerLogin::fixed_length(client_version),
            AnyPacket::DeleteCharacter(_) => DeleteCharacter::fixed_length(client_version),
            AnyPacket::CharacterList(_) => CharacterList::fixed_length(client_version),
            AnyPacket::CreateCharacterEnhanced(_) => CreateCharacterEnhanced::fixed_length(client_version),
            AnyPacket::CreateCharacterClassic(_) => CreateCharacterClassic::fixed_length(client_version),
            AnyPacket::SelectCharacter(_) => SelectCharacter::fixed_length(client_version),
        }
    }

    /// Appends the body of the packet held, encoded for `client_version`,
    /// or fails, leaving `writer` as it was, where the value cannot be
    /// carried.
    pub fn encode(&self, client_version: ClientVersion, writer: &mut Vec<u8>) -> (r: Result<
        (),
        ProtocolError,
    >)
        ensures
            r is Ok <==> self.valid_spec(client_version),
            r is Ok ==> final(writer)@ == old(writer)@ + self.body_spec(client_version),
            r matches Err(e) ==> e == ProtocolError::UnencodableValue(self.kind_spec())
                && final(writer)@ == old(writer)@,
    {
        match self {
            AnyPacket::LegacySeed(p) => p.encode(client_version, writer),
            AnyPacket::Seed(p) => p.encode(client_version, writer),
            AnyPacket::AccountLogin(p) => p.encode(client_version, writer),
            AnyPacket::ServerList(p) => p.encode(client_version, writer),
            AnyPacket::SelectGameServer(p) => p.encode(client_version, writer),
            AnyPacket::GameServerLogin(p) => p.encode(client_version, writer),
            AnyPacket::DeleteCharacter(p) => p.encode(client_version, writer),
            AnyPacket::CharacterList(p) => p.encode(client_version, writer),
            AnyPacket::CreateCharacterEnhanced(p) => p.encode(client_version, writer),
            AnyPacket::CreateCharacterClassic(p) => p.encode(client_version, writer),
            AnyPacket::SelectCharacter(p) => p.encode(client_version, writer),
        }
    }

    /// Wraps a packet of any type.
    pub fn from_packet<P: Packet>(packet: P) -> (r: AnyPacket)
        ensures
            r == P::wrap_spec(packet),
            P::unwrap_spec(r) == Some(packet@),
            r.kind_spec() == P::kind_spec(),
            forall|v: ClientVersion| #[trigger] r.length_spec(v) == P::length_spec(v),
            forall|v: ClientVersion| #[trigger] r.body_spec(v) == P::body_spec(packet@, v),
            forall|v: ClientVersion| #[trigger] r.valid_spec(v) == P::valid_spec(packet@, v),
    {
        packet.into_any()
    }

    /// Borrows the packet held where it is of type `P`.
    pub fn downcast<P: Packet>(&self) -> (r: Option<&P>)
        ensures
            match r {
                Some(p) => P::unwrap_spec(*self) == Some(p@),
                None => P::unwrap_spec(*self) is None,
            },
    {
        P::from_any_ref(self)
    }

    /// Borrows the packet held mutably where it is of type `P`.
    pub fn downcast_mut<P: Packet>(&mut self) -> (r: Option<&mut P>)
        ensures
            match r {
                Some(p) => P::unwrap_spec(*old(self)) == Some(p@) && *final(self) == P::wrap_spec(
                    *final(p),
                ),
                None => P::unwrap_spec(*old(self)) is None && *final(self) == *old(self),
            },
    {
        P::from_any_mut(self)
    }

    /// Takes out the packet held where it is of type `P`, else gives the
    /// container back unchanged.
    pub fn into_downcast<P: Packet>(self) -> (r: Result<P, AnyPacket>)
        ensures
            match r {
                Ok(p) => P::unwrap_spec(self) == Some(p@),
                Err(a) => P::unwrap_spec(self) is None && a == self,
            },
    {
        P::from_any(self)
    }
}

impl<P: Packet> From<P> for AnyPacket {
    fn from(packet: P) -> (r: AnyPacket) {
        packet.into_any()
    }
}

impl<P: Packet> vstd::std_specs::convert::FromSpecImpl<P> for AnyPacket {
    open spec fn obeys_from_spec() -> bool {
        true
    }

    open spec fn from_spec(v: P) -> AnyPacket {
        P::wrap_spec(v)
    }
}

/// Decoding the body of a registered packet, encoded for a version, gives
/// back the packet that was encoded, as far as that version carries it.
pub proof fn lemma_round_trip(a: AnyPacket, v: ClientVersion)
    requires
        a.valid_spec(v),
        a.type_spec() is Some,
    ensures
        a.type_spec().unwrap().parses(v, a.body_spec(v)),
        a.type_spec().unwrap().recovers(v, a.body_spec(v), a),
{
    match a {
        AnyPacket::LegacySeed(p) => {},
        AnyPacket::Seed(p) => Seed::lemma_round_trip(p@, v),
        AnyPacket::AccountLogin(p) => AccountLogin::lemma_round_trip(p@, v),
        AnyPacket::ServerList(p) => ServerList::lemma_round_trip(p@, v),
        AnyPacket::SelectGameServer(p) => SelectGameServer::lemma_round_trip(p@, v),
        AnyPacket::GameServerLogin(p) => GameServerLogin::lemma_round_trip(p@, v),
        AnyPacket::DeleteCharacter(p) => DeleteCharacter::lemma_round_trip(p@, v),
        AnyPacket::CharacterList(p) => CharacterList::lemma_round_trip(p@, v),
        AnyPacket::CreateCharacterEnhanced(p) => CreateCharacterEnhanced::lemma_round_trip(p@, v),
        AnyPacket::CreateCharacterClassic(p) => CreateCharacterClassic::lemma_round_trip(p@, v),
        AnyPacket::SelectCharacter(p) => SelectCharacter::lemma_round_trip(p@, v),
    }
}

/// Where the length of a packet is fixed for a version, the body that
/// `encode` writes has exactly that length.
pub proof fn lemma_fixed_length(a: AnyPacket, v: ClientVersion)
    requires
        a.valid_spec(v),
    ensures
        a.length_spec(v) matches Some(n) ==> a.body_spec(v).len() == n,
{
    match a {
        AnyPacket::LegacySeed(p) => LegacySeed::lemma_fixed_length(p@, v),
        AnyPacket::Seed(p) => Seed::lemma_fixed_length(p@, v),
        AnyPacket::AccountLogin(p) => AccountLogin::lemma_fixed_length(p@, v),
        AnyPacket::ServerList(p) => ServerList::lemma_fixed_length(p@, v),
        AnyPacket::SelectGameServer(p) => SelectGameServer::lemma_fixed_length(p@, v),
        AnyPacket::GameServerLogin(p) => GameServerLogin::lemma_fixed_length(p@, v),
        AnyPacket::DeleteCharacter(p) => DeleteCharacter::lemma_fixed_length(p@, v),
        AnyPacket::CharacterList(p) => CharacterList::lemma_fixed_length(p@, v),
        AnyPacket::CreateCharacterEnhanced(p) => CreateCharacterEnhanced::lemma_fixed_length(p@, v),
        AnyPacket::CreateCharacterClassic(p) => CreateCharacterClassic::lemma_fixed_length(p@, v),
        AnyPacket::SelectCharacter(p) => SelectCharacter::lemma_fixed_length(p@, v),
    }
}

} // verus!
