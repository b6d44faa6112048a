//! The packets of the login and server-selection phase.
use vstd::prelude::*;

use crate::any_packet::AnyPacket;
use crate::error::ProtocolError;
use crate::packet::{length_view, Packet};
use crate::version::ClientVersion;
use crate::wire::{
    be16, be16_value, be32, be32_value, c_str, fixed_str, lemma_be16_round_trip,
    lemma_be32_round_trip, lemma_fixed_str_round_trip, fits_field, push_fixed_str, push_u16, push_u32,
    read_fixed_str, read_u16, read_u32, str_fits,
};

verus! {

/// The four-byte seed that a legacy client sends unframed as soon as it
/// connects.
#[derive(Clone, Copy, Debug, PartialEq, Eq, Structural)]
pub struct LegacySeed {
    pub seed: u32,
}

impl View for LegacySeed {
    type V = LegacySeed;

    open spec fn view(&self) -> LegacySeed {
        *self
    }
}

/// The fixed body length of a [`LegacySeed`] for `v`, if any.
pub open spec fn legacy_seed_length(v: ClientVersion) -> Option<nat> {
    Some(4)
}

/// The body that encodes a [`LegacySeed`] for `v`.
pub open spec fn legacy_seed_body(m: LegacySeed, v: ClientVersion) -> Seq<u8> {
    be32(m.seed)
}

/// The values of a [`LegacySeed`] that the wire form for `v` can carry.
pub open spec fn legacy_seed_valid(m: LegacySeed, v: ClientVersion) -> bool {
    true
}

impl Packet for LegacySeed {
    open spec fn kind_spec() -> u8 {
        0xef
    }

    open spec fn length_spec(v: ClientVersion) -> Option<nat> {
        legacy_seed_length(v)
    }

    open spec fn body_spec(m: LegacySeed, v: ClientVersion) -> Seq<u8> {
        legacy_seed_body(m, v)
    }

    open spec fn parse_spec(v: ClientVersion, payload: Seq<u8>) -> Option<LegacySeed> {
        if payload.len() == 4 {
            Some(LegacySeed { seed: be32_value(payload, 0) })
        } else {
            None
        }
    }

    open spec fn valid_spec(m: LegacySeed, v: ClientVersion) -> bool {
        legacy_seed_valid(m, v)
    }

    open spec fn at_version(m: LegacySeed, v: ClientVersion) -> LegacySeed {
        m
    }

    open spec fn unwrap_spec(a: AnyPacket) -> Option<LegacySeed> {
        match a {
            AnyPacket::LegacySeed(p) => Some(p),
            _ => None,
        }
    }

    fn packet_kind() -> (r: u8) {
        0xef
    }

    fn fixed_length(client_version: ClientVersion) -> (r: Option<usize>) {
        Some(4)
    }

    fn decode(client_version: ClientVersion, payload: &[u8]) -> (r: Result<LegacySeed, ProtocolError>) {
        if payload.len() != 4 {
            return Err(ProtocolError::MalformedPayload(0xef));
        }
        Ok(LegacySeed { seed: read_u32(payload, 0) })
    }

    fn encode(&self, client_version: ClientVersion, writer: &mut Vec<u8>) -> (r: Result<
        (),
        ProtocolError,
    >) {
        push_u32(writer, self.seed);
        Ok(())
    }

    open spec fn wrap_spec(p: LegacySeed) -> AnyPacket {
        AnyPacket::LegacySeed(p)
    }

    fn into_any(self) -> (r: AnyPacket) {
        AnyPacket::LegacySeed(self)
    }

    fn from_any_mut(a: &mut AnyPacket) -> (r: Option<&mut LegacySeed>) {
        match a {
            AnyPacket::LegacySeed(p) => Some(p),
            _ => None,
        }
    }

    fn from_any(a: AnyPacket) -> (r: Result<LegacySeed, AnyPacket>) {
        match a {
            AnyPacket::LegacySeed(p) => Ok(p),
            _ => Err(a),
        }
    }

    fn from_any_ref(a: &AnyPacket) -> (r: Option<&LegacySeed>) {
        match a {
            AnyPacket::LegacySeed(p) => Some(p),
            _ => None,
        }
    }

    proof fn lemma_round_trip(m: LegacySeed, v: ClientVersion) {
        let b = Self::body_spec(m, v);
        assert(b.subrange(0, 4) =~= be32(m.seed));
        lemma_be32_round_trip(m.seed, b, 0);
    }

    proof fn lemma_unwrap_kind(a: AnyPacket) {
    }

    proof fn lemma_fixed_length(m: LegacySeed, v: ClientVersion) {
    }
}

/// The framed hello of a newer client: its seed and its version.
#[derive(Clone, Copy, Debug, PartialEq, Eq, Structural)]
pub struct Seed {
    pub seed: u32,
    pub client_version: ClientVersion,
}

impl View for Seed {
    type V = Seed;

    open spec fn view(&self) -> Seed {
        *self
    }
}

/// The fixed body length of a [`Seed`] for `v`, if any.
pub open spec fn seed_length(v: ClientVersion) -> Option<nat> {
    Some(20)
}

/// The body that encodes a [`Seed`] for `v`.
pub open spec fn seed_body(m: Seed, v: ClientVersion) -> Seq<u8> {
    be32(m.seed) + be32(m.client_version.major) + be32(m.client_version.minor) + be32(
        m.client_version.revision,
    ) + be32(m.client_version.patch)
}

/// The values of a [`Seed`] that the wire form for `v` can carry.
pub open spec fn seed_valid(m: Seed, v: ClientVersion) -> bool {
    true
}

impl Packet for Seed {
    open spec fn kind_spec() -> u8 {
        0xef
    }

    open spec fn length_spec(v: ClientVersion) -> Option<nat> {
        seed_length(v)
    }

    open spec fn body_spec(m: Seed, v: ClientVersion) -> Seq<u8> {
        seed_body(m, v)
    }

    open spec fn parse_spec(v: ClientVersion, payload: Seq<u8>) -> Option<Seed> {
        if payload.len() == 20 {
            Some(
                Seed {
                    seed: be32_value(payload, 0),
                    client_version: ClientVersion {
                        major: be32_value(payload, 4),
                        minor: be32_value(payload, 8),
                        revision: be32_value(payload, 12),
                        patch: be32_value(payload, 16),
                    },
                },
            )
        } else {
            None
        }
    }

    open spec fn valid_spec(m: Seed, v: ClientVersion) -> bool {
        seed_valid(m, v)
    }

    open spec fn at_version(m: Seed, v: ClientVersion) -> Seed {
        m
    }

    open spec fn unwrap_spec(a: AnyPacket) -> Option<Seed> {
        match a {
            AnyPacket::Seed(p) => Some(p),
            _ => None,
        }
    }

    fn packet_kind() -> (r: u8) {
        0xef
    }

    fn fixed_length(client_version: ClientVersion) -> (r: Option<usize>) {
        Some(20)
    }

    fn decode(client_version: ClientVersion, payload: &[u8]) -> (r: Result<Seed, ProtocolError>) {
        if payload.len() != 20 {
            return Err(ProtocolError::MalformedPayload(0xef));
        }
        Ok(
            Seed {
                seed: read_u32(payload, 0),
                client_version: ClientVersion {
                    major: read_u32(payload, 4),
                    minor: read_u32(payload, 8),
                    revision: read_u32(payload, 12),
                    patch: read_u32(payload, 16),
                },
            },
        )
    }

    fn encode(&self, client_version: ClientVersion, writer: &mut Vec<u8>) -> (r: Result<
        (),
        ProtocolError,
    >) {
        push_u32(writer, self.seed);
        push_u32(writer, self.client_version.major);
        push_u32(writer, self.client_version.minor);
        push_u32(writer, self.client_version.revision);
        push_u32(writer, self.client_version.patch);
        assert(writer@ =~= old(writer)@ + Self::body_spec(*self, client_version));
        Ok(())
    }

    open spec fn wrap_spec(p: Seed) -> AnyPacket {
        AnyPacket::Seed(p)
    }

    fn into_any(self) -> (r: AnyPacket) {
        AnyPacket::Seed(self)
    }

    fn from_any_mut(a: &mut AnyPacket) -> (r: Option<&mut Seed>) {
        match a {
            AnyPacket::Seed(p) => Some(p),
            _ => None,
        }
    }

    fn from_any(a: AnyPacket) -> (r: Result<Seed, AnyPacket>) {
        match a {
            AnyPacket::Seed(p) => Ok(p),
            _ => Err(a),
        }
    }

    fn from_any_ref(a: &AnyPacket) -> (r: Option<&Seed>) {
        match a {
            AnyPacket::Seed(p) => Some(p),
            _ => None,
        }
    }

    proof fn lemma_round_trip(m: Seed, v: ClientVersion) {
        let b = Self::body_spec(m, v);
        assert(b.subrange(0, 4) =~= be32(m.seed));
        assert(b.subrange(4, 8) =~= be32(m.client_version.major));
        assert(b.subrange(8, 12) =~= be32(m.client_version.minor));
        assert(b.subrange(12, 16) =~= be32(m.client_version.revision));
        assert(b.subrange(16, 20) =~= be32(m.client_version.patch));
        lemma_be32_round_trip(m.seed, b, 0);
        lemma_be32_round_trip(m.client_version.major, b, 4);
        lemma_be32_round_trip(m.client_version.minor, b, 8);
        lemma_be32_round_trip(m.client_version.revision, b, 12);
        lemma_be32_round_trip(m.client_version.patch, b, 16);
    }

    proof fn lemma_unwrap_kind(a: AnyPacket) {
    }

    proof fn lemma_fixed_length(m: Seed, v: ClientVersion) {
    }
}

/// The game server that the client picked from the list.
#[derive(Clone, Copy, Debug, PartialEq, Eq, Structural)]
pub struct SelectGameServer {
    pub server_id: u16,
}

impl View for SelectGameServer {
    type V = SelectGameServer;

    open spec fn view(&self) -> SelectGameServer {
        *self
    }
}

/// The fixed body length of a [`SelectGameServer`] for `v`, if any.
pub open spec fn select_game_server_length(v: ClientVersion) -> Option<nat> {
    Some(2)
}

/// The body that encodes a [`SelectGameServer`] for `v`.
pub open spec fn select_game_server_body(m: SelectGameServer, v: ClientVersion) -> Seq<u8> {
    be16(m.server_id)
}

/// The values of a [`SelectGameServer`] that the wire form for `v` can carry.
pub open spec fn select_game_server_valid(m: SelectGameServer, v: ClientVersion) -> bool {
    true
}

impl Packet for SelectGameServer {
    open spec fn kind_spec() -> u8 {
        0xa0
    }

    open spec fn length_spec(v: ClientVersion) -> Option<nat> {
        select_game_server_length(v)
    }

    open spec fn body_spec(m: SelectGameServer, v: ClientVersion) -> Seq<u8> {
        select_game_server_body(m, v)
    }

    open spec fn parse_spec(v: ClientVersion, payload: Seq<u8>) -> Option<SelectGameServer> {
        if payload.len() == 2 {
            Some(SelectGameServer { server_id: be16_value(payload[0], payload[1]) })
        } else {
            None
        }
    }

    open spec fn valid_spec(m: SelectGameServer, v: ClientVersion) -> bool {
        select_game_server_valid(m, v)
    }

    open spec fn at_version(m: SelectGameServer, v: ClientVersion) -> SelectGameServer {
        m
    }

    open spec fn unwrap_spec(a: AnyPacket) -> Option<SelectGameServer> {
        match a {
            AnyPacket::SelectGameServer(p) => Some(p),
            _ => None,
        }
    }

    fn packet_kind() -> (r: u8) {
        0xa0
    }

    fn fixed_length(client_version: ClientVersion) -> (r: Option<usize>) {
        Some(2)
    }

    fn decode(client_version: ClientVersion, payload: &[u8]) -> (r: Result<
        SelectGameServer,
        ProtocolError,
    >) {
        if payload.len() != 2 {
            return Err(ProtocolError::MalformedPayload(0xa0));
        }
        Ok(SelectGameServer { server_id: read_u16(payload, 0) })
    }

    fn encode(&self, client_version: ClientVersion, writer: &mut Vec<u8>) -> (r: Result<
        (),
        ProtocolError,
    >) {
        push_u16(writer, self.server_id);
        Ok(())
    }

    open spec fn wrap_spec(p: SelectGameServer) -> AnyPacket {
        AnyPacket::SelectGameServer(p)
    }

    fn into_any(self) -> (r: AnyPacket) {
        AnyPacket::SelectGameServer(self)
    }

    fn from_any_mut(a: &mut AnyPacket) -> (r: Option<&mut SelectGameServer>) {
        match a {
            AnyPacket::SelectGameServer(p) => Some(p),
            _ => None,
        }
    }

    fn from_any(a: AnyPacket) -> (r: Result<SelectGameServer, AnyPacket>) {
        match a {
            AnyPacket::SelectGameServer(p) => Ok(p),
            _ => Err(a),
        }
    }

    fn from_any_ref(a: &AnyPacket) -> (r: Option<&SelectGameServer>) {
        match a {
            AnyPacket::SelectGameServer(p) => Some(p),
            _ => None,
        }
    }

    proof fn lemma_round_trip(m: SelectGameServer, v: ClientVersion) {
        lemma_be16_round_trip(m.server_id);
    }

    proof fn lemma_unwrap_kind(a: AnyPacket) {
    }

    proof fn lemma_fixed_length(m: SelectGameServer, v: ClientVersion) {
    }
}


/// The width of the account name and password fields.
pub const CREDENTIAL_LENGTH: usize = 30;

/// The credentials that a client offers to the login server.
#[derive(Clone, Debug, PartialEq, Eq)]
pub struct AccountLogin {
    pub username: Vec<u8>,
    pub password: Vec<u8>,
    pub next_login_key: u8,
}

/// The value of an [`AccountLogin`].
pub struct AccountLoginView {
    pub username: Seq<u8>,
    pub password: Seq<u8>,
    pub next_login_key: u8,
}

impl View for AccountLogin {
    type V = AccountLoginView;

    open spec fn view(&self) -> AccountLoginView {
        AccountLoginView {
            username: self.username@,
            password: self.password@,
            next_login_key: self.next_login_key,
        }
    }
}

/// The fixed body length of a [`AccountLogin`] for `v`, if any.
pub open spec fn account_login_length(v: ClientVersion) -> Option<nat> {
    Some(61)
}

/// The body that encodes a [`AccountLogin`] for `v`.
pub open spec fn account_login_body(m: AccountLoginView, v: ClientVersion) -> Seq<u8> {
    fixed_str(m.username, 30) + fixed_str(m.password, 30) + seq![m.next_login_key]
}

/// The values of a [`AccountLogin`] that the wire form for `v` can carry.
pub open spec fn account_login_valid(m: AccountLoginView, v: ClientVersion) -> bool {
    str_fits(m.username, 30) && str_fits(m.password, 30)
}

impl Packet for AccountLogin {
    open spec fn kind_spec() -> u8 {
        0x80
    }

    open spec fn length_spec(v: ClientVersion) -> Option<nat> {
        account_login_length(v)
    }

    open spec fn body_spec(m: AccountLoginView, v: ClientVersion) -> Seq<u8> {
        account_login_body(m, v)
    }

    open spec fn parse_spec(v: ClientVersion, payload: Seq<u8>) -> Option<AccountLoginView> {
        if payload.len() == 61 {
            Some(
                AccountLoginView {
                    username: c_str(payload.subrange(0, 30)),
                    password: c_str(payload.subrange(30, 60)),
                    next_login_key: payload[60],
                },
            )
        } else {
            None
        }
    }

    open spec fn valid_spec(m: AccountLoginView, v: ClientVersion) -> bool {
        account_login_valid(m, v)
    }

    open spec fn at_version(m: AccountLoginView, v: ClientVersion) -> AccountLoginView {
        m
    }

    open spec fn unwrap_spec(a: AnyPacket) -> Option<AccountLoginView> {
        match a {
            AnyPacket::AccountLogin(p) => Some(p@),
            _ => None,
        }
    }

    fn packet_kind() -> (r: u8) {
        0x80
    }

    fn fixed_length(client_version: ClientVersion) -> (r: Option<usize>) {
        Some(61)
    }

    fn decode(client_version: ClientVersion, payload: &[u8]) -> (r: Result<
        AccountLogin,
        ProtocolError,
    >) {
        if payload.len() != 61 {
            return Err(ProtocolError::MalformedPayload(0x80));
        }
        Ok(
            AccountLogin {
                username: read_fixed_str(payload, 0, CREDENTIAL_LENGTH),
                password: read_fixed_str(payload, 30, CREDENTIAL_LENGTH),
                next_login_key: payload[60],
            },
        )
    }

    fn encode(&self, client_version: ClientVersion, writer: &mut Vec<u8>) -> (r: Result<
        (),
        ProtocolError,
    >) {
        if !fits_field(&self.username, CREDENTIAL_LENGTH) || !fits_field(
            &self.password,
            CREDENTIAL_LENGTH,
        ) {
            return Err(ProtocolError::UnencodableValue(0x80));
        }
        push_fixed_str(writer, &self.username, CREDENTIAL_LENGTH);
        push_fixed_str(writer, &self.password, CREDENTIAL_LENGTH);
        writer.push(self.next_login_key);
        assert(writer@ =~= old(writer)@ + Self::body_spec(self@, client_version));
        Ok(())
    }

    open spec fn wrap_spec(p: AccountLogin) -> AnyPacket {
        AnyPacket::AccountLogin(p)
    }

    fn into_any(self) -> (r: AnyPacket) {
        AnyPacket::AccountLogin(self)
    }

    fn from_any_mut(a: &mut AnyPacket) -> (r: Option<&mut AccountLogin>) {
        match a {
            AnyPacket::AccountLogin(p) => Some(p),
            _ => None,
        }
    }

    fn from_any(a: AnyPacket) -> (r: Result<AccountLogin, AnyPacket>) {
        match a {
            AnyPacket::AccountLogin(p) => Ok(p),
            _ => Err(a),
        }
    }

    fn from_any_ref(a: &AnyPacket) -> (r: Option<&AccountLogin>) {
        match a {
            AnyPacket::AccountLogin(p) => Some(p),
            _ => None,
        }
    }

    proof fn lemma_round_trip(m: AccountLoginView, v: ClientVersion) {
        let b = Self::body_spec(m, v);
        lemma_fixed_str_round_trip(m.username, 30);
        lemma_fixed_str_round_trip(m.password, 30);
        assert(b.subrange(0, 30) =~= fixed_str(m.username, 30));
        assert(b.subrange(30, 60) =~= fixed_str(m.password, 30));
    }

    proof fn lemma_unwrap_kind(a: AnyPacket) {
    }

    proof fn lemma_fixed_length(m: AccountLoginView, v: ClientVersion) {
    }
}

/// The credentials and seed that a client presents to the game server it
/// was handed over to.
#[derive(Clone, Debug, PartialEq, Eq)]
pub struct GameServerLogin {
    pub seed: u32,
    pub username: Vec<u8>,
    pub password: Vec<u8>,
}

/// The value of a [`GameServerLogin`].
pub struct GameServerLoginView {
    pub seed: u32,
    pub username: Seq<u8>,
    pub password: Seq<u8>,
}

impl View for GameServerLogin {
    type V = GameServerLoginView;

    open spec fn view(&self) -> GameServerLoginView {
        GameServerLoginView {
            seed: self.seed,
            username: self.username@,
            password: self.password@,
        }
    }
}

/// The fixed body length of a [`GameServerLogin`] for `v`, if any.
pub open spec fn game_server_login_length(v: ClientVersion) -> Option<nat> {
    Some(64)
}

/// The body that encodes a [`GameServerLogin`] for `v`.
pub open spec fn game_server_login_body(m: GameServerLoginView, v: ClientVersion) -> Seq<u8> {
    be32(m.seed) + fixed_str(m.username, 30) + fixed_str(m.password, 30)
}

/// The values of a [`GameServerLogin`] that the wire form for `v` can carry.
pub open spec fn game_server_login_valid(m: GameServerLoginView, v: ClientVersion) -> bool {
    str_fits(m.username, 30) && str_fits(m.password, 30)
}

impl Packet for GameServerLogin {
    open spec fn kind_spec() -> u8 {
        0x91
    }

    open spec fn length_spec(v: ClientVersion) -> Option<nat> {
        game_server_login_length(v)
    }

    open spec fn body_spec(m: GameServerLoginView, v: ClientVersion) -> Seq<u8> {
        game_server_login_body(m, v)
    }

    open spec fn parse_spec(v: ClientVersion, payload: Seq<u8>) -> Option<GameServerLoginView> {
        if payload.len() == 64 {
            Some(
                GameServerLoginView {
                    seed: be32_value(payload, 0),
                    username: c_str(payload.subrange(4, 34)),
                    password: c_str(payload.subrange(34, 64)),
                },
            )
        } else {
            None
        }
    }

    open spec fn valid_spec(m: GameServerLoginView, v: ClientVersion) -> bool {
        game_server_login_valid(m, v)
    }

    open spec fn at_version(m: GameServerLoginView, v: ClientVersion) -> GameServerLoginView {
        m
    }

    open spec fn unwrap_spec(a: AnyPacket) -> Option<GameServerLoginView> {
        match a {
            AnyPacket::GameServerLogin(p) => Some(p@),
            _ => None,
        }
    }

    fn packet_kind() -> (r: u8) {
        0x91
    }

    fn fixed_length(client_version: ClientVersion) -> (r: Option<usize>) {
        Some(64)
    }

    fn decode(client_version: ClientVersion, payload: &[u8]) -> (r: Result<
        GameServerLogin,
        ProtocolError,
    >) {
        if payload.len() != 64 {
            return Err(ProtocolError::MalformedPayload(0x91));
        }
        Ok(
            GameServerLogin {
                seed: read_u32(payload, 0),
                username: read_fixed_str(payload, 4, CREDENTIAL_LENGTH),
                password: read_fixed_str(payload, 34, CREDENTIAL_LENGTH),
            },
        )
    }

    fn encode(&self, client_version: ClientVersion, writer: &mut Vec<u8>) -> (r: Result<
        (),
        ProtocolError,
    >) {
        if !fits_field(&self.username, CREDENTIAL_LENGTH) || !fits_field(
            &self.password,
            CREDENTIAL_LENGTH,
        ) {
            return Err(ProtocolError::UnencodableValue(0x91));
        }
        push_u32(writer, self.seed);
        push_fixed_str(writer, &self.username, CREDENTIAL_LENGTH);
        push_fixed_str(writer, &self.password, CREDENTIAL_LENGTH);
        assert(writer@ =~= old(writer)@ + Self::body_spec(self@, client_version));
        Ok(())
    }

    open spec fn wrap_spec(p: GameServerLogin) -> AnyPacket {
        AnyPacket::GameServerLogin(p)
    }

    fn into_any(self) -> (r: AnyPacket) {
        AnyPacket::GameServerLogin(self)
    }

    fn from_any_mut(a: &mut AnyPacket) -> (r: Option<&mut GameServerLogin>) {
        match a {
            AnyPacket::GameServerLogin(p) => Some(p),
            _ => None,
        }
    }

    fn from_any(a: AnyPacket) -> (r: Result<GameServerLogin, AnyPacket>) {
        match a {
            AnyPacket::GameServerLogin(p) => Ok(p),
            _ => Err(a),
        }
    }

    fn from_any_ref(a: &AnyPacket) -> (r: Option<&GameServerLogin>) {
        match a {
            AnyPacket::GameServerLogin(p) => Some(p),
            _ => None,
        }
    }

    proof fn lemma_round_trip(m: GameServerLoginView, v: ClientVersion) {
        let b = Self::body_spec(m, v);
        lemma_fixed_str_round_trip(m.username, 30);
        lemma_fixed_str_round_trip(m.password, 30);
        assert(b.subrange(0, 4) =~= be32(m.seed));
        lemma_be32_round_trip(m.seed, b, 0);
        assert(b.subrange(4, 34) =~= fixed_str(m.username, 30));
        assert(b.subrange(34, 64) =~= fixed_str(m.password, 30));
    }

    proof fn lemma_unwrap_kind(a: AnyPacket) {
    }

    proof fn lemma_fixed_length(m: GameServerLoginView, v: ClientVersion) {
        assert(fixed_str(m.username, 30).len() == 30);
        assert(fixed_str(m.password, 30).len() == 30);
    }
}

/// A request to delete the character in a slot of the account.
#[derive(Clone, Debug, PartialEq, Eq)]
pub struct DeleteCharacter {
    pub password: Vec<u8>,
    pub character_index: u32,
    pub client_ip: u32,
}

/// The value of a [`DeleteCharacter`].
pub struct DeleteCharacterView {
    pub password: Seq<u8>,
    pub character_index: u32,
    pub client_ip: u32,
}

impl View for DeleteCharacter {
    type V = DeleteCharacterView;

    open spec fn view(&self) -> DeleteCharacterView {
        DeleteCharacterView {
            password: self.password@,
            character_index: self.character_index,
            client_ip: self.client_ip,
        }
    }
}

/// The fixed body length of a [`DeleteCharacter`] for `v`, if any.
pub open spec fn delete_character_length(v: ClientVersion) -> Option<nat> {
    Some(38)
}

/// The body that encodes a [`DeleteCharacter`] for `v`.
pub open spec fn delete_character_body(m: DeleteCharacterView, v: ClientVersion) -> Seq<u8> {
    fixed_str(m.password, 30) + be32(m.character_index) + be32(m.client_ip)
}

/// The values of a [`DeleteCharacter`] that the wire form for `v` can carry.
pub open spec fn delete_character_valid(m: DeleteCharacterView, v: ClientVersion) -> bool {
    str_fits(m.password, 30)
}

impl Packet for DeleteCharacter {
    open spec fn kind_spec() -> u8 {
        0x83
    }

    open spec fn length_spec(v: ClientVersion) -> Option<nat> {
        delete_character_length(v)
    }

    open spec fn body_spec(m: DeleteCharacterView, v: ClientVersion) -> Seq<u8> {
        delete_character_body(m, v)
    }

    open spec fn parse_spec(v: ClientVersion, payload: Seq<u8>) -> Option<DeleteCharacterView> {
        if payload.len() == 38 {
            Some(
                DeleteCharacterView {
                    password: c_str(payload.subrange(0, 30)),
                    character_index: be32_value(payload, 30),
                    client_ip: be32_value(payload, 34),
                },
            )
        } else {
            None
        }
    }

    open spec fn valid_spec(m: DeleteCharacterView, v: ClientVersion) -> bool {
        delete_character_valid(m, v)
    }

    open spec fn at_version(m: DeleteCharacterView, v: ClientVersion) -> DeleteCharacterView {
        m
    }

    open spec fn unwrap_spec(a: AnyPacket) -> Option<DeleteCharacterView> {
        match a {
            AnyPacket::DeleteCharacter(p) => Some(p@),
            _ => None,
        }
    }

    fn packet_kind() -> (r: u8) {
        0x83
    }

    fn fixed_length(client_version: ClientVersion) -> (r: Option<usize>) {
        Some(38)
    }

    fn decode(client_version: ClientVersion, payload: &[u8]) -> (r: Result<
        DeleteCharacter,
        ProtocolError,
    >) {
        if payload.len() != 38 {
            return Err(ProtocolError::MalformedPayload(0x83));
        }
        Ok(
            DeleteCharacter {
                password: read_fixed_str(payload, 0, CREDENTIAL_LENGTH),
                character_index: read_u32(payload, 30),
                client_ip: read_u32(payload, 34),
            },
        )
    }

    fn encode(&self, client_version: ClientVersion, writer: &mut Vec<u8>) -> (r: Result<
        (),
        ProtocolError,
    >) {
        if !fits_field(&self.password, CREDENTIAL_LENGTH) {
            return Err(ProtocolError::UnencodableValue(0x83));
        }
        push_fixed_str(writer, &self.password, CREDENTIAL_LENGTH);
        push_u32(writer, self.character_index);
        push_u32(writer, self.client_ip);
        assert(writer@ =~= old(writer)@ + Self::body_spec(self@, client_version));
        Ok(())
    }

    open spec fn wrap_spec(p: DeleteCharacter) -> AnyPacket {
        AnyPacket::DeleteCharacter(p)
    }

    fn into_any(self) -> (r: AnyPacket) {
        AnyPacket::DeleteCharacter(self)
    }

    fn from_any_mut(a: &mut AnyPacket) -> (r: Option<&mut DeleteCharacter>) {
        match a {
            AnyPacket::DeleteCharacter(p) => Some(p),
            _ => None,
        }
    }

    fn from_any(a: AnyPacket) -> (r: Result<DeleteCharacter, AnyPacket>) {
        match a {
            AnyPacket::DeleteCharacter(p) => Ok(p),
            _ => Err(a),
        }
    }

    fn from_any_ref(a: &AnyPacket) -> (r: Option<&DeleteCharacter>) {
        match a {
            AnyPacket::DeleteCharacter(p) => Some(p),
            _ => None,
        }
    }

    proof fn lemma_round_trip(m: DeleteCharacterView, v: ClientVersion) {
        let b = Self::body_spec(m, v);
        lemma_fixed_str_round_trip(m.password, 30);
        assert(b.subrange(0, 30) =~= fixed_str(m.password, 30));
        assert(b.subrange(30, 34) =~= be32(m.character_index));
        assert(b.subrange(34, 38) =~= be32(m.client_ip));
        lemma_be32_round_trip(m.character_index, b, 30);
        lemma_be32_round_trip(m.client_ip, b, 34);
    }

    proof fn lemma_unwrap_kind(a: AnyPacket) {
    }

    proof fn lemma_fixed_length(m: DeleteCharacterView, v: ClientVersion) {
        assert(fixed_str(m.password, 30).len() == 30);
    }
}


/// The width of a game server's name field.
pub const SERVER_NAME_LENGTH: usize = 32;

/// The width of one game server's entry in the server list.
pub const SERVER_ENTRY_LENGTH: usize = 40;

/// One game server that the login server offers.
#[derive(Clone, Debug, PartialEq, Eq)]
pub struct GameServer {
    pub server_index: u16,
    pub server_name: Vec<u8>,
    pub percent_full: u8,
    pub timezone: u8,
    pub ip: u32,
}

/// The value of a [`GameServer`].
pub struct GameServerView {
    pub server_index: u16,
    pub server_name: Seq<u8>,
    pub percent_full: u8,
    pub timezone: u8,
    pub ip: u32,
}

impl View for GameServer {
    type V = GameServerView;

    open spec fn view(&self) -> GameServerView {
        GameServerView {
            server_index: self.server_index,
            server_name: self.server_name@,
            percent_full: self.percent_full,
            timezone: self.timezone,
            ip: self.ip,
        }
    }
}

/// The forty bytes of one server's entry.
pub open spec fn server_entry(g: GameServerView) -> Seq<u8> {
    be16(g.server_index) + fixed_str(g.server_name, 32) + seq![g.percent_full, g.timezone] + be32(
        g.ip,
    )
}

/// The server that the forty bytes of `b` from `at` describe.
pub open spec fn parse_server_entry(b: Seq<u8>, at: int) -> GameServerView {
    GameServerView {
        server_index: be16_value(b[at], b[at + 1]),
        server_name: c_str(b.subrange(at + 2, at + 34)),
        percent_full: b[at + 34],
        timezone: b[at + 35],
        ip: be32_value(b, at + 36),
    }
}

/// The entries of `servers`, one after the other.
pub open spec fn server_entries(servers: Seq<GameServerView>) -> Seq<u8>
    decreases servers.len(),
{
    if servers.len() == 0 {
        Seq::empty()
    } else {
        server_entries(servers.drop_last()) + server_entry(servers.last())
    }
}

proof fn lemma_server_entry(g: GameServerView, b: Seq<u8>, at: int)
    requires
        str_fits(g.server_name, 32),
        0 <= at,
        at + 40 <= b.len(),
        b.subrange(at, at + 40) == server_entry(g),
    ensures
        parse_server_entry(b, at) == g,
{
    let e = server_entry(g);
    lemma_fixed_str_round_trip(g.server_name, 32);
    lemma_be16_round_trip(g.server_index);
    assert(e.subrange(0, 2) =~= be16(g.server_index));
    assert(e.subrange(2, 34) =~= fixed_str(g.server_name, 32));
    assert(e.subrange(36, 40) =~= be32(g.ip));
    assert(b.subrange(at + 2, at + 34) =~= e.subrange(2, 34));
    assert(b.subrange(at + 36, at + 40) =~= be32(g.ip));
    lemma_be32_round_trip(g.ip, b, at + 36);
    assert(b[at] == e[0]);
    assert(b[at + 1] == e[1]);
    assert(b[at + 34] == e[34]);
    assert(b[at + 35] == e[35]);
}

proof fn lemma_server_entries(servers: Seq<GameServerView>, i: int)
    requires
        0 <= i < servers.len(),
    ensures
        server_entries(servers).len() == 40 * servers.len(),
        server_entries(servers).subrange(40 * i, 40 * i + 40) == server_entry(servers[i]),
    decreases servers.len(),
{
    let n = servers.len() as int;
    let init = servers.drop_last();
    lemma_entries_length(servers);
    lemma_entries_length(init);
    if i < n - 1 {
        lemma_server_entries(init, i);
        assert(server_entries(servers).subrange(40 * i, 40 * i + 40) =~= server_entries(
            init,
        ).subrange(40 * i, 40 * i + 40));
    } else {
        assert(server_entries(servers).subrange(40 * i, 40 * i + 40) =~= server_entry(
            servers.last(),
        ));
    }
}

proof fn lemma_entries_length(servers: Seq<GameServerView>)
    ensures
        server_entries(servers).len() == 40 * servers.len(),
    decreases servers.len(),
{
    if servers.len() > 0 {
        lemma_entries_length(servers.drop_last());
    }
}

/// The list of game servers that the login server offers.
#[derive(Clone, Debug, PartialEq, Eq)]
pub struct ServerList {
    pub system_info_flags: u8,
    pub game_servers: Vec<GameServer>,
}

/// The value of a [`ServerList`].
pub struct ServerListView {
    pub system_info_flags: u8,
    pub game_servers: Seq<GameServerView>,
}

impl View for ServerList {
    type V = ServerListView;

    open spec fn view(&self) -> ServerListView {
        ServerListView {
            system_info_flags: self.system_info_flags,
            game_servers: self.game_servers@.map_values(|g: GameServer| g@),
        }
    }
}

/// The fixed body length of a [`ServerList`] for `v`, if any.
pub open spec fn server_list_length(v: ClientVersion) -> Option<nat> {
    None
}

/// The body that encodes a [`ServerList`] for `v`.
pub open spec fn server_list_body(m: ServerListView, v: ClientVersion) -> Seq<u8> {
    seq![m.system_info_flags] + be16(m.game_servers.len() as u16) + server_entries(
        m.game_servers,
    )
}

/// The values of a [`ServerList`] that the wire form for `v` can carry.
pub open spec fn server_list_valid(m: ServerListView, v: ClientVersion) -> bool {
    &&& m.game_servers.len() <= u16::MAX
    &&& forall|i: int|
        0 <= i < m.game_servers.len() ==> str_fits(#[trigger] m.game_servers[i].server_name, 32)
}

impl Packet for ServerList {
    open spec fn kind_spec() -> u8 {
        0xa8
    }

    open spec fn length_spec(v: ClientVersion) -> Option<nat> {
        server_list_length(v)
    }

    open spec fn body_spec(m: ServerListView, v: ClientVersion) -> Seq<u8> {
        server_list_body(m, v)
    }

    open spec fn parse_spec(v: ClientVersion, payload: Seq<u8>) -> Option<ServerListView> {
        if payload.len() >= 3 && payload.len() == 3 + 40 * be16_value(payload[1], payload[2]) {
            Some(
                ServerListView {
                    system_info_flags: payload[0],
                    game_servers: Seq::new(
                        be16_value(payload[1], payload[2]) as nat,
                        |i: int| parse_server_entry(payload, 3 + 40 * i),
                    ),
                },
            )
        } else {
            None
        }
    }

    open spec fn valid_spec(m: ServerListView, v: ClientVersion) -> bool {
        server_list_valid(m, v)
    }

    open spec fn at_version(m: ServerListView, v: ClientVersion) -> ServerListView {
        m
    }

    open spec fn unwrap_spec(a: AnyPacket) -> Option<ServerListView> {
        match a {
            AnyPacket::ServerList(p) => Some(p@),
            _ => None,
        }
    }

    fn packet_kind() -> (r: u8) {
        0xa8
    }

    fn fixed_length(client_version: ClientVersion) -> (r: Option<usize>) {
        None
    }

    fn decode(client_version: ClientVersion, payload: &[u8]) -> (r: Result<
        ServerList,
        ProtocolError,
    >) {
        if payload.len() < 3 {
            return Err(ProtocolError::MalformedPayload(0xa8));
        }
        let count = read_u16(payload, 1) as usize;
        if payload.len() != 3 + SERVER_ENTRY_LENGTH * count {
            return Err(ProtocolError::MalformedPayload(0xa8));
        }
        let ghost parsed = Self::parse_spec(client_version, payload@).unwrap().game_servers;
        let mut game_servers: Vec<GameServer> = Vec::new();
        for i in 0..count
            invariant
                payload@.len() == 3 + 40 * count,
                payload@.len() <= usize::MAX,
                count <= 0xffff,
                parsed.len() == count,
                forall|j: int|
                    0 <= j < count ==> #[trigger] parsed[j] == parse_server_entry(
                        payload@,
                        3 + 40 * j,
                    ),
                game_servers@.len() == i,
                game_servers@.map_values(|g: GameServer| g@) =~= parsed.take(i as int),
        {
            assert(3 + 40 * i + 40 <= payload@.len()) by (nonlinear_arith)
                requires
                    i < count,
                    payload@.len() == 3 + 40 * count,
            ;
            assert(40 * i <= 40 * 0xffff) by (nonlinear_arith)
                requires
                    i < count,
                    count <= 0xffff,
            ;
            let at = 3 + SERVER_ENTRY_LENGTH * i;
            let server_name = read_fixed_str(payload, at + 2, SERVER_NAME_LENGTH);
            let g = GameServer {
                server_index: read_u16(payload, at),
                server_name,
                percent_full: payload[at + 34],
                timezone: payload[at + 35],
                ip: read_u32(payload, at + 36),
            };
            assert(g@ == parsed[i as int]);
            let ghost before = game_servers@;
            game_servers.push(g);
            assert forall|j: int| 0 <= j <= i implies game_servers@[j]@ == parsed[j] by {
                if j < i {
                    assert(before.map_values(|g: GameServer| g@)[j] == parsed.take(i as int)[j]);
                }
            }
            assert(game_servers@.map_values(|g: GameServer| g@) =~= parsed.take(i + 1));
        }
        let r = ServerList { system_info_flags: payload[0], game_servers };
        assert(r@.game_servers =~= parsed);
        Ok(r)
    }

    fn encode(&self, client_version: ClientVersion, writer: &mut Vec<u8>) -> (r: Result<
        (),
        ProtocolError,
    >) {
        let ghost servers = self@.game_servers;
        if self.game_servers.len() > 0xffff {
            return Err(ProtocolError::UnencodableValue(0xa8));
        }
        for i in 0..self.game_servers.len()
            invariant
                servers == self@.game_servers,
                forall|j: int| 0 <= j < i ==> str_fits(#[trigger] servers[j].server_name, 32),
        {
            assert(servers[i as int] == self.game_servers@[i as int]@);
            if !fits_field(&self.game_servers[i].server_name, SERVER_NAME_LENGTH) {
                assert(!str_fits(servers[i as int].server_name, 32));
                return Err(ProtocolError::UnencodableValue(0xa8));
            }
        }
        writer.push(self.system_info_flags);
        #[verifier::truncate]
        let count = self.game_servers.len() as u16;
        push_u16(writer, count);
        let ghost head = writer@;
        for i in 0..self.game_servers.len()
            invariant
                servers == self@.game_servers,
                writer@ == head + server_entries(servers.take(i as int)),
        {
            let g = &self.game_servers[i];
            push_u16(writer, g.server_index);
            push_fixed_str(writer, &g.server_name, SERVER_NAME_LENGTH);
            writer.push(g.percent_full);
            writer.push(g.timezone);
            push_u32(writer, g.ip);
            assert(servers.take(i + 1).drop_last() =~= servers.take(i as int));
            assert(servers.take(i + 1).last() == g@);
            assert(writer@ =~= head + server_entries(servers.take(i + 1)));
        }
        assert(servers.take(servers.len() as int) =~= servers);
        assert(writer@ =~= old(writer)@ + Self::body_spec(self@, client_version));
        Ok(())
    }

    open spec fn wrap_spec(p: ServerList) -> AnyPacket {
        AnyPacket::ServerList(p)
    }

    fn into_any(self) -> (r: AnyPacket) {
        AnyPacket::ServerList(self)
    }

    fn from_any_mut(a: &mut AnyPacket) -> (r: Option<&mut ServerList>) {
        match a {
            AnyPacket::ServerList(p) => Some(p),
            _ => None,
        }
    }

    fn from_any(a: AnyPacket) -> (r: Result<ServerList, AnyPacket>) {
        match a {
            AnyPacket::ServerList(p) => Ok(p),
            _ => Err(a),
        }
    }

    fn from_any_ref(a: &AnyPacket) -> (r: Option<&ServerList>) {
        match a {
            AnyPacket::ServerList(p) => Some(p),
            _ => None,
        }
    }

    proof fn lemma_round_trip(m: ServerListView, v: ClientVersion) {
        let b = Self::body_spec(m, v);
        let n = m.game_servers.len();
        lemma_entries_length(m.game_servers);
        lemma_be16_round_trip(n as u16);
        let entries = server_entries(m.game_servers);
        assert(b.subrange(3, b.len() as int) =~= entries);
        let p = Self::parse_spec(v, b).unwrap().game_servers;
        assert forall|i: int| 0 <= i < n implies p[i] == m.game_servers[i] by {
            lemma_server_entries(m.game_servers, i);
            assert(0 <= 40 * i) by (nonlinear_arith)
                requires
                    0 <= i,
            ;
            assert(40 * i + 40 <= 40 * n) by (nonlinear_arith)
                requires
                    i < n,
            ;
            assert(b.subrange(3 + 40 * i, 3 + 40 * i + 40) =~= entries.subrange(
                40 * i,
                40 * i + 40,
            ));
            assert(str_fits(m.game_servers[i].server_name, 32));
            lemma_server_entry(m.game_servers[i], b, 3 + 40 * i);
        }
        assert(p =~= m.game_servers);
    }

    proof fn lemma_unwrap_kind(a: AnyPacket) {
    }

    proof fn lemma_fixed_length(m: ServerListView, v: ClientVersion) {
    }
}

} // verus!
