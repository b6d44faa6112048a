use yewoh_core::any_packet::{packet_registry, AnyPacket, PacketType};
use yewoh_core::error::ProtocolError;
use yewoh_core::login::{
    AccountLogin, DeleteCharacter, GameServer, GameServerLogin, LegacySeed, Seed,
    SelectGameServer, ServerList,
};
use yewoh_core::packet::Packet;
use yewoh_core::version::ClientVersion;

fn version() -> ClientVersion {
    ClientVersion::new(7, 0, 15, 1)
}

fn encode<T: Packet>(p: &T) -> Vec<u8> {
    let mut out = Vec::new();
    p.encode(version(), &mut out).unwrap();
    out
}

fn server(index: u16, name: &str) -> GameServer {
    GameServer {
        server_index: index,
        server_name: name.as_bytes().to_vec(),
        percent_full: 12,
        timezone: 3,
        ip: 0x7f00_0001,
    }
}

#[test]
fn seed_layout_and_round_trip() {
    let seed = Seed { seed: 0x0102_0304, client_version: version() };
    let body = encode(&seed);
    assert_eq!(body, vec![1, 2, 3, 4, 0, 0, 0, 7, 0, 0, 0, 0, 0, 0, 0, 15, 0, 0, 0, 1]);
    assert_eq!(Seed::fixed_length(version()), Some(body.len()));
    assert_eq!(Seed::decode(version(), &body).unwrap(), seed);
}

#[test]
fn legacy_seed_round_trip() {
    let seed = LegacySeed { seed: 0xc0a8_0001 };
    let body = encode(&seed);
    assert_eq!(body, vec![0xc0, 0xa8, 0, 1]);
    assert_eq!(LegacySeed::decode(version(), &body).unwrap(), seed);
}

#[test]
fn select_game_server_round_trip_at_bounds() {
    for id in [0u16, 1, 0xffff] {
        let p = SelectGameServer { server_id: id };
        let body = encode(&p);
        assert_eq!(body.len(), 2);
        assert_eq!(SelectGameServer::decode(version(), &body).unwrap(), p);
    }
}

#[test]
fn account_login_fixed_length_at_bounds() {
    let empty = AccountLogin { username: vec![], password: vec![], next_login_key: 0 };
    let full = AccountLogin {
        username: vec![b'u'; 30],
        password: vec![b'p'; 30],
        next_login_key: 0xff,
    };
    for p in [empty, full] {
        let body = encode(&p);
        assert_eq!(Some(body.len()), AccountLogin::fixed_length(version()));
        assert_eq!(body.len(), 61);
        assert_eq!(AccountLogin::decode(version(), &body).unwrap(), p);
    }
}

#[test]
fn account_login_layout() {
    let p = AccountLogin { username: b"admin".to_vec(), password: b"pw".to_vec(), next_login_key: 9 };
    let body = encode(&p);
    assert_eq!(&body[0..6], b"admin\0");
    assert!(body[5..30].iter().all(|b| *b == 0));
    assert_eq!(&body[30..33], b"pw\0");
    assert_eq!(body[60], 9);
}

#[test]
fn overlong_name_is_refused() {
    let p = AccountLogin { username: vec![b'x'; 31], password: b"pw".to_vec(), next_login_key: 1 };
    let mut out = vec![7u8];
    assert_eq!(p.encode(version(), &mut out), Err(ProtocolError::UnencodableValue(0x80)));
    assert_eq!(out, vec![7u8]);
}

#[test]
fn name_with_nul_is_refused() {
    let p = GameServerLogin { seed: 1, username: b"a\0b".to_vec(), password: vec![] };
    let mut out = Vec::new();
    assert_eq!(p.encode(version(), &mut out), Err(ProtocolError::UnencodableValue(0x91)));
    assert!(out.is_empty());
}

#[test]
fn game_server_login_round_trip() {
    let p = GameServerLogin { seed: u32::MAX, username: b"name".to_vec(), password: vec![] };
    let body = encode(&p);
    assert_eq!(body.len(), 64);
    assert_eq!(&body[0..4], &[0xff, 0xff, 0xff, 0xff]);
    assert_eq!(GameServerLogin::decode(version(), &body).unwrap(), p);
}

#[test]
fn delete_character_round_trip() {
    let p = DeleteCharacter { password: b"secret".to_vec(), character_index: 4, client_ip: 0x0a00_0002 };
    let body = encode(&p);
    assert_eq!(body.len(), 38);
    assert_eq!(&body[30..38], &[0, 0, 0, 4, 10, 0, 0, 2]);
    assert_eq!(DeleteCharacter::decode(version(), &body).unwrap(), p);
}

#[test]
fn server_list_round_trip() {
    let p = ServerList { system_info_flags: 0x5d, game_servers: vec![server(0, "Alpha"), server(1, "Beta")] };
    let body = encode(&p);
    assert_eq!(ServerList::fixed_length(version()), None);
    assert_eq!(body.len(), 3 + 2 * 40);
    assert_eq!(&body[0..3], &[0x5d, 0, 2]);
    assert_eq!(ServerList::decode(version(), &body).unwrap(), p);
}

#[test]
fn empty_server_list_round_trip() {
    let p = ServerList { system_info_flags: 0, game_servers: vec![] };
    let body = encode(&p);
    assert_eq!(body, vec![0, 0, 0]);
    assert_eq!(ServerList::decode(version(), &body).unwrap(), p);
}

#[test]
fn truncated_payloads_fail_to_decode() {
    assert_eq!(Seed::decode(version(), &[0u8; 19]), Err(ProtocolError::MalformedPayload(0xef)));
    assert_eq!(AccountLogin::decode(version(), &[0u8; 60]), Err(ProtocolError::MalformedPayload(0x80)));
    assert_eq!(SelectGameServer::decode(version(), &[0u8; 3]), Err(ProtocolError::MalformedPayload(0xa0)));
    assert_eq!(GameServerLogin::decode(version(), &[]), Err(ProtocolError::MalformedPayload(0x91)));
    assert_eq!(DeleteCharacter::decode(version(), &[0u8; 39]), Err(ProtocolError::MalformedPayload(0x83)));
    assert_eq!(LegacySeed::decode(version(), &[1, 2, 3]), Err(ProtocolError::MalformedPayload(0xef)));
}

#[test]
fn server_list_with_wrong_count_fails() {
    // Declares two servers, carries one.
    let one = ServerList { system_info_flags: 0, game_servers: vec![server(0, "Only")] };
    let mut body = encode(&one);
    body[2] = 2;
    assert_eq!(ServerList::decode(version(), &body), Err(ProtocolError::MalformedPayload(0xa8)));
    assert_eq!(ServerList::decode(version(), &[0, 0]), Err(ProtocolError::MalformedPayload(0xa8)));
}

#[test]
fn registry_knows_each_type_under_its_kind() {
    let registry = packet_registry();
    let expected = [
        (0xefu8, PacketType::Seed),
        (0x80, PacketType::AccountLogin),
        (0xa8, PacketType::ServerList),
        (0xa0, PacketType::SelectGameServer),
        (0x91, PacketType::GameServerLogin),
        (0x83, PacketType::DeleteCharacter),
        (0x5d, PacketType::SelectCharacter),
        (0x00, PacketType::CreateCharacterClassic),
        (0xf8, PacketType::CreateCharacterEnhanced),
        (0xa9, PacketType::CharacterList),
    ];
    for (kind, t) in expected {
        let r = registry.lookup(kind).unwrap();
        assert_eq!(r.packet_kind, kind);
        assert_eq!(r.packet_type, t);
        assert_eq!(t.packet_kind(), kind);
    }
    let known: Vec<u8> = expected.iter().map(|e| e.0).collect();
    for kind in 0..=255u8 {
        if !known.contains(&kind) {
            assert!(registry.lookup(kind).is_none());
        }
    }
}

#[test]
fn any_packet_reports_kind_and_length_of_its_variant() {
    let a = AnyPacket::from_packet(SelectGameServer { server_id: 3 });
    assert_eq!(a.packet_kind(), 0xa0);
    assert_eq!(a.fixed_length(version()), Some(2));
    let r = a.registration().unwrap();
    assert_eq!(r.packet_type, PacketType::SelectGameServer);
    let l = AnyPacket::from_packet(LegacySeed { seed: 1 });
    assert!(l.registration().is_none());
    let s = AnyPacket::from_packet(ServerList { system_info_flags: 0, game_servers: vec![] });
    assert_eq!(s.fixed_length(version()), None);
}

#[test]
fn any_packet_encodes_like_its_packet() {
    let p = DeleteCharacter { password: b"pw".to_vec(), character_index: 1, client_ip: 2 };
    let direct = encode(&p);
    let a = AnyPacket::from_packet(p);
    let mut out = Vec::new();
    a.encode(version(), &mut out).unwrap();
    assert_eq!(out, direct);
}

#[test]
fn downcast_checks_the_type() {
    let a = AnyPacket::from_packet(SelectGameServer { server_id: 77 });
    assert_eq!(a.downcast::<SelectGameServer>(), Some(&SelectGameServer { server_id: 77 }));
    assert!(a.downcast::<Seed>().is_none());
    let a = match a.into_downcast::<AccountLogin>() {
        Ok(_) => panic!("wrong type taken out"),
        Err(a) => a,
    };
    assert_eq!(a.into_downcast::<SelectGameServer>().unwrap(), SelectGameServer { server_id: 77 });
}

#[test]
fn legacy_seed_and_seed_stay_apart() {
    let a = AnyPacket::from_packet(LegacySeed { seed: 5 });
    assert!(a.downcast::<Seed>().is_none());
    assert_eq!(a.downcast::<LegacySeed>(), Some(&LegacySeed { seed: 5 }));
}

#[test]
fn dropping_a_wrapped_list_releases_it() {
    let list = ServerList {
        system_info_flags: 1,
        game_servers: (0..100).map(|i| server(i, "Shard")).collect(),
    };
    let a = AnyPacket::from_packet(list);
    assert_eq!(a.packet_kind(), 0xa8);
    drop(a);
}

#[test]
fn type_decode_wraps_the_packet() {
    let body = encode(&SelectGameServer { server_id: 9 });
    let a = PacketType::SelectGameServer.decode(version(), &body).unwrap();
    assert_eq!(a.downcast::<SelectGameServer>(), Some(&SelectGameServer { server_id: 9 }));
    assert_eq!(PacketType::Seed.decode(version(), &body).unwrap_err(), ProtocolError::MalformedPayload(0xef));
}

#[test]
fn downcast_mut_writes_into_the_container() {
    let mut a: AnyPacket = SelectGameServer { server_id: 1 }.into();
    if let Some(p) = a.downcast_mut::<SelectGameServer>() {
        p.server_id = 42;
    }
    assert!(a.downcast_mut::<Seed>().is_none());
    let mut out = Vec::new();
    a.encode(version(), &mut out).unwrap();
    assert_eq!(out, vec![0, 42]);
}

#[test]
fn from_wraps_like_from_packet() {
    let a: AnyPacket = LegacySeed { seed: 8 }.into();
    assert_eq!(a.packet_kind(), 0xef);
    assert_eq!(a.fixed_length(version()), Some(4));
    assert_eq!(a.into_downcast::<LegacySeed>().unwrap(), LegacySeed { seed: 8 });
}
