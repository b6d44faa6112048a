use yewoh_core::any_packet::{packet_registry, AnyPacket};
use yewoh_core::error::ProtocolError;
use yewoh_core::framing::{ReadState, Received, WriteState};
use yewoh_core::login::{AccountLogin, GameServer, LegacySeed, Seed, SelectGameServer, ServerList};
use yewoh_core::version::ClientVersion;

fn version() -> ClientVersion {
    ClientVersion::new(7, 0, 15, 1)
}

fn take_packet(r: Result<Received, ProtocolError>) -> (AnyPacket, usize) {
    match r {
        Ok(Received::Packet(a, n)) => (a, n),
        other => panic!("expected a packet, got {:?}", other),
    }
}

fn need_more(r: Result<Received, ProtocolError>) -> usize {
    match r {
        Ok(Received::NeedMore(n)) => n,
        other => panic!("expected a request for more bytes, got {:?}", other),
    }
}

#[test]
fn unknown_kind_fails_the_stream() {
    let registry = packet_registry();
    let mut reader = ReadState::new(false);
    let r = reader.receive(&registry, version(), &[0x42, 1, 2, 3]);
    assert_eq!(r.unwrap_err(), ProtocolError::UnknownPacketKind(0x42));
}

#[test]
fn legacy_handshake_then_framing() {
    let registry = packet_registry();
    let mut reader = ReadState::new(true);
    let mut input = vec![0x0a, 0x00, 0x00, 0x01];
    input.extend([0xa0, 0x00, 0x05]);
    assert_eq!(need_more(reader.receive(&registry, version(), &input[..2])), 4);
    let (a, used) = take_packet(reader.receive(&registry, version(), &input));
    assert_eq!(used, 4);
    assert_eq!(a.downcast::<LegacySeed>(), Some(&LegacySeed { seed: 0x0a00_0001 }));
    let (b, used) = take_packet(reader.receive(&registry, version(), &input[4..]));
    assert_eq!(used, 3);
    assert_eq!(b.downcast::<SelectGameServer>(), Some(&SelectGameServer { server_id: 5 }));
    // A second seed-like prefix is now read as a framed kind.
    let r = reader.receive(&registry, version(), &[0x0a, 0, 0, 1]);
    assert_eq!(r.unwrap_err(), ProtocolError::UnknownPacketKind(0x0a));
}

#[test]
fn framed_hello_skips_the_legacy_seed() {
    let registry = packet_registry();
    let mut writer = WriteState::new(false);
    let seed = Seed { seed: 99, client_version: version() };
    let frame = writer.send(version(), &seed).unwrap();
    assert_eq!(frame.len(), 21);
    assert_eq!(frame[0], 0xef);
    let mut reader = ReadState::new(true);
    assert_eq!(need_more(reader.receive(&registry, version(), &frame[..5])), 21);
    let (a, used) = take_packet(reader.receive(&registry, version(), &frame));
    assert_eq!(used, 21);
    assert_eq!(a.downcast::<Seed>(), Some(&seed));
}

#[test]
fn variable_packet_round_trip() {
    let registry = packet_registry();
    let list = ServerList {
        system_info_flags: 0xcc,
        game_servers: vec![GameServer {
            server_index: 0,
            server_name: b"Test Shard".to_vec(),
            percent_full: 0,
            timezone: 0,
            ip: 0x7f00_0001,
        }],
    };
    let mut writer = WriteState::new(true);
    let frame = writer.send_any(version(), &AnyPacket::from_packet(list.clone())).unwrap();
    assert_eq!(frame.len(), 46);
    assert_eq!(&frame[0..3], &[0xa8, 0x00, 46]);
    let mut reader = ReadState::new(false);
    assert_eq!(need_more(reader.receive(&registry, version(), &frame[..1])), 3);
    assert_eq!(need_more(reader.receive(&registry, version(), &frame[..10])), 46);
    let mut stream = frame.clone();
    stream.extend([0xa0, 0, 1]);
    let (a, used) = take_packet(reader.receive(&registry, version(), &stream));
    assert_eq!(used, 46);
    assert_eq!(a.into_downcast::<ServerList>().unwrap(), list);
}

#[test]
fn length_below_header_is_malformed() {
    let registry = packet_registry();
    let mut reader = ReadState::new(false);
    let r = reader.receive(&registry, version(), &[0xa8, 0x00, 0x02, 0x00]);
    assert_eq!(r.unwrap_err(), ProtocolError::MalformedLength(2));
}

#[test]
fn bad_payload_surfaces_as_decode_failure() {
    let registry = packet_registry();
    let mut reader = ReadState::new(false);
    // A server list that declares one entry but carries none.
    let r = reader.receive(&registry, version(), &[0xa8, 0x00, 0x06, 0x00, 0x00, 0x01]);
    assert_eq!(r.unwrap_err(), ProtocolError::MalformedPayload(0xa8));
}

#[test]
fn empty_input_needs_one_byte() {
    let registry = packet_registry();
    let mut reader = ReadState::new(true);
    assert_eq!(need_more(reader.receive(&registry, version(), &[])), 1);
}

#[test]
fn fixed_frame_is_kind_then_body() {
    let mut writer = WriteState::new(true);
    let login = AccountLogin { username: b"a".to_vec(), password: b"b".to_vec(), next_login_key: 0 };
    let frame = writer.send(version(), &login).unwrap();
    assert_eq!(frame.len(), 62);
    assert_eq!(frame[0], 0x80);
    assert_eq!(frame[1], b'a');
    assert_eq!(frame[31], b'b');
}

#[test]
fn legacy_seed_only_first_and_once() {
    let mut client = WriteState::new(false);
    assert_eq!(client.send_legacy_seed(0x0102_0304).unwrap(), vec![1, 2, 3, 4]);
    assert_eq!(client.send_legacy_seed(1).unwrap_err(), ProtocolError::LegacySeedAfterOtherPackets);

    let mut late = WriteState::new(false);
    late.send(version(), &SelectGameServer { server_id: 1 }).unwrap();
    assert_eq!(late.send_legacy_seed(1).unwrap_err(), ProtocolError::LegacySeedAfterOtherPackets);

    let mut server = WriteState::new(true);
    assert_eq!(server.send_legacy_seed(1).unwrap_err(), ProtocolError::LegacySeedAfterOtherPackets);
}

#[test]
fn oversized_variable_packet_is_refused() {
    let servers: Vec<GameServer> = (0..1700u16)
        .map(|i| GameServer { server_index: i, server_name: vec![], percent_full: 0, timezone: 0, ip: 0 })
        .collect();
    let list = ServerList { system_info_flags: 0, game_servers: servers };
    let mut writer = WriteState::new(true);
    let r = writer.send(version(), &list);
    assert_eq!(r.unwrap_err(), ProtocolError::PacketTooLong(3 + 3 + 1700 * 40));
}
