use yewoh_core::any_packet::{packet_registry, AnyPacket};
use yewoh_core::characters::{
    has_extended_city_list, CharacterFromList, CharacterList, CreateCharacterClassic,
    CreateCharacterEnhanced, NewCharacter, SelectCharacter, SkillChoice, StartingCity,
};
use yewoh_core::error::ProtocolError;
use yewoh_core::framing::{ReadState, Received, WriteState};
use yewoh_core::packet::Packet;
use yewoh_core::version::ClientVersion;

fn old_version() -> ClientVersion {
    ClientVersion::new(5, 0, 9, 1)
}

fn new_version() -> ClientVersion {
    ClientVersion::new(7, 0, 15, 1)
}

fn encode_at<T: Packet>(p: &T, v: ClientVersion) -> Vec<u8> {
    let mut out = Vec::new();
    p.encode(v, &mut out).unwrap();
    out
}

fn new_character() -> NewCharacter {
    NewCharacter {
        name: b"Wise Dave".to_vec(),
        client_flags: 0x1f,
        login_count: 3,
        profession: 2,
        race_and_gender: 1,
        strength: 60,
        dexterity: 10,
        intelligence: 10,
        skin_hue: 0x83ea,
        hair_style: 0x203b,
        hair_hue: 0x044e,
        beard_style: 0,
        beard_hue: 0,
        starting_city: 3,
        slot: 1,
        client_ip: 0xc0a8_0102,
        shirt_hue: 0x0123,
        pants_hue: 0xffff,
    }
}

fn city(index: u8, name: &str) -> StartingCity {
    StartingCity {
        index,
        city: name.as_bytes().to_vec(),
        building: b"The Inn".to_vec(),
        x: 1496,
        y: 1628,
        z: 10,
        map_id: 1,
        description: 1075072,
    }
}

fn character_list() -> CharacterList {
    CharacterList {
        characters: vec![
            Some(CharacterFromList { name: b"test".to_vec(), password: b"123456".to_vec() }),
            None,
            None,
            None,
            None,
        ],
        cities: vec![city(0, "Britain"), city(1, "Trinsic")],
        flags: 0x1a8,
    }
}

#[test]
fn select_character_round_trip() {
    let p = SelectCharacter { name: b"Hero".to_vec(), client_flags: 0x3f, login_count: 9, slot: 2, client_ip: 0x7f00_0001 };
    let body = encode_at(&p, new_version());
    assert_eq!(body.len(), 72);
    assert_eq!(&body[0..4], &[0xed, 0xed, 0xed, 0xed]);
    assert_eq!(&body[4..9], b"Hero\0");
    assert_eq!(&body[64..72], &[0, 0, 0, 2, 0x7f, 0, 0, 1]);
    assert_eq!(SelectCharacter::decode(new_version(), &body).unwrap(), p);
}

#[test]
fn create_character_classic_round_trip() {
    let p = CreateCharacterClassic {
        character: new_character(),
        skills: [SkillChoice { skill: 1, value: 50 }, SkillChoice { skill: 2, value: 30 }, SkillChoice { skill: 40, value: 20 }],
    };
    let body = encode_at(&p, old_version());
    assert_eq!(Some(body.len()), CreateCharacterClassic::fixed_length(old_version()));
    assert_eq!(body.len(), 103);
    assert_eq!(&body[9..18], b"Wise Dave");
    assert_eq!(&body[69..79], &[1, 60, 10, 10, 1, 50, 2, 30, 40, 20]);
    assert_eq!(&body[79..81], &[0x83, 0xea]);
    assert_eq!(CreateCharacterClassic::decode(old_version(), &body).unwrap(), p);
}

#[test]
fn create_character_enhanced_round_trip() {
    let p = CreateCharacterEnhanced {
        character: new_character(),
        skills: [
            SkillChoice { skill: 1, value: 50 },
            SkillChoice { skill: 2, value: 30 },
            SkillChoice { skill: 40, value: 20 },
            SkillChoice { skill: 7, value: 0 },
        ],
    };
    let body = encode_at(&p, new_version());
    assert_eq!(body.len(), 105);
    assert_eq!(&body[79..81], &[7, 0]);
    assert_eq!(CreateCharacterEnhanced::decode(new_version(), &body).unwrap(), p);
}

#[test]
fn creation_with_long_name_is_refused() {
    let mut c = new_character();
    c.name = vec![b'n'; 31];
    let p = CreateCharacterClassic { character: c, skills: [SkillChoice { skill: 0, value: 0 }; 3] };
    let mut out = Vec::new();
    assert_eq!(p.encode(old_version(), &mut out), Err(ProtocolError::UnencodableValue(0x00)));
    assert!(out.is_empty());
}

#[test]
fn character_list_length_depends_on_version() {
    assert!(!has_extended_city_list(old_version()));
    assert!(has_extended_city_list(new_version()));
    assert!(has_extended_city_list(ClientVersion::new(7, 0, 13, 0)));
    assert!(!has_extended_city_list(ClientVersion::new(7, 0, 12, 9)));
    let p = character_list();
    assert_eq!(encode_at(&p, old_version()).len(), 1 + 5 * 60 + 1 + 2 * 63 + 4);
    assert_eq!(encode_at(&p, new_version()).len(), 1 + 5 * 60 + 1 + 2 * 89 + 4);
}

#[test]
fn character_list_round_trip_new_clients() {
    let p = character_list();
    let body = encode_at(&p, new_version());
    assert_eq!(CharacterList::decode(new_version(), &body).unwrap(), p);
}

#[test]
fn character_list_old_clients_lose_city_positions() {
    let p = character_list();
    let body = encode_at(&p, old_version());
    let back = CharacterList::decode(old_version(), &body).unwrap();
    assert_eq!(back.characters, p.characters);
    assert_eq!(back.flags, p.flags);
    assert_eq!(back.cities.len(), 2);
    assert_eq!(back.cities[1].city, b"Trinsic".to_vec());
    assert_eq!(back.cities[1].building, b"The Inn".to_vec());
    assert_eq!((back.cities[1].x, back.cities[1].y, back.cities[1].z), (0, 0, 0));
    assert_eq!((back.cities[1].map_id, back.cities[1].description), (0, 0));
}

#[test]
fn character_list_field_widths_follow_version() {
    let mut p = character_list();
    p.cities[0].city = vec![b'c'; 32];
    let mut out = Vec::new();
    assert_eq!(p.encode(old_version(), &mut out), Err(ProtocolError::UnencodableValue(0xa9)));
    assert!(out.is_empty());
    let body = encode_at(&p, new_version());
    assert_eq!(CharacterList::decode(new_version(), &body).unwrap(), p);
}

#[test]
fn character_with_empty_name_is_refused() {
    let mut p = character_list();
    p.characters[1] = Some(CharacterFromList { name: vec![], password: b"pw".to_vec() });
    let mut out = Vec::new();
    assert_eq!(p.encode(new_version(), &mut out), Err(ProtocolError::UnencodableValue(0xa9)));
}

#[test]
fn character_list_with_bad_city_count_fails() {
    let p = character_list();
    let mut body = encode_at(&p, new_version());
    body[301] = 3;
    assert_eq!(CharacterList::decode(new_version(), &body), Err(ProtocolError::MalformedPayload(0xa9)));
    assert_eq!(CharacterList::decode(new_version(), &[]), Err(ProtocolError::MalformedPayload(0xa9)));
}

#[test]
fn character_list_through_writer_and_reader() {
    let registry = packet_registry();
    let p = character_list();
    let mut writer = WriteState::new(true);
    let frame = writer.send(new_version(), &p).unwrap();
    let total = frame.len();
    assert_eq!(frame[0], 0xa9);
    assert_eq!(((frame[1] as usize) << 8) | frame[2] as usize, total);
    let mut again = WriteState::new(true);
    let any_frame = again.send_any(new_version(), &AnyPacket::from_packet(p.clone())).unwrap();
    assert_eq!(any_frame, frame);
    let mut reader = ReadState::new(false);
    match reader.receive(&registry, new_version(), &frame).unwrap() {
        Received::Packet(a, used) => {
            assert_eq!(used, total);
            assert_eq!(a.packet_kind(), 0xa9);
            assert_eq!(a.into_downcast::<CharacterList>().unwrap(), p);
        }
        other => panic!("expected a packet, got {:?}", other),
    }
}

#[test]
fn writer_refuses_what_cannot_be_carried() {
    let p = SelectCharacter { name: vec![b'z'; 31], client_flags: 0, login_count: 0, slot: 0, client_ip: 0 };
    let mut writer = WriteState::new(true);
    assert_eq!(writer.send(new_version(), &p).unwrap_err(), ProtocolError::UnencodableValue(0x5d));
    let a = AnyPacket::from_packet(p);
    assert_eq!(writer.send_any(new_version(), &a).unwrap_err(), ProtocolError::UnencodableValue(0x5d));
}
