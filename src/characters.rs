//! The packets of the character-selection phase.
use vstd::prelude::*;

use crate::any_packet::AnyPacket;
use crate::error::ProtocolError;
use crate::packet::Packet;
use crate::version::ClientVersion;
use crate::wire::{
    be16, be16_value, be32, be32_value, c_str, concat_entries, fits_field, fixed_str,
    lemma_be16_at, lemma_be32_round_trip, lemma_concat_entries, lemma_fixed_str_round_trip,
    lemma_subrange_in, push_fixed_str, push_u16, push_u32, push_zeros, read_fixed_str, read_u16,
    read_u32, str_fits, zeros,
};

verus! {

/// The width of a character's name and password fields.
pub const CHARACTER_NAME_LENGTH: usize = 30;

/// The marker that opens the character packets of the client.
pub const CHARACTER_PATTERN: u32 = 0xedededed;

/// The client's choice of a character to play.
#[derive(Clone, Debug, PartialEq, Eq)]
pub struct SelectCharacter {
    pub name: Vec<u8>,
    pub client_flags: u32,
    pub login_count: u32,
    pub slot: u32,
    pub client_ip: u32,
}

/// The value of a [`SelectCharacter`].
pub struct SelectCharacterView {
    pub name: Seq<u8>,
    pub client_flags: u32,
    pub login_count: u32,
    pub slot: u32,
    pub client_ip: u32,
}

impl View for SelectCharacter {
    type V = SelectCharacterView;

    open spec fn view(&self) -> SelectCharacterView {
        SelectCharacterView {
            name: self.name@,
            client_flags: self.client_flags,
            login_count: self.login_count,
            slot: self.slot,
            client_ip: self.client_ip,
        }
    }
}

/// The fixed body length of a [`SelectCharacter`] for `v`.
pub open spec fn select_character_length(v: ClientVersion) -> Option<nat> {
    Some(72)
}

/// The body that encodes a [`SelectCharacter`] for `v`: the marker, the
/// name, then flags, login count, slot and address among unused bytes.
pub open spec fn select_character_body(m: SelectCharacterView, v: ClientVersion) -> Seq<u8> {
    be32(CHARACTER_PATTERN) + fixed_str(m.name, 30) + zeros(2) + be32(m.client_flags) + zeros(4)
        + be32(m.login_count) + zeros(16) + be32(m.slot) + be32(m.client_ip)
}

/// The values of a [`SelectCharacter`] that the wire form for `v` can carry.
pub open spec fn select_character_valid(m: SelectCharacterView, v: ClientVersion) -> bool {
    str_fits(m.name, 30)
}

impl Packet for SelectCharacter {
    open spec fn kind_spec() -> u8 {
        0x5d
    }

    open spec fn length_spec(v: ClientVersion) -> Option<nat> {
        select_character_length(v)
    }

    open spec fn body_spec(m: SelectCharacterView, v: ClientVersion) -> Seq<u8> {
        select_character_body(m, v)
    }

    open spec fn parse_spec(v: ClientVersion, payload: Seq<u8>) -> Option<SelectCharacterView> {
        if payload.len() == 72 {
            Some(
                SelectCharacterView {
                    name: c_str(payload.subrange(4, 34)),
                    client_flags: be32_value(payload, 36),
                    login_count: be32_value(payload, 44),
                    slot: be32_value(payload, 64),
                    client_ip: be32_value(payload, 68),
                },
            )
        } else {
            None
        }
    }

    open spec fn valid_spec(m: SelectCharacterView, v: ClientVersion) -> bool {
        select_character_valid(m, v)
    }

    open spec fn at_version(m: SelectCharacterView, v: ClientVersion) -> SelectCharacterView {
        m
    }

    open spec fn unwrap_spec(a: AnyPacket) -> Option<SelectCharacterView> {
        match a {
            AnyPacket::SelectCharacter(p) => Some(p@),
            _ => None,
        }
    }

    open spec fn wrap_spec(p: SelectCharacter) -> AnyPacket {
        AnyPacket::SelectCharacter(p)
    }

    fn packet_kind() -> (r: u8) {
        0x5d
    }

    fn fixed_length(client_version: ClientVersion) -> (r: Option<usize>) {
        Some(72)
    }

    fn decode(client_version: ClientVersion, payload: &[u8]) -> (r: Result<
        SelectCharacter,
        ProtocolError,
    >) {
        if payload.len() != 72 {
            return Err(ProtocolError::MalformedPayload(0x5d));
        }
        Ok(
            SelectCharacter {
                name: read_fixed_str(payload, 4, CHARACTER_NAME_LENGTH),
                client_flags: read_u32(payload, 36),
                login_count: read_u32(payload, 44),
                slot: read_u32(payload, 64),
                client_ip: read_u32(payload, 68),
            },
        )
    }

    fn encode(&self, client_version: ClientVersion, writer: &mut Vec<u8>) -> (r: Result<
        (),
        ProtocolError,
    >) {
        if !fits_field(&self.name, CHARACTER_NAME_LENGTH) {
            return Err(ProtocolError::UnencodableValue(0x5d));
        }
        push_u32(writer, CHARACTER_PATTERN);
        push_fixed_str(writer, &self.name, CHARACTER_NAME_LENGTH);
        push_zeros(writer, 2);
        push_u32(writer, self.client_flags);
        push_zeros(writer, 4);
        push_u32(writer, self.login_count);
        push_zeros(writer, 16);
        push_u32(writer, self.slot);
        push_u32(writer, self.client_ip);
        assert(writer@ =~= old(writer)@ + Self::body_spec(self@, client_version));
        Ok(())
    }

    fn into_any(self) -> (r: AnyPacket) {
        AnyPacket::SelectCharacter(self)
    }

    fn from_any(a: AnyPacket) -> (r: Result<SelectCharacter, AnyPacket>) {
        match a {
            AnyPacket::SelectCharacter(p) => Ok(p),
            _ => Err(a),
        }
    }

    fn from_any_ref(a: &AnyPacket) -> (r: Option<&SelectCharacter>) {
        match a {
            AnyPacket::SelectCharacter(p) => Some(p),
            _ => None,
        }
    }

    fn from_any_mut(a: &mut AnyPacket) -> (r: Option<&mut SelectCharacter>) {
        match a {
            AnyPacket::SelectCharacter(p) => Some(p),
            _ => None,
        }
    }

    proof fn lemma_unwrap_kind(a: AnyPacket) {
    }

    proof fn lemma_round_trip(m: SelectCharacterView, v: ClientVersion) {
        let b = Self::body_spec(m, v);
        lemma_fixed_str_round_trip(m.name, 30);
        assert(b.subrange(4, 34) =~= fixed_str(m.name, 30));
        assert(b.subrange(36, 40) =~= be32(m.client_flags));
        assert(b.subrange(44, 48) =~= be32(m.login_count));
        assert(b.subrange(64, 68) =~= be32(m.slot));
        assert(b.subrange(68, 72) =~= be32(m.client_ip));
        lemma_be32_round_trip(m.client_flags, b, 36);
        lemma_be32_round_trip(m.login_count, b, 44);
        lemma_be32_round_trip(m.slot, b, 64);
        lemma_be32_round_trip(m.client_ip, b, 68);
    }

    proof fn lemma_fixed_length(m: SelectCharacterView, v: ClientVersion) {
        assert(fixed_str(m.name, 30).len() == 30);
    }
}


/// One skill that a new character starts with, and its starting value.
#[derive(Clone, Copy, Debug, PartialEq, Eq, Structural)]
pub struct SkillChoice {
    pub skill: u8,
    pub value: u8,
}

/// What a client asks of a new character, besides its skills.
#[derive(Clone, Debug, PartialEq, Eq)]
pub struct NewCharacter {
    pub name: Vec<u8>,
    pub client_flags: u32,
    pub login_count: u32,
    pub profession: u8,
    pub race_and_gender: u8,
    pub strength: u8,
    pub dexterity: u8,
    pub intelligence: u8,
    pub skin_hue: u16,
    pub hair_style: u16,
    pub hair_hue: u16,
    pub beard_style: u16,
    pub beard_hue: u16,
    pub starting_city: u16,
    pub slot: u16,
    pub client_ip: u32,
    pub shirt_hue: u16,
    pub pants_hue: u16,
}

/// The value of a [`NewCharacter`].
pub struct NewCharacterView {
    pub name: Seq<u8>,
    pub client_flags: u32,
    pub login_count: u32,
    pub profession: u8,
    pub race_and_gender: u8,
    pub strength: u8,
    pub dexterity: u8,
    pub intelligence: u8,
    pub skin_hue: u16,
    pub hair_style: u16,
    pub hair_hue: u16,
    pub beard_style: u16,
    pub beard_hue: u16,
    pub starting_city: u16,
    pub slot: u16,
    pub client_ip: u32,
    pub shirt_hue: u16,
    pub pants_hue: u16,
}

impl View for NewCharacter {
    type V = NewCharacterView;

    open spec fn view(&self) -> NewCharacterView {
        NewCharacterView {
            name: self.name@,
            client_flags: self.client_flags,
            login_count: self.login_count,
            profession: self.profession,
            race_and_gender: self.race_and_gender,
            strength: self.strength,
            dexterity: self.dexterity,
            intelligence: self.intelligence,
            skin_hue: self.skin_hue,
            hair_style: self.hair_style,
            hair_hue: self.hair_hue,
            beard_style: self.beard_style,
            beard_hue: self.beard_hue,
            starting_city: self.starting_city,
            slot: self.slot,
            client_ip: self.client_ip,
            shirt_hue: self.shirt_hue,
            pants_hue: self.pants_hue,
        }
    }
}

/// The width of the part of a creation request before the skills.
pub const CHARACTER_HEAD_LENGTH: usize = 73;

/// The width of the part of a creation request after the skills.
pub const CHARACTER_TAIL_LENGTH: usize = 24;

/// The 73 bytes of a creation request before the skills: markers, name,
/// flags, login count, profession, race and gender, and the three stats.
pub open spec fn character_head(c: NewCharacterView) -> Seq<u8> {
    be32(CHARACTER_PATTERN) + be32(0xffffffff) + zeros(1) + fixed_str(c.name, 30) + zeros(2)
        + be32(c.client_flags) + zeros(4) + be32(c.login_count) + seq![c.profession] + zeros(15)
        + seq![c.race_and_gender, c.strength, c.dexterity, c.intelligence]
}

/// The 24 bytes of a creation request after the skills: looks, starting
/// city, slot, address and clothes.
pub open spec fn character_tail(c: NewCharacterView) -> Seq<u8> {
    be16(c.skin_hue) + be16(c.hair_style) + be16(c.hair_hue) + be16(c.beard_style) + be16(
        c.beard_hue,
    ) + be16(c.starting_city) + zeros(2) + be16(c.slot) + be32(c.client_ip) + be16(c.shirt_hue)
        + be16(c.pants_hue)
}

/// The character that a creation request in `b` describes, with its tail
/// at `t`.
pub open spec fn parse_character(b: Seq<u8>, t: int) -> NewCharacterView {
    NewCharacterView {
        name: c_str(b.subrange(9, 39)),
        client_flags: be32_value(b, 41),
        login_count: be32_value(b, 49),
        profession: b[53],
        race_and_gender: b[69],
        strength: b[70],
        dexterity: b[71],
        intelligence: b[72],
        skin_hue: be16_value(b[t], b[t + 1]),
        hair_style: be16_value(b[t + 2], b[t + 3]),
        hair_hue: be16_value(b[t + 4], b[t + 5]),
        beard_style: be16_value(b[t + 6], b[t + 7]),
        beard_hue: be16_value(b[t + 8], b[t + 9]),
        starting_city: be16_value(b[t + 10], b[t + 11]),
        slot: be16_value(b[t + 14], b[t + 15]),
        client_ip: be32_value(b, t + 16),
        shirt_hue: be16_value(b[t + 20], b[t + 21]),
        pants_hue: be16_value(b[t + 22], b[t + 23]),
    }
}

/// The bytes of a list of skill choices: skill, then value, for each.
pub open spec fn skills_bytes(s: Seq<SkillChoice>) -> Seq<u8> {
    Seq::new(2 * s.len(), |i: int| if i % 2 == 0 { s[i / 2].skill } else { s[i / 2].value })
}

/// The `n` skill choices in `b` from `at`.
pub open spec fn parse_skills(b: Seq<u8>, at: int, n: nat) -> Seq<SkillChoice> {
    Seq::new(n, |i: int| SkillChoice { skill: b[at + 2 * i], value: b[at + 2 * i + 1] })
}

proof fn lemma_character(c: NewCharacterView, b: Seq<u8>, t: int)
    requires
        str_fits(c.name, 30),
        73 <= t,
        t + 24 <= b.len(),
        b.subrange(0, 73) == character_head(c),
        b.subrange(t, t + 24) == character_tail(c),
    ensures
        parse_character(b, t) == c,
{
    let h = character_head(c);
    let l = character_tail(c);
    lemma_fixed_str_round_trip(c.name, 30);
    let h1 = be32(CHARACTER_PATTERN) + be32(0xffffffff) + zeros(1);
    let h2 = h1 + fixed_str(c.name, 30) + zeros(2);
    let h3 = h2 + be32(c.client_flags) + zeros(4);
    let h4 = h3 + be32(c.login_count);
    assert(h1.len() == 9 && h2.len() == 41 && h3.len() == 49 && h4.len() == 53);
    assert(h2.subrange(9, 39) =~= fixed_str(c.name, 30));
    assert(h3.subrange(41, 45) =~= be32(c.client_flags));
    assert(h4.subrange(49, 53) =~= be32(c.login_count));
    assert(h =~= h4 + seq![c.profession] + zeros(15) + seq![
        c.race_and_gender,
        c.strength,
        c.dexterity,
        c.intelligence,
    ]);
    assert forall|k: int| 0 <= k < 53 implies b[k] == h4[k] by {
        assert(b[k] == b.subrange(0, 73)[k]);
        assert(h[k] == h4[k]);
    }
    assert forall|k: int| 0 <= k < 49 implies b[k] == h3[k] by {
        assert(b[k] == h4[k]);
        assert(h4[k] == h3[k]);
    }
    assert forall|k: int| 0 <= k < 41 implies b[k] == h2[k] by {
        assert(b[k] == h3[k]);
        assert(h3[k] == h2[k]);
    }
    assert(b.subrange(9, 39) =~= h2.subrange(9, 39));
    assert(b.subrange(41, 45) =~= h3.subrange(41, 45));
    assert(b.subrange(49, 53) =~= h4.subrange(49, 53));
    lemma_be32_round_trip(c.client_flags, b, 41);
    lemma_be32_round_trip(c.login_count, b, 49);
    assert(b[53] == h[53] && b[69] == h[69] && b[70] == h[70] && b[71] == h[71] && b[72]
        == h[72]);
    let l1 = be16(c.skin_hue) + be16(c.hair_style);
    let l2 = l1 + be16(c.hair_hue) + be16(c.beard_style);
    let l3 = l2 + be16(c.beard_hue) + be16(c.starting_city);
    let l4 = l3 + zeros(2) + be16(c.slot);
    let l5 = l4 + be32(c.client_ip);
    assert(l =~= l5 + be16(c.shirt_hue) + be16(c.pants_hue));
    assert forall|k: int| 0 <= k < 24 implies b[t + k] == l[k] by {
        assert(b[t + k] == b.subrange(t, t + 24)[k]);
    }
    assert forall|k: int| 0 <= k < 20 implies b[t + k] == l5[k] by {
        assert(l[k] == l5[k]);
    }
    assert forall|k: int| 0 <= k < 16 implies b[t + k] == l4[k] by {
        assert(l5[k] == l4[k]);
    }
    assert forall|k: int| 0 <= k < 12 implies b[t + k] == l3[k] by {
        assert(l4[k] == l3[k]);
    }
    assert forall|k: int| 0 <= k < 8 implies b[t + k] == l2[k] by {
        assert(l3[k] == l2[k]);
    }
    assert forall|k: int| 0 <= k < 4 implies b[t + k] == l1[k] by {
        assert(l2[k] == l1[k]);
    }
    assert(b.subrange(t, t + 2) =~= be16(c.skin_hue));
    assert(b[t + 2] == l1[2] && b[t + 3] == l1[3] && b[t + 4] == l2[4] && b[t + 5] == l2[5]);
    assert(b.subrange(t + 2, t + 4) =~= be16(c.hair_style));
    assert(b.subrange(t + 4, t + 6) =~= be16(c.hair_hue));
    assert(b[t + 6] == l2[6]);
    assert(b[t + 7] == l2[7]);
    assert(b[t + 8] == l3[8]);
    assert(b[t + 9] == l3[9]);
    assert(b[t + 10] == l3[10]);
    assert(b[t + 11] == l3[11]);
    assert(b[t + 14] == l4[14]);
    assert(b[t + 15] == l4[15]);
    assert(b[t + 16] == l5[16]);
    assert(b[t + 17] == l5[17]);
    assert(b[t + 18] == l5[18]);
    assert(b[t + 19] == l5[19]);
    assert(b[t + 20] == l[20]);
    assert(b[t + 21] == l[21]);
    assert(b[t + 22] == l[22]);
    assert(b[t + 23] == l[23]);
    assert(b.subrange(t + 6, t + 8) =~= be16(c.beard_style));
    assert(b.subrange(t + 8, t + 10) =~= be16(c.beard_hue));
    assert(b.subrange(t + 10, t + 12) =~= be16(c.starting_city));
    assert(b.subrange(t + 14, t + 16) =~= be16(c.slot));
    assert(b.subrange(t + 16, t + 20) =~= be32(c.client_ip));
    assert(b.subrange(t + 20, t + 22) =~= be16(c.shirt_hue));
    assert(b.subrange(t + 22, t + 24) =~= be16(c.pants_hue));
    lemma_be16_at(c.skin_hue, b, t);
    lemma_be16_at(c.hair_style, b, t + 2);
    lemma_be16_at(c.hair_hue, b, t + 4);
    lemma_be16_at(c.beard_style, b, t + 6);
    lemma_be16_at(c.beard_hue, b, t + 8);
    lemma_be16_at(c.starting_city, b, t + 10);
    lemma_be16_at(c.slot, b, t + 14);
    lemma_be32_round_trip(c.client_ip, b, t + 16);
    lemma_be16_at(c.shirt_hue, b, t + 20);
    lemma_be16_at(c.pants_hue, b, t + 22);
}

proof fn lemma_skills(s: Seq<SkillChoice>, b: Seq<u8>, at: int)
    requires
        0 <= at,
        at + 2 * s.len() <= b.len(),
        b.subrange(at, at + 2 * s.len()) == skills_bytes(s),
    ensures
        parse_skills(b, at, s.len()) == s,
{
    assert forall|i: int| 0 <= i < s.len() implies parse_skills(b, at, s.len())[i] == s[i] by {
        assert(b[at + 2 * i] == skills_bytes(s)[2 * i]);
        assert(b[at + 2 * i + 1] == skills_bytes(s)[2 * i + 1]);
    }
    assert(parse_skills(b, at, s.len()) =~= s);
}

fn push_character_head(out: &mut Vec<u8>, c: &NewCharacter)
    ensures
        final(out)@ == old(out)@ + character_head(c@),
{
    push_u32(out, CHARACTER_PATTERN);
    push_u32(out, 0xffffffff);
    push_zeros(out, 1);
    push_fixed_str(out, &c.name, CHARACTER_NAME_LENGTH);
    push_zeros(out, 2);
    push_u32(out, c.client_flags);
    push_zeros(out, 4);
    push_u32(out, c.login_count);
    out.push(c.profession);
    push_zeros(out, 15);
    out.push(c.race_and_gender);
    out.push(c.strength);
    out.push(c.dexterity);
    out.push(c.intelligence);
    assert(out@ =~= old(out)@ + character_head(c@));
}

fn push_character_tail(out: &mut Vec<u8>, c: &NewCharacter)
    ensures
        final(out)@ == old(out)@ + character_tail(c@),
{
    push_u16(out, c.skin_hue);
    push_u16(out, c.hair_style);
    push_u16(out, c.hair_hue);
    push_u16(out, c.beard_style);
    push_u16(out, c.beard_hue);
    push_u16(out, c.starting_city);
    push_zeros(out, 2);
    push_u16(out, c.slot);
    push_u32(out, c.client_ip);
    push_u16(out, c.shirt_hue);
    push_u16(out, c.pants_hue);
    assert(out@ =~= old(out)@ + character_tail(c@));
}

fn push_skills(out: &mut Vec<u8>, s: &[SkillChoice])
    ensures
        final(out)@ == old(out)@ + skills_bytes(s@),
{
    let ghost start = out@;
    for i in 0..s.len()
        invariant
            out@ == start + skills_bytes(s@.take(i as int)),
    {
        out.push(s[i].skill);
        out.push(s[i].value);
        assert(out@ =~= start + skills_bytes(s@.take(i + 1)));
    }
    assert(s@.take(s@.len() as int) =~= s@);
}

fn read_character(b: &[u8], t: usize) -> (r: NewCharacter)
    requires
        73 <= t,
        t + 24 <= b@.len(),
    ensures
        r@ == parse_character(b@, t as int),
{
    NewCharacter {
        name: read_fixed_str(b, 9, CHARACTER_NAME_LENGTH),
        client_flags: read_u32(b, 41),
        login_count: read_u32(b, 49),
        profession: b[53],
        race_and_gender: b[69],
        strength: b[70],
        dexterity: b[71],
        intelligence: b[72],
        skin_hue: read_u16(b, t),
        hair_style: read_u16(b, t + 2),
        hair_hue: read_u16(b, t + 4),
        beard_style: read_u16(b, t + 6),
        beard_hue: read_u16(b, t + 8),
        starting_city: read_u16(b, t + 10),
        slot: read_u16(b, t + 14),
        client_ip: read_u32(b, t + 16),
        shirt_hue: read_u16(b, t + 20),
        pants_hue: read_u16(b, t + 22),
    }
}

fn read_skill(b: &[u8], at: usize) -> (r: SkillChoice)
    requires
        at + 2 <= b@.len(),
    ensures
        r == (SkillChoice { skill: b@[at as int], value: b@[at + 1] }),
{
    SkillChoice { skill: b[at], value: b[at + 1] }
}

/// A request of a client of the classic line to create a character with
/// three starting skills.
#[derive(Clone, Debug, PartialEq, Eq)]
pub struct CreateCharacterClassic {
    pub character: NewCharacter,
    pub skills: [SkillChoice; 3],
}

/// The value of a [`CreateCharacterClassic`].
pub struct CreateCharacterClassicView {
    pub character: NewCharacterView,
    pub skills: Seq<SkillChoice>,
}

impl View for CreateCharacterClassic {
    type V = CreateCharacterClassicView;

    open spec fn view(&self) -> CreateCharacterClassicView {
        CreateCharacterClassicView { character: self.character@, skills: self.skills@ }
    }
}

/// The fixed body length of a [`CreateCharacterClassic`] for `v`.
pub open spec fn create_character_classic_length(v: ClientVersion) -> Option<nat> {
    Some(103)
}

/// The body that encodes a [`CreateCharacterClassic`] for `v`.
pub open spec fn create_character_classic_body(
    m: CreateCharacterClassicView,
    v: ClientVersion,
) -> Seq<u8> {
    character_head(m.character) + skills_bytes(m.skills) + character_tail(m.character)
}

/// The values of a [`CreateCharacterClassic`] that the wire form for `v`
/// can carry.
pub open spec fn create_character_classic_valid(
    m: CreateCharacterClassicView,
    v: ClientVersion,
) -> bool {
    str_fits(m.character.name, 30) && m.skills.len() == 3
}

impl Packet for CreateCharacterClassic {
    open spec fn kind_spec() -> u8 {
        0x00
    }

    open spec fn length_spec(v: ClientVersion) -> Option<nat> {
        create_character_classic_length(v)
    }

    open spec fn body_spec(m: CreateCharacterClassicView, v: ClientVersion) -> Seq<u8> {
        create_character_classic_body(m, v)
    }

    open spec fn parse_spec(v: ClientVersion, payload: Seq<u8>) -> Option<
        CreateCharacterClassicView,
    > {
        if payload.len() == 103 {
            Some(
                CreateCharacterClassicView {
                    character: parse_character(payload, 79),
                    skills: parse_skills(payload, 73, 3),
                },
            )
        } else {
            None
        }
    }

    open spec fn valid_spec(m: CreateCharacterClassicView, v: ClientVersion) -> bool {
        create_character_classic_valid(m, v)
    }

    open spec fn at_version(m: CreateCharacterClassicView, v: ClientVersion) -> CreateCharacterClassicView {
        m
    }

    open spec fn unwrap_spec(a: AnyPacket) -> Option<CreateCharacterClassicView> {
        match a {
            AnyPacket::CreateCharacterClassic(p) => Some(p@),
            _ => None,
        }
    }

    open spec fn wrap_spec(p: CreateCharacterClassic) -> AnyPacket {
        AnyPacket::CreateCharacterClassic(p)
    }

    fn packet_kind() -> (r: u8) {
        0x00
    }

    fn fixed_length(client_version: ClientVersion) -> (r: Option<usize>) {
        Some(103)
    }

    fn decode(client_version: ClientVersion, payload: &[u8]) -> (r: Result<
        CreateCharacterClassic,
        ProtocolError,
    >) {
        if payload.len() != 103 {
            return Err(ProtocolError::MalformedPayload(0x00));
        }
        let skills: [SkillChoice; 3] = [
            read_skill(payload, 73),
            read_skill(payload, 75),
            read_skill(payload, 77),
        ];
        let r = CreateCharacterClassic { character: read_character(payload, 79), skills };
        assert(r@.skills =~= parse_skills(payload@, 73, 3));
        Ok(r)
    }

    fn encode(&self, client_version: ClientVersion, writer: &mut Vec<u8>) -> (r: Result<
        (),
        ProtocolError,
    >) {
        if !fits_field(&self.character.name, CHARACTER_NAME_LENGTH) {
            return Err(ProtocolError::UnencodableValue(0x00));
        }
        push_character_head(writer, &self.character);
        push_skills(writer, self.skills.as_slice());
        push_character_tail(writer, &self.character);
        assert(writer@ =~= old(writer)@ + Self::body_spec(self@, client_version));
        Ok(())
    }

    fn into_any(self) -> (r: AnyPacket) {
        AnyPacket::CreateCharacterClassic(self)
    }

    fn from_any(a: AnyPacket) -> (r: Result<CreateCharacterClassic, AnyPacket>) {
        match a {
            AnyPacket::CreateCharacterClassic(p) => Ok(p),
            _ => Err(a),
        }
    }

    fn from_any_ref(a: &AnyPacket) -> (r: Option<&CreateCharacterClassic>) {
        match a {
            AnyPacket::CreateCharacterClassic(p) => Some(p),
            _ => None,
        }
    }

    fn from_any_mut(a: &mut AnyPacket) -> (r: Option<&mut CreateCharacterClassic>) {
        match a {
            AnyPacket::CreateCharacterClassic(p) => Some(p),
            _ => None,
        }
    }

    proof fn lemma_unwrap_kind(a: AnyPacket) {
    }

    proof fn lemma_round_trip(m: CreateCharacterClassicView, v: ClientVersion) {
        let b = Self::body_spec(m, v);
        lemma_fixed_str_round_trip(m.character.name, 30);
        assert(character_head(m.character).len() == 73);
        assert(b.subrange(0, 73) =~= character_head(m.character));
        assert(b.subrange(73, 79) =~= skills_bytes(m.skills));
        assert(b.subrange(79, 103) =~= character_tail(m.character));
        lemma_character(m.character, b, 79);
        lemma_skills(m.skills, b, 73);
    }

    proof fn lemma_fixed_length(m: CreateCharacterClassicView, v: ClientVersion) {
        assert(fixed_str(m.character.name, 30).len() == 30);
    }
}

/// A request of a client of the enhanced line to create a character with
/// four starting skills.
#[derive(Clone, Debug, PartialEq, Eq)]
pub struct CreateCharacterEnhanced {
    pub character: NewCharacter,
    pub skills: [SkillChoice; 4],
}

/// The value of a [`CreateCharacterEnhanced`].
pub struct CreateCharacterEnhancedView {
    pub character: NewCharacterView,
    pub skills: Seq<SkillChoice>,
}

impl View for CreateCharacterEnhanced {
    type V = CreateCharacterEnhancedView;

    open spec fn view(&self) -> CreateCharacterEnhancedView {
        CreateCharacterEnhancedView { character: self.character@, skills: self.skills@ }
    }
}

/// The fixed body length of a [`CreateCharacterEnhanced`] for `v`.
pub open spec fn create_character_enhanced_length(v: ClientVersion) -> Option<nat> {
    Some(105)
}

/// The body that encodes a [`CreateCharacterEnhanced`] for `v`.
pub open spec fn create_character_enhanced_body(
    m: CreateCharacterEnhancedView,
    v: ClientVersion,
) -> Seq<u8> {
    character_head(m.character) + skills_bytes(m.skills) + character_tail(m.character)
}

/// The values of a [`CreateCharacterEnhanced`] that the wire form for `v`
/// can carry.
pub open spec fn create_character_enhanced_valid(
    m: CreateCharacterEnhancedView,
    v: ClientVersion,
) -> bool {
    str_fits(m.character.name, 30) && m.skills.len() == 4
}

impl Packet for CreateCharacterEnhanced {
    open spec fn kind_spec() -> u8 {
        0xf8
    }

    open spec fn length_spec(v: ClientVersion) -> Option<nat> {
        create_character_enhanced_length(v)
    }

    open spec fn body_spec(m: CreateCharacterEnhancedView, v: ClientVersion) -> Seq<u8> {
        create_character_enhanced_body(m, v)
    }

    open spec fn parse_spec(v: ClientVersion, payload: Seq<u8>) -> Option<
        CreateCharacterEnhancedView,
    > {
        if payload.len() == 105 {
            Some(
                CreateCharacterEnhancedView {
                    character: parse_character(payload, 81),
                    skills: parse_skills(payload, 73, 4),
                },
            )
        } else {
            None
        }
    }

    open spec fn valid_spec(m: CreateCharacterEnhancedView, v: ClientVersion) -> bool {
        create_character_enhanced_valid(m, v)
    }

    open spec fn at_version(m: CreateCharacterEnhancedView, v: ClientVersion) -> CreateCharacterEnhancedView {
        m
    }

    open spec fn unwrap_spec(a: AnyPacket) -> Option<CreateCharacterEnhancedView> {
        match a {
            AnyPacket::CreateCharacterEnhanced(p) => Some(p@),
            _ => None,
        }
    }

    open spec fn wrap_spec(p: CreateCharacterEnhanced) -> AnyPacket {
        AnyPacket::CreateCharacterEnhanced(p)
    }

    fn packet_kind() -> (r: u8) {
        0xf8
    }

    fn fixed_length(client_version: ClientVersion) -> (r: Option<usize>) {
        Some(105)
    }

    fn decode(client_version: ClientVersion, payload: &[u8]) -> (r: Result<
        CreateCharacterEnhanced,
        ProtocolError,
    >) {
        if payload.len() != 105 {
            return Err(ProtocolError::MalformedPayload(0xf8));
        }
        let skills: [SkillChoice; 4] = [
            read_skill(payload, 73),
            read_skill(payload, 75),
            read_skill(payload, 77),
            read_skill(payload, 79),
        ];
        let r = CreateCharacterEnhanced { character: read_character(payload, 81), skills };
        assert(r@.skills =~= parse_skills(payload@, 73, 4));
        Ok(r)
    }

    fn encode(&self, client_version: ClientVersion, writer: &mut Vec<u8>) -> (r: Result<
        (),
        ProtocolError,
    >) {
        if !fits_field(&self.character.name, CHARACTER_NAME_LENGTH) {
            return Err(ProtocolError::UnencodableValue(0xf8));
        }
        push_character_head(writer, &self.character);
        push_skills(writer, self.skills.as_slice());
        push_character_tail(writer, &self.character);
        assert(writer@ =~= old(writer)@ + Self::body_spec(self@, client_version));
        Ok(())
    }

    fn into_any(self) -> (r: AnyPacket) {
        AnyPacket::CreateCharacterEnhanced(self)
    }

    fn from_any(a: AnyPacket) -> (r: Result<CreateCharacterEnhanced, AnyPacket>) {
        match a {
            AnyPacket::CreateCharacterEnhanced(p) => Ok(p),
            _ => Err(a),
        }
    }

    fn from_any_ref(a: &AnyPacket) -> (r: Option<&CreateCharacterEnhanced>) {
        match a {
            AnyPacket::CreateCharacterEnhanced(p) => Some(p),
            _ => None,
        }
    }

    fn from_any_mut(a: &mut AnyPacket) -> (r: Option<&mut CreateCharacterEnhanced>) {
        match a {
            AnyPacket::CreateCharacterEnhanced(p) => Some(p),
            _ => None,
        }
    }

    proof fn lemma_unwrap_kind(a: AnyPacket) {
    }

    proof fn lemma_round_trip(m: CreateCharacterEnhancedView, v: ClientVersion) {
        let b = Self::body_spec(m, v);
        lemma_fixed_str_round_trip(m.character.name, 30);
        assert(character_head(m.character).len() == 73);
        assert(b.subrange(0, 73) =~= character_head(m.character));
        assert(b.subrange(73, 81) =~= skills_bytes(m.skills));
        assert(b.subrange(81, 105) =~= character_tail(m.character));
        lemma_character(m.character, b, 81);
        lemma_skills(m.skills, b, 73);
    }

    proof fn lemma_fixed_length(m: CreateCharacterEnhancedView, v: ClientVersion) {
        assert(fixed_str(m.character.name, 30).len() == 30);
    }
}


/// One character of the account, as the character list shows it.
#[derive(Clone, Debug, PartialEq, Eq)]
pub struct CharacterFromList {
    pub name: Vec<u8>,
    pub password: Vec<u8>,
}

/// The value of a [`CharacterFromList`].
pub struct CharacterFromListView {
    pub name: Seq<u8>,
    pub password: Seq<u8>,
}

impl View for CharacterFromList {
    type V = CharacterFromListView;

    open spec fn view(&self) -> CharacterFromListView {
        CharacterFromListView { name: self.name@, password: self.password@ }
    }
}

/// A city where a new character may start.
#[derive(Clone, Debug, PartialEq, Eq)]
pub struct StartingCity {
    pub index: u8,
    pub city: Vec<u8>,
    pub building: Vec<u8>,
    pub x: u32,
    pub y: u32,
    pub z: u32,
    pub map_id: u32,
    pub description: u32,
}

/// The value of a [`StartingCity`].
pub struct StartingCityView {
    pub index: u8,
    pub city: Seq<u8>,
    pub building: Seq<u8>,
    pub x: u32,
    pub y: u32,
    pub z: u32,
    pub map_id: u32,
    pub description: u32,
}

impl View for StartingCity {
    type V = StartingCityView;

    open spec fn view(&self) -> StartingCityView {
        StartingCityView {
            index: self.index,
            city: self.city@,
            building: self.building@,
            x: self.x,
            y: self.y,
            z: self.z,
            map_id: self.map_id,
            description: self.description,
        }
    }
}

/// The account's character slots and the starting cities on offer.
#[derive(Clone, Debug, PartialEq, Eq)]
pub struct CharacterList {
    pub characters: Vec<Option<CharacterFromList>>,
    pub cities: Vec<StartingCity>,
    pub flags: u32,
}

/// The value of a [`CharacterList`].
pub struct CharacterListView {
    pub characters: Seq<Option<CharacterFromListView>>,
    pub cities: Seq<StartingCityView>,
    pub flags: u32,
}

/// The value of a character slot.
pub open spec fn slot_view(o: Option<CharacterFromList>) -> Option<CharacterFromListView> {
    match o {
        Some(c) => Some(c@),
        None => None,
    }
}

impl View for CharacterList {
    type V = CharacterListView;

    open spec fn view(&self) -> CharacterListView {
        CharacterListView {
            characters: self.characters@.map_values(|o: Option<CharacterFromList>| slot_view(o)),
            cities: self.cities@.map_values(|c: StartingCity| c@),
            flags: self.flags,
        }
    }
}

/// Clients from 7.0.13.0 on get the extended city entries, with a
/// position, a map and a description.
pub open spec fn extended_city_list(v: ClientVersion) -> bool {
    v.major > 7 || (v.major == 7 && (v.minor > 0 || (v.minor == 0 && v.revision >= 13)))
}

/// Whether `v` gets the extended city entries.
pub fn has_extended_city_list(v: ClientVersion) -> (r: bool)
    ensures
        r == extended_city_list(v),
{
    v.major > 7 || (v.major == 7 && (v.minor > 0 || (v.minor == 0 && v.revision >= 13)))
}

/// The width of a city or building name for `v`.
pub open spec fn city_name_width(v: ClientVersion) -> nat {
    if extended_city_list(v) {
        32
    } else {
        31
    }
}

/// The width of one city entry for `v`.
pub open spec fn city_width(v: ClientVersion) -> nat {
    if extended_city_list(v) {
        89
    } else {
        63
    }
}

/// The width of one character slot.
pub const SLOT_LENGTH: usize = 60;

/// The sixty bytes of a character slot; an empty slot is all zeros.
pub open spec fn slot_bytes(o: Option<CharacterFromListView>) -> Seq<u8> {
    match o {
        Some(c) => fixed_str(c.name, 30) + fixed_str(c.password, 30),
        None => zeros(60),
    }
}

/// The slot in `b` at `at`: empty where the name is.
pub open spec fn parse_slot(b: Seq<u8>, at: int) -> Option<CharacterFromListView> {
    let name = c_str(b.subrange(at, at + 30));
    if name.len() == 0 {
        None
    } else {
        Some(CharacterFromListView { name, password: c_str(b.subrange(at + 30, at + 60)) })
    }
}

/// The bytes of a city entry for `v`.
pub open spec fn city_bytes(c: StartingCityView, v: ClientVersion) -> Seq<u8> {
    if extended_city_list(v) {
        seq![c.index] + fixed_str(c.city, 32) + fixed_str(c.building, 32) + be32(c.x) + be32(c.y)
            + be32(c.z) + be32(c.map_id) + be32(c.description) + zeros(4)
    } else {
        seq![c.index] + fixed_str(c.city, 31) + fixed_str(c.building, 31)
    }
}

/// The city entry in `b` at `at` for `v`; the fields that `v` lacks are zero.
pub open spec fn parse_city(b: Seq<u8>, at: int, v: ClientVersion) -> StartingCityView {
    if extended_city_list(v) {
        StartingCityView {
            index: b[at],
            city: c_str(b.subrange(at + 1, at + 33)),
            building: c_str(b.subrange(at + 33, at + 65)),
            x: be32_value(b, at + 65),
            y: be32_value(b, at + 69),
            z: be32_value(b, at + 73),
            map_id: be32_value(b, at + 77),
            description: be32_value(b, at + 81),
        }
    } else {
        StartingCityView {
            index: b[at],
            city: c_str(b.subrange(at + 1, at + 32)),
            building: c_str(b.subrange(at + 32, at + 63)),
            x: 0,
            y: 0,
            z: 0,
            map_id: 0,
            description: 0,
        }
    }
}

/// What the wire form for `v` carries of a city.
pub open spec fn city_at_version(c: StartingCityView, v: ClientVersion) -> StartingCityView {
    if extended_city_list(v) {
        c
    } else {
        StartingCityView { x: 0, y: 0, z: 0, map_id: 0, description: 0, ..c }
    }
}

/// A slot that comes back whole: empty, or with a name and a password
/// that fit their fields.
pub open spec fn slot_valid(o: Option<CharacterFromListView>) -> bool {
    match o {
        Some(c) => c.name.len() > 0 && str_fits(c.name, 30) && str_fits(c.password, 30),
        None => true,
    }
}

/// The encoding of a character slot, as a function.
pub open spec fn slot_encoder() -> spec_fn(Option<CharacterFromListView>) -> Seq<u8> {
    |o: Option<CharacterFromListView>| slot_bytes(o)
}

/// The encoding of a city entry for `v`, as a function.
pub open spec fn city_encoder(v: ClientVersion) -> spec_fn(StartingCityView) -> Seq<u8> {
    |c: StartingCityView| city_bytes(c, v)
}

/// Where the city count stands in a character list body `p`.
pub open spec fn city_count_at(p: Seq<u8>) -> int {
    1 + 60 * p[0]
}

/// Where the flags stand in a character list body `p` for `v`.
pub open spec fn list_flags_at(p: Seq<u8>, v: ClientVersion) -> int {
    city_count_at(p) + 1 + city_width(v) * p[city_count_at(p)]
}

/// The fixed body length of a [`CharacterList`] for `v`: none.
pub open spec fn character_list_length(v: ClientVersion) -> Option<nat> {
    None
}

/// The body that encodes a [`CharacterList`] for `v`.
pub open spec fn character_list_body(m: CharacterListView, v: ClientVersion) -> Seq<u8> {
    seq![m.characters.len() as u8] + concat_entries(m.characters, slot_encoder()) + seq![
        m.cities.len() as u8,
    ] + concat_entries(m.cities, city_encoder(v)) + be32(m.flags)
}

/// The values of a [`CharacterList`] that the wire form for `v` can carry.
pub open spec fn character_list_valid(m: CharacterListView, v: ClientVersion) -> bool {
    &&& m.characters.len() <= 0xff
    &&& m.cities.len() <= 0xff
    &&& forall|i: int| 0 <= i < m.characters.len() ==> slot_valid(#[trigger] m.characters[i])
    &&& forall|i: int| 0 <= i < m.cities.len() ==> city_valid(#[trigger] m.cities[i], v)
}

/// A city whose names fit their fields for `v`.
pub open spec fn city_valid(c: StartingCityView, v: ClientVersion) -> bool {
    str_fits(c.city, city_name_width(v)) && str_fits(c.building, city_name_width(v))
}

proof fn lemma_slot(o: Option<CharacterFromListView>, b: Seq<u8>, at: int)
    requires
        slot_valid(o),
        0 <= at,
        at + 60 <= b.len(),
        b.subrange(at, at + 60) == slot_bytes(o),
    ensures
        parse_slot(b, at) == o,
{
    match o {
        Some(c) => {
            lemma_fixed_str_round_trip(c.name, 30);
            lemma_fixed_str_round_trip(c.password, 30);
            let e = slot_bytes(o);
            lemma_subrange_in(b, at, e, 0, 30);
            lemma_subrange_in(b, at, e, 30, 60);
            assert(e.subrange(0, 30) =~= fixed_str(c.name, 30));
            assert(e.subrange(30, 60) =~= fixed_str(c.password, 30));
        },
        None => {
            assert(b.subrange(at, at + 30)[0] == 0);
        },
    }
}

proof fn lemma_city(c: StartingCityView, v: ClientVersion, b: Seq<u8>, at: int)
    requires
        str_fits(c.city, city_name_width(v)),
        str_fits(c.building, city_name_width(v)),
        0 <= at,
        at + city_width(v) <= b.len(),
        b.subrange(at, at + city_width(v)) == city_bytes(c, v),
    ensures
        parse_city(b, at, v) == city_at_version(c, v),
{
    let e = city_bytes(c, v);
    assert(b[at] == b.subrange(at, at + city_width(v))[0]);
    if extended_city_list(v) {
        lemma_fixed_str_round_trip(c.city, 32);
        lemma_fixed_str_round_trip(c.building, 32);
        let e1 = seq![c.index] + fixed_str(c.city, 32) + fixed_str(c.building, 32);
        let e2 = e1 + be32(c.x) + be32(c.y) + be32(c.z);
        let e3 = e2 + be32(c.map_id) + be32(c.description);
        assert(e =~= e3 + zeros(4));
        assert(e.subrange(1, 33) =~= fixed_str(c.city, 32));
        assert(e.subrange(33, 65) =~= fixed_str(c.building, 32));
        assert(e.subrange(65, 69) =~= be32(c.x));
        assert(e.subrange(69, 73) =~= be32(c.y));
        assert(e.subrange(73, 77) =~= be32(c.z));
        assert(e.subrange(77, 81) =~= be32(c.map_id));
        assert(e.subrange(81, 85) =~= be32(c.description));
        lemma_subrange_in(b, at, e, 1, 33);
        lemma_subrange_in(b, at, e, 33, 65);
        lemma_subrange_in(b, at, e, 65, 69);
        lemma_subrange_in(b, at, e, 69, 73);
        lemma_subrange_in(b, at, e, 73, 77);
        lemma_subrange_in(b, at, e, 77, 81);
        lemma_subrange_in(b, at, e, 81, 85);
        lemma_be32_round_trip(c.x, b, at + 65);
        lemma_be32_round_trip(c.y, b, at + 69);
        lemma_be32_round_trip(c.z, b, at + 73);
        lemma_be32_round_trip(c.map_id, b, at + 77);
        lemma_be32_round_trip(c.description, b, at + 81);
    } else {
        lemma_fixed_str_round_trip(c.city, 31);
        lemma_fixed_str_round_trip(c.building, 31);
        assert(e.subrange(1, 32) =~= fixed_str(c.city, 31));
        assert(e.subrange(32, 63) =~= fixed_str(c.building, 31));
        lemma_subrange_in(b, at, e, 1, 32);
        lemma_subrange_in(b, at, e, 32, 63);
    }
}



impl Packet for CharacterList {
    open spec fn kind_spec() -> u8 {
        0xa9
    }

    open spec fn length_spec(v: ClientVersion) -> Option<nat> {
        character_list_length(v)
    }

    open spec fn body_spec(m: CharacterListView, v: ClientVersion) -> Seq<u8> {
        character_list_body(m, v)
    }

    open spec fn parse_spec(v: ClientVersion, payload: Seq<u8>) -> Option<CharacterListView> {
        if payload.len() >= 1 && payload.len() >= city_count_at(payload) + 1 && payload.len()
            == list_flags_at(payload, v) + 4 {
            Some(
                CharacterListView {
                    characters: Seq::new(
                        payload[0] as nat,
                        |i: int| parse_slot(payload, 1 + 60 * i),
                    ),
                    cities: Seq::new(
                        payload[city_count_at(payload)] as nat,
                        |i: int| parse_city(payload, city_count_at(payload) + 1 + city_width(v) * i, v),
                    ),
                    flags: be32_value(payload, list_flags_at(payload, v)),
                },
            )
        } else {
            None
        }
    }

    open spec fn valid_spec(m: CharacterListView, v: ClientVersion) -> bool {
        character_list_valid(m, v)
    }

    open spec fn at_version(m: CharacterListView, v: ClientVersion) -> CharacterListView {
        CharacterListView {
            cities: m.cities.map_values(|c: StartingCityView| city_at_version(c, v)),
            ..m
        }
    }

    open spec fn unwrap_spec(a: AnyPacket) -> Option<CharacterListView> {
        match a {
            AnyPacket::CharacterList(p) => Some(p@),
            _ => None,
        }
    }

    open spec fn wrap_spec(p: CharacterList) -> AnyPacket {
        AnyPacket::CharacterList(p)
    }

    fn packet_kind() -> (r: u8) {
        0xa9
    }

    fn fixed_length(client_version: ClientVersion) -> (r: Option<usize>) {
        None
    }

    fn decode(client_version: ClientVersion, payload: &[u8]) -> (r: Result<
        CharacterList,
        ProtocolError,
    >) {
        let len = payload.len();
        if len < 1 {
            return Err(ProtocolError::MalformedPayload(0xa9));
        }
        let n = payload[0] as usize;
        let ca = 1 + SLOT_LENGTH * n;
        if len < ca + 1 {
            return Err(ProtocolError::MalformedPayload(0xa9));
        }
        let m = payload[ca] as usize;
        let extended = has_extended_city_list(client_version);
        let w: usize = if extended {
            89
        } else {
            63
        };
        let flags_at = ca + 1 + w * m;
        if len != flags_at + 4 {
            return Err(ProtocolError::MalformedPayload(0xa9));
        }
        assert(city_count_at(payload@) == ca);
        assert(list_flags_at(payload@, client_version) == flags_at);
        let ghost parsed = Self::parse_spec(client_version, payload@).unwrap();
        let mut characters: Vec<Option<CharacterFromList>> = Vec::new();
        for i in 0..n
            invariant
                payload@.len() == len,
                n == payload@[0],
                ca == 1 + 60 * n,
                ca + 1 <= len,
                Self::parse_spec(client_version, payload@) == Some(parsed),
                parsed.characters.len() == n,
                characters@.len() == i,
                forall|j: int|
                    0 <= j < i ==> slot_view(#[trigger] characters@[j]) == parsed.characters[j],
        {
            let at = 1 + SLOT_LENGTH * i;
            let name = read_fixed_str(payload, at, CHARACTER_NAME_LENGTH);
            let slot = if name.len() == 0 {
                None
            } else {
                Some(CharacterFromList { name, password: read_fixed_str(payload, at + 30, 30) })
            };
            assert(slot_view(slot) == parse_slot(payload@, 1 + 60 * i));
            assert(parsed.characters[i as int] == parse_slot(payload@, 1 + 60 * i));
            let ghost before = characters@;
            characters.push(slot);
            assert forall|j: int| 0 <= j <= i implies slot_view(#[trigger] characters@[j])
                == parsed.characters[j] by {
                if j < i {
                    assert(characters@[j] == before[j]);
                }
            }
        }
        let mut cities: Vec<StartingCity> = Vec::new();
        for j in 0..m
            invariant
                payload@.len() == len,
                m == payload@[ca as int],
                ca == city_count_at(payload@),
                w == city_width(client_version),
                extended == extended_city_list(client_version),
                m <= 0xff,
                w <= 89,
                len == ca + 1 + w * m + 4,
                len <= usize::MAX,
                Self::parse_spec(client_version, payload@) == Some(parsed),
                parsed.cities.len() == m,
                cities@.len() == j,
                forall|k: int| 0 <= k < j ==> (#[trigger] cities@[k])@ == parsed.cities[k],
        {
            assert(w * j + w <= w * m) by (nonlinear_arith)
                requires
                    j < m,
            ;
            assert(w * j <= 89 * 0xff) by (nonlinear_arith)
                requires
                    j < m,
                    m <= 0xff,
                    w <= 89,
            ;
            let at = ca + 1 + w * j;
            let c = if extended {
                StartingCity {
                    index: payload[at],
                    city: read_fixed_str(payload, at + 1, 32),
                    building: read_fixed_str(payload, at + 33, 32),
                    x: read_u32(payload, at + 65),
                    y: read_u32(payload, at + 69),
                    z: read_u32(payload, at + 73),
                    map_id: read_u32(payload, at + 77),
                    description: read_u32(payload, at + 81),
                }
            } else {
                StartingCity {
                    index: payload[at],
                    city: read_fixed_str(payload, at + 1, 31),
                    building: read_fixed_str(payload, at + 32, 31),
                    x: 0,
                    y: 0,
                    z: 0,
                    map_id: 0,
                    description: 0,
                }
            };
            assert(c@ == parse_city(payload@, ca + 1 + city_width(client_version) * j, client_version));
            assert(parsed.cities[j as int] == c@);
            let ghost before = cities@;
            cities.push(c);
            assert forall|k: int| 0 <= k <= j implies (#[trigger] cities@[k])@ == parsed.cities[k] by {
                if k < j {
                    assert(cities@[k] == before[k]);
                }
            }
        }
        let r = CharacterList { characters, cities, flags: read_u32(payload, flags_at) };
        assert(r@.characters =~= parsed.characters);
        assert(r@.cities =~= parsed.cities);
        Ok(r)
    }

    fn encode(&self, client_version: ClientVersion, writer: &mut Vec<u8>) -> (r: Result<
        (),
        ProtocolError,
    >) {
        let ghost m = self@;
        let extended = has_extended_city_list(client_version);
        let name_width: usize = if extended {
            32
        } else {
            31
        };
        if self.characters.len() > 0xff || self.cities.len() > 0xff {
            return Err(ProtocolError::UnencodableValue(0xa9));
        }
        for i in 0..self.characters.len()
            invariant
                m == self@,
                name_width == city_name_width(client_version),
                extended == extended_city_list(client_version),
                forall|j: int| 0 <= j < i ==> slot_valid(#[trigger] m.characters[j]),
        {
            assert(m.characters[i as int] == slot_view(self.characters@[i as int]));
            if let Some(c) = &self.characters[i] {
                if c.name.len() == 0 || !fits_field(&c.name, CHARACTER_NAME_LENGTH) || !fits_field(
                    &c.password,
                    CHARACTER_NAME_LENGTH,
                ) {
                    assert(!slot_valid(m.characters[i as int]));
                    return Err(ProtocolError::UnencodableValue(0xa9));
                }
            }
        }
        for i in 0..self.cities.len()
            invariant
                m == self@,
                name_width == city_name_width(client_version),
                extended == extended_city_list(client_version),
                forall|j: int| 0 <= j < i ==> city_valid(#[trigger] m.cities[j], client_version),
        {
            assert(m.cities[i as int] == self.cities@[i as int]@);
            let fits = fits_field(&self.cities[i].city, name_width) && fits_field(
                &self.cities[i].building,
                name_width,
            );
            assert(fits == city_valid(m.cities[i as int], client_version));
            if !fits {
                return Err(ProtocolError::UnencodableValue(0xa9));
            }
        }
        writer.push(self.characters.len() as u8);
        let ghost head = writer@;
        for i in 0..self.characters.len()
            invariant
                m == self@,
                extended == extended_city_list(client_version),
                writer@ == head + concat_entries(m.characters.take(i as int), slot_encoder()),
        {
            match &self.characters[i] {
                Some(c) => {
                    push_fixed_str(writer, &c.name, CHARACTER_NAME_LENGTH);
                    push_fixed_str(writer, &c.password, CHARACTER_NAME_LENGTH);
                },
                None => {
                    push_zeros(writer, SLOT_LENGTH);
                },
            }
            assert(m.characters[i as int] == slot_view(self.characters@[i as int]));
            assert(m.characters.take(i + 1).drop_last() =~= m.characters.take(i as int));
            assert(writer@ =~= head + concat_entries(m.characters.take(i + 1), slot_encoder()));
        }
        assert(m.characters.take(m.characters.len() as int) =~= m.characters);
        writer.push(self.cities.len() as u8);
        let ghost middle = writer@;
        for i in 0..self.cities.len()
            invariant
                m == self@,
                extended == extended_city_list(client_version),
                writer@ == middle + concat_entries(m.cities.take(i as int), city_encoder(client_version)),
        {
            let c = &self.cities[i];
            writer.push(c.index);
            if extended {
                push_fixed_str(writer, &c.city, 32);
                push_fixed_str(writer, &c.building, 32);
                push_u32(writer, c.x);
                push_u32(writer, c.y);
                push_u32(writer, c.z);
                push_u32(writer, c.map_id);
                push_u32(writer, c.description);
                push_zeros(writer, 4);
            } else {
                push_fixed_str(writer, &c.city, 31);
                push_fixed_str(writer, &c.building, 31);
            }
            assert(m.cities[i as int] == c@);
            assert(m.cities.take(i + 1).drop_last() =~= m.cities.take(i as int));
            assert(writer@ =~= middle + concat_entries(m.cities.take(i + 1), city_encoder(client_version)));
        }
        assert(m.cities.take(m.cities.len() as int) =~= m.cities);
        push_u32(writer, self.flags);
        assert(writer@ =~= old(writer)@ + Self::body_spec(self@, client_version));
        Ok(())
    }

    fn into_any(self) -> (r: AnyPacket) {
        AnyPacket::CharacterList(self)
    }

    fn from_any(a: AnyPacket) -> (r: Result<CharacterList, AnyPacket>) {
        match a {
            AnyPacket::CharacterList(p) => Ok(p),
            _ => Err(a),
        }
    }

    fn from_any_ref(a: &AnyPacket) -> (r: Option<&CharacterList>) {
        match a {
            AnyPacket::CharacterList(p) => Some(p),
            _ => None,
        }
    }

    fn from_any_mut(a: &mut AnyPacket) -> (r: Option<&mut CharacterList>) {
        match a {
            AnyPacket::CharacterList(p) => Some(p),
            _ => None,
        }
    }

    proof fn lemma_unwrap_kind(a: AnyPacket) {
    }

    proof fn lemma_round_trip(m: CharacterListView, v: ClientVersion) {
        let b = Self::body_spec(m, v);
        let n = m.characters.len() as int;
        let nc = m.cities.len() as int;
        let w = city_width(v) as int;
        let slots = concat_entries(m.characters, slot_encoder());
        let cities = concat_entries(m.cities, city_encoder(v));
        assert forall|x: Option<CharacterFromListView>| #[trigger] slot_encoder()(x).len() == 60 by {
            match x {
                Some(c) => {},
                None => {},
            }
        }
        assert forall|x: StartingCityView| #[trigger] city_encoder(v)(x).len() == w by {}
        lemma_concat_entries(m.characters, slot_encoder(), 60);
        lemma_concat_entries(m.cities, city_encoder(v), city_width(v));
        assert(b[0] == n as u8);
        assert(city_count_at(b) == 1 + 60 * n);
        let ca = 1 + 60 * n;
        assert(b[ca] == nc as u8);
        assert(list_flags_at(b, v) == ca + 1 + w * nc);
        assert(b.subrange(1, 1 + slots.len() as int) =~= slots);
        assert(b.subrange(ca + 1, ca + 1 + cities.len() as int) =~= cities);
        assert(b.subrange(ca + 1 + w * nc, ca + 1 + w * nc + 4) =~= be32(m.flags));
        lemma_be32_round_trip(m.flags, b, ca + 1 + w * nc);
        let p = Self::parse_spec(v, b).unwrap();
        assert forall|i: int| 0 <= i < n implies p.characters[i] == m.characters[i] by {
            assert(0 <= 60 * i && 60 * i + 60 <= 60 * n);
            lemma_subrange_in(b, 1, slots, 60 * i, 60 * i + 60);
            lemma_slot(m.characters[i], b, 1 + 60 * i);
        }
        assert forall|i: int| 0 <= i < nc implies p.cities[i] == city_at_version(m.cities[i], v) by {
            assert(0 <= w * i) by (nonlinear_arith)
                requires
                    0 <= i,
                    0 <= w,
            ;
            assert(w * i + w <= w * nc) by (nonlinear_arith)
                requires
                    i < nc,
                    0 <= w,
            ;
            lemma_subrange_in(b, ca + 1, cities, w * i, w * i + w);
            assert(city_valid(m.cities[i], v));
            lemma_city(m.cities[i], v, b, ca + 1 + w * i);
        }
        assert(p.characters =~= m.characters);
        assert(p.cities =~= Self::at_version(m, v).cities);
    }

    proof fn lemma_fixed_length(m: CharacterListView, v: ClientVersion) {
    }
}

} // verus!
