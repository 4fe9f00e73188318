//! Payload schemas without floating-point fields.
//!
//! Each payload has a fixed wire size. `serialize` writes exactly that many
//! bytes, zero-padded; `deserialize` reads them back. Each schema states its
//! layout as a spec function (`encode` / `decode`) over a view of the
//! payload, and proves that decoding inverts encoding on valid values.

use crate::text::{field_text, fixed_text, lemma_field_text_fits, lemma_text_at, push_text, read_text, text_fits};
use crate::wire::{
    bool_byte, bool_to_byte, byte_bool, byte_to_bool, from_i8_bits, i8_bits, i8_of_bits, le16, le32,
    lemma_i8_bits_round_trip, lemma_le16_round_trip, lemma_le32_round_trip, push_u16, push_u32,
    push_zeros, read_u16, read_u32, to_i8_bits, u16_at, u32_at,
};
use vstd::prelude::*;

verus! {

pub const NAME_SIZE: usize = 0x20;

pub const COSTUME_SIZE: usize = 0x20;

pub const MODULE_SIZE: usize = 0x20;

pub const GAME_STAGE_SIZE: usize = 0x40;

pub const STAGE_SIZE: usize = 0x30;

pub const STAGE_ID_SIZE: usize = 0x10;

// ---------------------------------------------------------------- Init

/// Sent by the relay right after accepting a socket.
#[derive(Clone, Copy, PartialEq, Eq, Structural, Debug)]
pub struct InitPacket {
    pub max_players: u16,
}

impl InitPacket {
    pub const SIZE: usize = 2;

    pub open spec fn encode(p: InitPacket) -> Seq<u8> {
        le16(p.max_players)
    }

    pub open spec fn decode(b: Seq<u8>) -> InitPacket {
        InitPacket { max_players: u16_at(b, 0) }
    }

    pub fn serialize(&self) -> (r: Vec<u8>)
        ensures
            r@ == Self::encode(*self),
    {
        let mut out: Vec<u8> = Vec::new();
        push_u16(&mut out, self.max_players);
        assert(out@ =~= Self::encode(*self));
        out
    }

    pub fn deserialize(data: &[u8]) -> (r: InitPacket)
        requires
            data@.len() >= Self::SIZE,
        ensures
            r == Self::decode(data@),
    {
        InitPacket { max_players: read_u16(data, 0) }
    }

    pub proof fn lemma_round_trip(p: InitPacket)
        ensures
            Self::encode(p).len() == Self::SIZE,
            Self::decode(Self::encode(p)) == p,
    {
        lemma_le16_round_trip(p.max_players, Seq::empty(), Seq::empty());
        assert(Seq::<u8>::empty() + le16(p.max_players) + Seq::<u8>::empty() =~= le16(p.max_players));
    }
}

// ---------------------------------------------------------------- Shine

/// A collected object, by id.
#[derive(Clone, Copy, PartialEq, Eq, Structural, Debug)]
pub struct ShinePacket {
    pub shine_id: u32,
}

impl ShinePacket {
    pub const SIZE: usize = 4;

    pub open spec fn encode(p: ShinePacket) -> Seq<u8> {
        le32(p.shine_id)
    }

    pub open spec fn decode(b: Seq<u8>) -> ShinePacket {
        ShinePacket { shine_id: u32_at(b, 0) }
    }

    pub fn serialize(&self) -> (r: Vec<u8>)
        ensures
            r@ == Self::encode(*self),
    {
        let mut out: Vec<u8> = Vec::new();
        push_u32(&mut out, self.shine_id);
        assert(out@ =~= Self::encode(*self));
        out
    }

    pub fn deserialize(data: &[u8]) -> (r: ShinePacket)
        requires
            data@.len() >= Self::SIZE,
        ensures
            r == Self::decode(data@),
    {
        ShinePacket { shine_id: read_u32(data, 0) }
    }

    pub proof fn lemma_round_trip(p: ShinePacket)
        ensures
            Self::encode(p).len() == Self::SIZE,
            Self::decode(Self::encode(p)) == p,
    {
        lemma_le32_round_trip(p.shine_id, Seq::empty(), Seq::empty());
        assert(Seq::<u8>::empty() + le32(p.shine_id) + Seq::<u8>::empty() =~= le32(p.shine_id));
    }
}

// ---------------------------------------------------------------- Connect

/// How a client binds its identity in the handshake.
#[derive(Clone, Copy, PartialEq, Eq, Structural, Debug)]
pub enum ConnectionTypes {
    FirstConnection,
    Reconnecting,
}

/// The wire value of a connection type.
pub open spec fn connection_code(c: ConnectionTypes) -> u32 {
    match c {
        ConnectionTypes::FirstConnection => 0,
        ConnectionTypes::Reconnecting => 1,
    }
}

/// The handshake, and the announcement of a player to the others.
pub struct ConnectPacket {
    pub connection_type: ConnectionTypes,
    pub max_players: u16,
    pub client_name: String,
}

pub struct ConnectView {
    pub connection_type: ConnectionTypes,
    pub max_players: u16,
    pub client_name: Seq<char>,
}

impl View for ConnectPacket {
    type V = ConnectView;

    open spec fn view(&self) -> ConnectView {
        ConnectView {
            connection_type: self.connection_type,
            max_players: self.max_players,
            client_name: self.client_name@,
        }
    }
}

impl ConnectPacket {
    pub const SIZE: usize = 0x26;

    pub open spec fn valid(v: ConnectView) -> bool {
        text_fits(v.client_name, NAME_SIZE as nat)
    }

    pub open spec fn encode(v: ConnectView) -> Seq<u8> {
        le32(connection_code(v.connection_type)) + le16(v.max_players) + fixed_text(
            v.client_name,
            NAME_SIZE as nat,
        )
    }

    /// A code other than 1 reads as a first connection.
    pub open spec fn decode(b: Seq<u8>) -> ConnectView {
        ConnectView {
            connection_type: if u32_at(b, 0) == 1 {
                ConnectionTypes::Reconnecting
            } else {
                ConnectionTypes::FirstConnection
            },
            max_players: u16_at(b, 4),
            client_name: field_text(b.subrange(6, 6 + NAME_SIZE)),
        }
    }

    pub fn serialize(&self) -> (r: Vec<u8>)
        ensures
            r@ == Self::encode(self@),
    {
        let mut out: Vec<u8> = Vec::new();
        let code: u32 = match self.connection_type {
            ConnectionTypes::FirstConnection => 0,
            ConnectionTypes::Reconnecting => 1,
        };
        push_u32(&mut out, code);
        push_u16(&mut out, self.max_players);
        push_text(&mut out, self.client_name.as_str(), NAME_SIZE);
        assert(out@ =~= Self::encode(self@));
        out
    }

    pub fn deserialize(data: &[u8]) -> (r: ConnectPacket)
        requires
            data@.len() >= Self::SIZE,
        ensures
            r@ == Self::decode(data@),
    {
        let code = read_u32(data, 0);
        ConnectPacket {
            connection_type: if code == 1 {
                ConnectionTypes::Reconnecting
            } else {
                ConnectionTypes::FirstConnection
            },
            max_players: read_u16(data, 4),
            client_name: read_text(data, 6, NAME_SIZE),
        }
    }

    pub proof fn lemma_round_trip(v: ConnectView)
        requires
            Self::valid(v),
        ensures
            Self::encode(v).len() == Self::SIZE,
            Self::decode(Self::encode(v)) == v,
    {
        let a = le32(connection_code(v.connection_type));
        let b = le16(v.max_players);
        let c = fixed_text(v.client_name, NAME_SIZE as nat);
        let e = Self::encode(v);
        lemma_le32_round_trip(connection_code(v.connection_type), b + c, Seq::empty());
        assert(Seq::<u8>::empty() + a + (b + c) =~= e);
        lemma_le16_round_trip(v.max_players, c, a);
        lemma_text_at(a + b, v.client_name, NAME_SIZE as nat, Seq::empty());
        assert(a + b + c + Seq::<u8>::empty() =~= e);
    }

    pub proof fn lemma_decode_valid(b: Seq<u8>)
        requires
            b.len() >= Self::SIZE,
        ensures
            Self::valid(Self::decode(b)),
    {
        lemma_field_text_fits(b.subrange(6, 6 + NAME_SIZE));
    }
}

// ---------------------------------------------------------------- Costume

/// The outfit a player wears.
pub struct CostumePacket {
    pub body_name: String,
    pub cap_name: String,
}

pub struct CostumeView {
    pub body_name: Seq<char>,
    pub cap_name: Seq<char>,
}

impl View for CostumePacket {
    type V = CostumeView;

    open spec fn view(&self) -> CostumeView {
        CostumeView { body_name: self.body_name@, cap_name: self.cap_name@ }
    }
}

impl CostumePacket {
    pub const SIZE: usize = 0x40;

    pub open spec fn valid(v: CostumeView) -> bool {
        text_fits(v.body_name, COSTUME_SIZE as nat) && text_fits(v.cap_name, COSTUME_SIZE as nat)
    }

    pub open spec fn encode(v: CostumeView) -> Seq<u8> {
        fixed_text(v.body_name, COSTUME_SIZE as nat) + fixed_text(v.cap_name, COSTUME_SIZE as nat)
    }

    pub open spec fn decode(b: Seq<u8>) -> CostumeView {
        CostumeView {
            body_name: field_text(b.subrange(0, COSTUME_SIZE as int)),
            cap_name: field_text(b.subrange(COSTUME_SIZE as int, 2 * COSTUME_SIZE)),
        }
    }

    pub fn serialize(&self) -> (r: Vec<u8>)
        ensures
            r@ == Self::encode(self@),
    {
        let mut out: Vec<u8> = Vec::new();
        push_text(&mut out, self.body_name.as_str(), COSTUME_SIZE);
        push_text(&mut out, self.cap_name.as_str(), COSTUME_SIZE);
        assert(out@ =~= Self::encode(self@));
        out
    }

    pub fn deserialize(data: &[u8]) -> (r: CostumePacket)
        requires
            data@.len() >= Self::SIZE,
        ensures
            r@ == Self::decode(data@),
    {
        CostumePacket {
            body_name: read_text(data, 0, COSTUME_SIZE),
            cap_name: read_text(data, COSTUME_SIZE, COSTUME_SIZE),
        }
    }

    /// An independent copy with the same contents.
    pub fn copy(&self) -> (r: CostumePacket)
        ensures
            r@ == self@,
    {
        CostumePacket { body_name: self.body_name.clone(), cap_name: self.cap_name.clone() }
    }

    pub proof fn lemma_round_trip(v: CostumeView)
        requires
            Self::valid(v),
        ensures
            Self::encode(v).len() == Self::SIZE,
            Self::decode(Self::encode(v)) == v,
    {
        let a = fixed_text(v.body_name, COSTUME_SIZE as nat);
        let c = fixed_text(v.cap_name, COSTUME_SIZE as nat);
        lemma_text_at(Seq::empty(), v.body_name, COSTUME_SIZE as nat, c);
        assert(Seq::<u8>::empty() + a + c =~= Self::encode(v));
        lemma_text_at(a, v.cap_name, COSTUME_SIZE as nat, Seq::empty());
        assert(a + c + Seq::<u8>::empty() =~= Self::encode(v));
    }

    pub proof fn lemma_decode_valid(b: Seq<u8>)
        requires
            b.len() >= Self::SIZE,
        ensures
            Self::valid(Self::decode(b)),
    {
        lemma_field_text_fits(b.subrange(0, COSTUME_SIZE as int));
        lemma_field_text_fits(b.subrange(COSTUME_SIZE as int, 2 * COSTUME_SIZE));
    }
}

// ---------------------------------------------------------------- Capture

/// The object a player has captured, by module name.
pub struct CapturePacket {
    pub module_name: String,
}

pub struct CaptureView {
    pub module_name: Seq<char>,
}

impl View for CapturePacket {
    type V = CaptureView;

    open spec fn view(&self) -> CaptureView {
        CaptureView { module_name: self.module_name@ }
    }
}

impl CapturePacket {
    pub const SIZE: usize = 0x20;

    pub open spec fn valid(v: CaptureView) -> bool {
        text_fits(v.module_name, MODULE_SIZE as nat)
    }

    pub open spec fn encode(v: CaptureView) -> Seq<u8> {
        fixed_text(v.module_name, MODULE_SIZE as nat)
    }

    pub open spec fn decode(b: Seq<u8>) -> CaptureView {
        CaptureView { module_name: field_text(b.subrange(0, MODULE_SIZE as int)) }
    }

    pub fn serialize(&self) -> (r: Vec<u8>)
        ensures
            r@ == Self::encode(self@),
    {
        let mut out: Vec<u8> = Vec::new();
        push_text(&mut out, self.module_name.as_str(), MODULE_SIZE);
        assert(out@ =~= Self::encode(self@));
        out
    }

    pub fn deserialize(data: &[u8]) -> (r: CapturePacket)
        requires
            data@.len() >= Self::SIZE,
        ensures
            r@ == Self::decode(data@),
    {
        CapturePacket { module_name: read_text(data, 0, MODULE_SIZE) }
    }

    pub proof fn lemma_round_trip(v: CaptureView)
        requires
            Self::valid(v),
        ensures
            Self::encode(v).len() == Self::SIZE,
            Self::decode(Self::encode(v)) == v,
    {
        lemma_text_at(Seq::empty(), v.module_name, MODULE_SIZE as nat, Seq::empty());
        assert(Seq::<u8>::empty() + Self::encode(v) + Seq::<u8>::empty() =~= Self::encode(v));
    }

    pub proof fn lemma_decode_valid(b: Seq<u8>)
        requires
            b.len() >= Self::SIZE,
        ensures
            Self::valid(Self::decode(b)),
    {
        lemma_field_text_fits(b.subrange(0, MODULE_SIZE as int));
    }
}

// ---------------------------------------------------------------- Game

/// Where a player is: 2D section or not, scenario number, stage name.
pub struct GamePacket {
    pub is_2d: bool,
    pub scenario_num: u8,
    pub stage: String,
}

pub struct GameView {
    pub is_2d: bool,
    pub scenario_num: u8,
    pub stage: Seq<char>,
}

impl View for GamePacket {
    type V = GameView;

    open spec fn view(&self) -> GameView {
        GameView { is_2d: self.is_2d, scenario_num: self.scenario_num, stage: self.stage@ }
    }
}

impl GamePacket {
    pub const SIZE: usize = 0x42;

    pub open spec fn valid(v: GameView) -> bool {
        text_fits(v.stage, GAME_STAGE_SIZE as nat)
    }

    pub open spec fn encode(v: GameView) -> Seq<u8> {
        seq![bool_byte(v.is_2d), v.scenario_num] + fixed_text(v.stage, GAME_STAGE_SIZE as nat)
    }

    pub open spec fn decode(b: Seq<u8>) -> GameView {
        GameView {
            is_2d: byte_bool(b[0]),
            scenario_num: b[1],
            stage: field_text(b.subrange(2, 2 + GAME_STAGE_SIZE)),
        }
    }

    pub fn serialize(&self) -> (r: Vec<u8>)
        ensures
            r@ == Self::encode(self@),
    {
        let mut out: Vec<u8> = Vec::new();
        out.push(bool_to_byte(self.is_2d));
        out.push(self.scenario_num);
        push_text(&mut out, self.stage.as_str(), GAME_STAGE_SIZE);
        assert(out@ =~= Self::encode(self@));
        out
    }

    pub fn deserialize(data: &[u8]) -> (r: GamePacket)
        requires
            data@.len() >= Self::SIZE,
        ensures
            r@ == Self::decode(data@),
    {
        GamePacket {
            is_2d: byte_to_bool(data[0]),
            scenario_num: data[1],
            stage: read_text(data, 2, GAME_STAGE_SIZE),
        }
    }

    /// An independent copy with the same contents.
    pub fn copy(&self) -> (r: GamePacket)
        ensures
            r@ == self@,
    {
        GamePacket { is_2d: self.is_2d, scenario_num: self.scenario_num, stage: self.stage.clone() }
    }

    pub proof fn lemma_round_trip(v: GameView)
        requires
            Self::valid(v),
        ensures
            Self::encode(v).len() == Self::SIZE,
            Self::decode(Self::encode(v)) == v,
    {
        let a = seq![bool_byte(v.is_2d), v.scenario_num];
        lemma_text_at(a, v.stage, GAME_STAGE_SIZE as nat, Seq::empty());
        assert(a + fixed_text(v.stage, GAME_STAGE_SIZE as nat) + Seq::<u8>::empty() =~= Self::encode(v));
    }

    pub proof fn lemma_decode_valid(b: Seq<u8>)
        requires
            b.len() >= Self::SIZE,
        ensures
            Self::valid(Self::decode(b)),
    {
        lemma_field_text_fits(b.subrange(2, 2 + GAME_STAGE_SIZE));
    }
}

// ---------------------------------------------------------------- Tag

/// Which part of a tag-mode status a packet updates.
#[derive(Clone, Copy, PartialEq, Eq, Structural, Debug)]
pub enum TagUpdate {
    Time,
    State,
}

/// The wire value of an update kind.
pub open spec fn tag_update_code(u: TagUpdate) -> u8 {
    match u {
        TagUpdate::Time => 1,
        TagUpdate::State => 2,
    }
}

/// Tag-mode status: who is "it", and the time on the clock.
#[derive(Clone, Copy, PartialEq, Eq, Structural, Debug)]
pub struct TagPacket {
    pub update_type: TagUpdate,
    pub is_it: bool,
    pub seconds: u8,
    pub minutes: u16,
}

impl TagPacket {
    pub const SIZE: usize = 6;

    pub open spec fn encode(p: TagPacket) -> Seq<u8> {
        seq![tag_update_code(p.update_type), bool_byte(p.is_it), p.seconds, 0u8] + le16(p.minutes)
    }

    /// A code other than 2 reads as a time update.
    pub open spec fn decode(b: Seq<u8>) -> TagPacket {
        TagPacket {
            update_type: if b[0] == 2 {
                TagUpdate::State
            } else {
                TagUpdate::Time
            },
            is_it: byte_bool(b[1]),
            seconds: b[2],
            minutes: u16_at(b, 4),
        }
    }

    pub fn serialize(&self) -> (r: Vec<u8>)
        ensures
            r@ == Self::encode(*self),
    {
        let mut out: Vec<u8> = Vec::new();
        let code: u8 = match self.update_type {
            TagUpdate::Time => 1,
            TagUpdate::State => 2,
        };
        out.push(code);
        out.push(bool_to_byte(self.is_it));
        out.push(self.seconds);
        out.push(0u8);
        push_u16(&mut out, self.minutes);
        assert(out@ =~= Self::encode(*self));
        out
    }

    pub fn deserialize(data: &[u8]) -> (r: TagPacket)
        requires
            data@.len() >= Self::SIZE,
        ensures
            r == Self::decode(data@),
    {
        TagPacket {
            update_type: if data[0] == 2 {
                TagUpdate::State
            } else {
                TagUpdate::Time
            },
            is_it: byte_to_bool(data[1]),
            seconds: data[2],
            minutes: read_u16(data, 4),
        }
    }

    pub proof fn lemma_round_trip(p: TagPacket)
        ensures
            Self::encode(p).len() == Self::SIZE,
            Self::decode(Self::encode(p)) == p,
    {
        let a = seq![tag_update_code(p.update_type), bool_byte(p.is_it), p.seconds, 0u8];
        lemma_le16_round_trip(p.minutes, Seq::empty(), a);
        assert(a + le16(p.minutes) + Seq::<u8>::empty() =~= Self::encode(p));
    }
}

// ---------------------------------------------------------------- ChangeStage

/// A request to move to another stage.
pub struct ChangeStagePacket {
    pub stage: String,
    pub id: String,
    pub scenario: i8,
    pub sub_scenario_type: u8,
}

pub struct ChangeStageView {
    pub stage: Seq<char>,
    pub id: Seq<char>,
    pub scenario: i8,
    pub sub_scenario_type: u8,
}

impl View for ChangeStagePacket {
    type V = ChangeStageView;

    open spec fn view(&self) -> ChangeStageView {
        ChangeStageView {
            stage: self.stage@,
            id: self.id@,
            scenario: self.scenario,
            sub_scenario_type: self.sub_scenario_type,
        }
    }
}

impl ChangeStagePacket {
    pub const SIZE: usize = 0x44;

    pub open spec fn valid(v: ChangeStageView) -> bool {
        text_fits(v.stage, STAGE_SIZE as nat) && text_fits(v.id, STAGE_ID_SIZE as nat)
    }

    pub open spec fn encode(v: ChangeStageView) -> Seq<u8> {
        fixed_text(v.stage, STAGE_SIZE as nat) + fixed_text(v.id, STAGE_ID_SIZE as nat) + seq![
            i8_bits(v.scenario),
            v.sub_scenario_type,
            0u8,
            0u8,
        ]
    }

    pub open spec fn decode(b: Seq<u8>) -> ChangeStageView {
        ChangeStageView {
            stage: field_text(b.subrange(0, STAGE_SIZE as int)),
            id: field_text(b.subrange(STAGE_SIZE as int, STAGE_SIZE + STAGE_ID_SIZE)),
            scenario: i8_of_bits(b[STAGE_SIZE + STAGE_ID_SIZE]),
            sub_scenario_type: b[STAGE_SIZE + STAGE_ID_SIZE + 1],
        }
    }

    pub fn serialize(&self) -> (r: Vec<u8>)
        ensures
            r@ == Self::encode(self@),
    {
        let mut out: Vec<u8> = Vec::new();
        push_text(&mut out, self.stage.as_str(), STAGE_SIZE);
        push_text(&mut out, self.id.as_str(), STAGE_ID_SIZE);
        out.push(to_i8_bits(self.scenario));
        out.push(self.sub_scenario_type);
        push_zeros(&mut out, 2);
        assert(out@ =~= Self::encode(self@));
        out
    }

    pub fn deserialize(data: &[u8]) -> (r: ChangeStagePacket)
        requires
            data@.len() >= Self::SIZE,
        ensures
            r@ == Self::decode(data@),
    {
        ChangeStagePacket {
            stage: read_text(data, 0, STAGE_SIZE),
            id: read_text(data, STAGE_SIZE, STAGE_ID_SIZE),
            scenario: from_i8_bits(data[STAGE_SIZE + STAGE_ID_SIZE]),
            sub_scenario_type: data[STAGE_SIZE + STAGE_ID_SIZE + 1],
        }
    }

    pub proof fn lemma_round_trip(v: ChangeStageView)
        requires
            Self::valid(v),
        ensures
            Self::encode(v).len() == Self::SIZE,
            Self::decode(Self::encode(v)) == v,
    {
        let a = fixed_text(v.stage, STAGE_SIZE as nat);
        let b = fixed_text(v.id, STAGE_ID_SIZE as nat);
        let c = seq![i8_bits(v.scenario), v.sub_scenario_type, 0u8, 0u8];
        lemma_text_at(Seq::empty(), v.stage, STAGE_SIZE as nat, b + c);
        assert(Seq::<u8>::empty() + a + (b + c) =~= Self::encode(v));
        lemma_text_at(a, v.id, STAGE_ID_SIZE as nat, c);
        lemma_i8_bits_round_trip(v.scenario);
    }

    pub proof fn lemma_decode_valid(b: Seq<u8>)
        requires
            b.len() >= Self::SIZE,
        ensures
            Self::valid(Self::decode(b)),
    {
        lemma_field_text_fits(b.subrange(0, STAGE_SIZE as int));
        lemma_field_text_fits(b.subrange(STAGE_SIZE as int, STAGE_SIZE + STAGE_ID_SIZE));
    }
}

// ---------------------------------------------------------------- Disconnect, Unhandled

/// An explicit goodbye; no payload bytes.
#[derive(Clone, Copy, PartialEq, Eq, Structural, Debug)]
pub struct DisconnectPacket {}

/// The payload of a kind the relay does not interpret; no bytes are decoded.
#[derive(Clone, Copy, PartialEq, Eq, Structural, Debug)]
pub struct UnhandledPacket {}

} // verus!
