//! One logical player's record and the state its own packets update.

use crate::header::SessionId;
use crate::packets::{CostumePacket, CostumeView, GamePacket, GameView, TagPacket, TagUpdate};
use crate::text::same_text;
use vstd::prelude::*;

verus! {

/// Scenario number of a player who has not reported one yet.
pub const NO_SCENARIO: u8 = 200;

/// A tag-mode clock reading and when it was received (ms since the Unix epoch).
#[derive(Clone, Copy, PartialEq, Eq, Structural, Debug)]
pub struct Time {
    pub minutes: u16,
    pub seconds: u8,
    pub when: i64,
}

pub struct Metadata {
    pub shine_sync: Vec<u32>,
    pub loaded_save: bool,
    pub scenario: u8,
    pub is_2d: bool,
    pub speedrun: bool,
    pub last_game_packet: Option<GamePacket>,
    pub seeking: bool,
    pub time: Time,
}

pub struct Client {
    pub metadata: Metadata,
    pub connected: bool,
    pub current_costume: Option<CostumePacket>,
    pub name: String,
    pub id: SessionId,
}

/// Relies on `uuid::Uuid::new_v4`: a random version-4 UUID, taken as its
/// 128-bit big-endian number (`as_u128`). Version nibble 4, variant bits 10.
#[verifier::external_body]
fn new_session_id() -> (r: SessionId)
    ensures
        (r.value >> 76u128) & 0xf == 4,
        (r.value >> 62u128) & 0x3 == 2,
{
    SessionId { value: uuid::Uuid::new_v4().as_u128() }
}

/// Relies on `chrono::Utc::now`: the current time, as milliseconds since
/// the Unix epoch (`timestamp_millis`). Nothing is known of its value.
#[verifier::external_body]
fn now_millis() -> (r: i64) {
    chrono::Utc::now().timestamp_millis()
}

/// The current time in milliseconds since the Unix epoch.
pub fn current_time() -> (r: i64) {
    now_millis()
}

/// The fresh state of a record: not connected, no name, nothing reported.
pub open spec fn is_fresh(c: Client, id: SessionId, now: i64) -> bool {
    &&& c.id == id
    &&& !c.connected
    &&& c.name@.len() == 0
    &&& nothing_reported(c, now)
}

/// No costume, no game state, tag clock at zero stamped `now`.
pub open spec fn nothing_reported(c: Client, now: i64) -> bool {
    &&& c.current_costume is None
    &&& c.metadata.shine_sync@.len() == 0
    &&& !c.metadata.loaded_save
    &&& c.metadata.scenario == NO_SCENARIO
    &&& !c.metadata.is_2d
    &&& !c.metadata.speedrun
    &&& c.metadata.last_game_packet is None
    &&& !c.metadata.seeking
    &&& c.metadata.time == Time { minutes: 0, seconds: 0, when: now }
}

/// Speedrun flag after entering `stage`: the home stage of the first
/// kingdom starts a run, the home stage of the second one ends it.
pub open spec fn speedrun_after(stage: Seq<char>, was: bool) -> bool {
    if stage == "CapWorldHomeStage"@ {
        true
    } else if stage == "WaterfallWorldHomeStage"@ {
        false
    } else {
        was
    }
}

/// Identity, connection state, name and costume are those of `old`.
pub open spec fn same_identity(old: Client, new: Client) -> bool {
    &&& new.id == old.id
    &&& new.name == old.name
    &&& new.connected == old.connected
}

/// `new` is `old` after its player sent the `Game` packet `p`.
pub open spec fn game_applied(old: Client, new: Client, p: GameView) -> bool {
    &&& same_identity(old, new)
    &&& new.metadata.scenario == p.scenario_num
    &&& new.metadata.is_2d == p.is_2d
    &&& new.metadata.speedrun == speedrun_after(p.stage, old.metadata.speedrun)
    &&& new.metadata.last_game_packet matches Some(g) && g@ == p
    &&& new.current_costume == old.current_costume
    &&& new.metadata.shine_sync == old.metadata.shine_sync
    &&& new.metadata.loaded_save == old.metadata.loaded_save
    &&& new.metadata.seeking == old.metadata.seeking
    &&& new.metadata.time == old.metadata.time
}

/// `new` is `old` after its player sent the `Tag` packet `p`, received at `now`.
pub open spec fn tag_applied(old: Client, new: Client, p: TagPacket, now: i64) -> bool {
    &&& same_identity(old, new)
    &&& new.metadata.seeking == (if p.update_type == TagUpdate::State {
        p.is_it
    } else {
        old.metadata.seeking
    })
    &&& new.metadata.time == (if p.update_type == TagUpdate::Time {
        Time { minutes: p.minutes, seconds: p.seconds, when: now }
    } else {
        old.metadata.time
    })
    &&& new.current_costume == old.current_costume
    &&& new.metadata.shine_sync == old.metadata.shine_sync
    &&& new.metadata.loaded_save == old.metadata.loaded_save
    &&& new.metadata.scenario == old.metadata.scenario
    &&& new.metadata.is_2d == old.metadata.is_2d
    &&& new.metadata.speedrun == old.metadata.speedrun
    &&& new.metadata.last_game_packet == old.metadata.last_game_packet
}

/// `new` is `old` after its player sent the `Costume` packet `p`.
pub open spec fn costume_applied(old: Client, new: Client, p: CostumeView) -> bool {
    &&& same_identity(old, new)
    &&& new.metadata.loaded_save
    &&& new.current_costume matches Some(c) && c@ == p
    &&& new.metadata.shine_sync == old.metadata.shine_sync
    &&& new.metadata.scenario == old.metadata.scenario
    &&& new.metadata.is_2d == old.metadata.is_2d
    &&& new.metadata.speedrun == old.metadata.speedrun
    &&& new.metadata.last_game_packet == old.metadata.last_game_packet
    &&& new.metadata.seeking == old.metadata.seeking
    &&& new.metadata.time == old.metadata.time
}

impl Client {
    /// A fresh record with a random identity, stamped with the current time.
    pub fn new() -> (r: Client)
        ensures
            !r.connected,
            r.name@.len() == 0,
            nothing_reported(r, r.metadata.time.when),
            (r.id.value >> 76u128) & 0xf == 4,
            (r.id.value >> 62u128) & 0x3 == 2,
    {
        let id = new_session_id();
        let now = now_millis();
        Client::with_id(id, now)
    }

    /// A fresh record for `id`, its tag clock stamped `now`.
    pub fn with_id(id: SessionId, now: i64) -> (r: Client)
        ensures
            is_fresh(r, id, now),
    {
        Client {
            metadata: Metadata {
                shine_sync: Vec::new(),
                loaded_save: false,
                scenario: NO_SCENARIO,
                is_2d: false,
                speedrun: false,
                last_game_packet: None,
                seeking: false,
                time: Time { minutes: 0, seconds: 0, when: now },
            },
            connected: false,
            current_costume: None,
            name: String::new(),
            id,
        }
    }

    /// Two records are the same player when their ids are equal.
    pub fn eq(&self, other: &Client) -> (r: bool)
        ensures
            r == (self.id == other.id),
    {
        self.id == other.id
    }

    /// A `Game` packet from this player: remember where it is and the
    /// packet itself; entering the start or end stage of a speedrun sets or
    /// clears the speedrun flag.
    pub fn handle_game(&mut self, p: &GamePacket)
        ensures
            game_applied(*old(self), *final(self), p@),
    {
        self.metadata.scenario = p.scenario_num;
        self.metadata.is_2d = p.is_2d;
        self.metadata.last_game_packet = Some(p.copy());
        if same_text(p.stage.as_str(), "CapWorldHomeStage") {
            self.metadata.speedrun = true;
        } else if same_text(p.stage.as_str(), "WaterfallWorldHomeStage") {
            self.metadata.speedrun = false;
        }
    }

    /// A `Tag` packet from this player: a state update sets whether it is
    /// seeking; a time update stores the clock with its receipt time `now`.
    pub fn handle_tag(&mut self, p: &TagPacket, now: i64)
        ensures
            tag_applied(*old(self), *final(self), *p, now),
    {
        match p.update_type {
            TagUpdate::State => {
                self.metadata.seeking = p.is_it;
            },
            TagUpdate::Time => {
                self.metadata.time = Time { minutes: p.minutes, seconds: p.seconds, when: now };
            },
        }
    }

    /// A `Costume` packet from this player: it has loaded its save, and the
    /// costume is kept to show to players who join later.
    pub fn handle_costume(&mut self, p: &CostumePacket)
        ensures
            costume_applied(*old(self), *final(self), p@),
    {
        self.metadata.loaded_save = true;
        self.current_costume = Some(p.copy());
    }
}

} // verus!
