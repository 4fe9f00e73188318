//! The relay's configuration, as handed in by whoever loads it.

use crate::header::SessionId;
use vstd::prelude::*;

verus! {

/// Player count the relay announces and admits by default.
pub const MAX_PLAYERS: u16 = 8;

pub struct Settings {
    pub server: ServerTable,
    pub scenario: ScenarioTable,
    pub banned_players: BannedPlayers,
    pub flip: FlipTable,
    pub discord: DiscordTable,
    pub shine: ShineTable,
    pub persist_shines: PersistShinesTable,
}

/// Whose view flip mode mirrors: the flipped player's own, the others', or both.
#[derive(Clone, Copy, PartialEq, Eq, Structural, Debug)]
pub enum FlipOptions {
    BothOption,
    SelfOption,
    OthersOption,
}

pub struct ServerTable {
    pub address: String,
    pub port: u16,
    pub max_players: u16,
    /// Whether frames of kinds the relay does not interpret are forwarded
    /// byte for byte; off unless asked for, since those bytes are unchecked.
    pub relay_unhandled: bool,
}

pub struct ScenarioTable {
    pub merge_enabled: bool,
}

pub struct BannedPlayers {
    pub enabled: bool,
    pub players: Vec<SessionId>,
    pub ip_addresses: Vec<String>,
}

pub struct FlipTable {
    pub enabled: bool,
    pub players: Vec<SessionId>,
    pub pov: FlipOptions,
}

pub struct DiscordTable {
    pub token: Option<String>,
    pub prefix: String,
    pub command_channel: Option<String>,
    pub log_channel: Option<String>,
}

pub struct ShineTable {
    pub enabled: bool,
}

pub struct PersistShinesTable {
    pub enabled: bool,
    pub file_name: String,
}

impl Settings {
    /// The configuration used when nothing else is given.
    pub fn defaults() -> (r: Settings)
        ensures
            r.server.address@ == "0.0.0.0"@,
            r.server.port == 1027,
            r.server.max_players == MAX_PLAYERS,
            !r.server.relay_unhandled,
            !r.scenario.merge_enabled,
            !r.banned_players.enabled,
            r.banned_players.players@.len() == 0,
            r.banned_players.ip_addresses@.len() == 0,
            !r.flip.enabled,
            r.flip.players@.len() == 0,
            r.flip.pov == FlipOptions::BothOption,
            r.discord.token is None,
            r.discord.prefix@ == "$"@,
            r.discord.command_channel is None,
            r.discord.log_channel is None,
            r.shine.enabled,
            r.persist_shines.enabled,
            r.persist_shines.file_name@ == "./moons.json"@,
    {
        Settings {
            server: ServerTable {
                address: "0.0.0.0".to_owned(),
                port: 1027,
                max_players: MAX_PLAYERS,
                relay_unhandled: false,
            },
            scenario: ScenarioTable { merge_enabled: false },
            banned_players: BannedPlayers {
                enabled: false,
                players: Vec::new(),
                ip_addresses: Vec::new(),
            },
            flip: FlipTable { enabled: false, players: Vec::new(), pov: FlipOptions::BothOption },
            discord: DiscordTable {
                token: None,
                prefix: "$".to_owned(),
                command_channel: None,
                log_channel: None,
            },
            shine: ShineTable { enabled: true },
            persist_shines: PersistShinesTable {
                enabled: true,
                file_name: "./moons.json".to_owned(),
            },
        }
    }
}

/// Whether `id` is listed.
pub fn contains_id(ids: &Vec<SessionId>, id: SessionId) -> (r: bool)
    ensures
        r == ids@.contains(id),
{
    let mut i: usize = 0;
    while i < ids.len()
        invariant
            i <= ids@.len(),
            forall|j: int| 0 <= j < i ==> ids@[j] != id,
        decreases ids@.len() - i,
    {
        if ids[i] == id {
            assert(ids@[i as int] == id);
            return true;
        }
        i = i + 1;
    }
    false
}

} // verus!
