//! The 16-bit wire tags of the packet kinds.

use vstd::prelude::*;

verus! {

/// Kind of a packet, as carried in the header.
#[derive(Clone, Copy, PartialEq, Eq, Structural, Debug)]
pub enum PacketType {
    Unknown,
    Init,
    Player,
    Cap,
    Game,
    Tag,
    Connect,
    Disconnect,
    Costume,
    Shine,
    Capture,
    ChangeStage,
    Command,
}

impl PacketType {
    /// The wire tag of each kind.
    pub open spec fn spec_tag(self) -> u16 {
        match self {
            PacketType::Unknown => 0,
            PacketType::Init => 1,
            PacketType::Player => 2,
            PacketType::Cap => 3,
            PacketType::Game => 4,
            PacketType::Tag => 5,
            PacketType::Connect => 6,
            PacketType::Disconnect => 7,
            PacketType::Costume => 8,
            PacketType::Shine => 9,
            PacketType::Capture => 10,
            PacketType::ChangeStage => 11,
            PacketType::Command => 12,
        }
    }

    /// The kind a wire tag stands for; a tag nobody defined is `Unknown`.
    pub open spec fn spec_from_tag(v: u16) -> PacketType {
        if v == 1 {
            PacketType::Init
        } else if v == 2 {
            PacketType::Player
        } else if v == 3 {
            PacketType::Cap
        } else if v == 4 {
            PacketType::Game
        } else if v == 5 {
            PacketType::Tag
        } else if v == 6 {
            PacketType::Connect
        } else if v == 7 {
            PacketType::Disconnect
        } else if v == 8 {
            PacketType::Costume
        } else if v == 9 {
            PacketType::Shine
        } else if v == 10 {
            PacketType::Capture
        } else if v == 11 {
            PacketType::ChangeStage
        } else if v == 12 {
            PacketType::Command
        } else {
            PacketType::Unknown
        }
    }

    /// Payload size in bytes that each understood kind has on the wire.
    /// `Unknown` and `Command` have no schema here.
    pub open spec fn spec_wire_size(self) -> Option<nat> {
        match self {
            PacketType::Init => Some(2),
            PacketType::Player => Some(56),
            PacketType::Cap => Some(80),
            PacketType::Game => Some(66),
            PacketType::Tag => Some(6),
            PacketType::Connect => Some(38),
            PacketType::Disconnect => Some(0),
            PacketType::Costume => Some(64),
            PacketType::Shine => Some(4),
            PacketType::Capture => Some(32),
            PacketType::ChangeStage => Some(68),
            PacketType::Unknown => None,
            PacketType::Command => None,
        }
    }

    pub fn tag(self) -> (r: u16)
        ensures
            r == self.spec_tag(),
    {
        match self {
            PacketType::Unknown => 0,
            PacketType::Init => 1,
            PacketType::Player => 2,
            PacketType::Cap => 3,
            PacketType::Game => 4,
            PacketType::Tag => 5,
            PacketType::Connect => 6,
            PacketType::Disconnect => 7,
            PacketType::Costume => 8,
            PacketType::Shine => 9,
            PacketType::Capture => 10,
            PacketType::ChangeStage => 11,
            PacketType::Command => 12,
        }
    }

    pub fn from_tag(v: u16) -> (r: PacketType)
        ensures
            r == Self::spec_from_tag(v),
    {
        if v == 1 {
            PacketType::Init
        } else if v == 2 {
            PacketType::Player
        } else if v == 3 {
            PacketType::Cap
        } else if v == 4 {
            PacketType::Game
        } else if v == 5 {
            PacketType::Tag
        } else if v == 6 {
            PacketType::Connect
        } else if v == 7 {
            PacketType::Disconnect
        } else if v == 8 {
            PacketType::Costume
        } else if v == 9 {
            PacketType::Shine
        } else if v == 10 {
            PacketType::Capture
        } else if v == 11 {
            PacketType::ChangeStage
        } else if v == 12 {
            PacketType::Command
        } else {
            PacketType::Unknown
        }
    }

    /// Payload size of an understood kind, `None` for the others.
    pub fn wire_size(self) -> (r: Option<usize>)
        ensures
            r matches Some(n) ==> self.spec_wire_size() == Some(n as nat),
            r is None ==> self.spec_wire_size() is None,
    {
        match self {
            PacketType::Init => Some(2),
            PacketType::Player => Some(56),
            PacketType::Cap => Some(80),
            PacketType::Game => Some(66),
            PacketType::Tag => Some(6),
            PacketType::Connect => Some(38),
            PacketType::Disconnect => Some(0),
            PacketType::Costume => Some(64),
            PacketType::Shine => Some(4),
            PacketType::Capture => Some(32),
            PacketType::ChangeStage => Some(68),
            PacketType::Unknown => None,
            PacketType::Command => None,
        }
    }
}

/// Every kind survives the trip through its wire tag.
pub proof fn lemma_tag_round_trip(t: PacketType)
    ensures
        PacketType::spec_from_tag(t.spec_tag()) == t,
{
}

} // verus!
