//! The registry between a payload's logical name and its packet kind.

use crate::packet_type::PacketType;
use crate::text::same_text;
use vstd::prelude::*;

verus! {

/// Logical name of the payload schema of each kind.
pub open spec fn packet_name(t: PacketType) -> Seq<char> {
    match t {
        PacketType::Cap => "CapPacket"@,
        PacketType::Capture => "CapturePacket"@,
        PacketType::ChangeStage => "ChangeStagePacket"@,
        PacketType::Connect => "ConnectPacket"@,
        PacketType::Costume => "CostumePacket"@,
        PacketType::Disconnect => "DisconnectPacket"@,
        PacketType::Game => "GamePacket"@,
        PacketType::Init => "InitPacket"@,
        PacketType::Player => "PlayerPacket"@,
        PacketType::Shine => "ShinePacket"@,
        PacketType::Tag => "TagPacket"@,
        PacketType::Unknown => "UnhandledPacket"@,
        PacketType::Command => "UnhandledPacket"@,
    }
}

/// Kind named by a logical name; any other name is `Unknown`.
pub open spec fn packet_type_named(key: Seq<char>) -> PacketType {
    if key == "CapPacket"@ {
        PacketType::Cap
    } else if key == "CapturePacket"@ {
        PacketType::Capture
    } else if key == "ChangeStagePacket"@ {
        PacketType::ChangeStage
    } else if key == "ConnectPacket"@ {
        PacketType::Connect
    } else if key == "CostumePacket"@ {
        PacketType::Costume
    } else if key == "DisconnectPacket"@ {
        PacketType::Disconnect
    } else if key == "GamePacket"@ {
        PacketType::Game
    } else if key == "InitPacket"@ {
        PacketType::Init
    } else if key == "PlayerPacket"@ {
        PacketType::Player
    } else if key == "ShinePacket"@ {
        PacketType::Shine
    } else if key == "TagPacket"@ {
        PacketType::Tag
    } else {
        PacketType::Unknown
    }
}

/// Kind of the payload schema with the given logical name.
pub fn packet_to_type_map(key: &str) -> (r: PacketType)
    ensures
        r == packet_type_named(key@),
{
    if same_text(key, "CapPacket") {
        PacketType::Cap
    } else if same_text(key, "CapturePacket") {
        PacketType::Capture
    } else if same_text(key, "ChangeStagePacket") {
        PacketType::ChangeStage
    } else if same_text(key, "ConnectPacket") {
        PacketType::Connect
    } else if same_text(key, "CostumePacket") {
        PacketType::Costume
    } else if same_text(key, "DisconnectPacket") {
        PacketType::Disconnect
    } else if same_text(key, "GamePacket") {
        PacketType::Game
    } else if same_text(key, "InitPacket") {
        PacketType::Init
    } else if same_text(key, "PlayerPacket") {
        PacketType::Player
    } else if same_text(key, "ShinePacket") {
        PacketType::Shine
    } else if same_text(key, "TagPacket") {
        PacketType::Tag
    } else {
        PacketType::Unknown
    }
}

/// Logical name of the payload schema of a kind.
pub fn type_to_packet_map(key: PacketType) -> (r: &'static str)
    ensures
        r@ == packet_name(key),
{
    match key {
        PacketType::Cap => "CapPacket",
        PacketType::Capture => "CapturePacket",
        PacketType::ChangeStage => "ChangeStagePacket",
        PacketType::Connect => "ConnectPacket",
        PacketType::Costume => "CostumePacket",
        PacketType::Disconnect => "DisconnectPacket",
        PacketType::Game => "GamePacket",
        PacketType::Init => "InitPacket",
        PacketType::Player => "PlayerPacket",
        PacketType::Shine => "ShinePacket",
        PacketType::Tag => "TagPacket",
        PacketType::Unknown => "UnhandledPacket",
        PacketType::Command => "UnhandledPacket",
    }
}

/// The two maps are inverse on every kind but `Command`, which has no
/// schema of its own and is named like an unhandled packet.
pub proof fn lemma_name_round_trip(t: PacketType)
    ensures
        t != PacketType::Command ==> packet_type_named(packet_name(t)) == t,
        t == PacketType::Command ==> packet_type_named(packet_name(t)) == PacketType::Unknown,
{
    reveal_strlit("CapPacket");
    reveal_strlit("CapturePacket");
    reveal_strlit("ChangeStagePacket");
    reveal_strlit("ConnectPacket");
    reveal_strlit("CostumePacket");
    reveal_strlit("DisconnectPacket");
    reveal_strlit("GamePacket");
    reveal_strlit("InitPacket");
    reveal_strlit("PlayerPacket");
    reveal_strlit("ShinePacket");
    reveal_strlit("TagPacket");
    reveal_strlit("UnhandledPacket");
    assert("CapPacket"@.len() == 9);
    assert("CapturePacket"@.len() == 13);
    assert("ChangeStagePacket"@.len() == 17);
    assert("ConnectPacket"@.len() == 13);
    assert("CostumePacket"@.len() == 13);
    assert("DisconnectPacket"@.len() == 16);
    assert("GamePacket"@.len() == 10);
    assert("InitPacket"@.len() == 10);
    assert("PlayerPacket"@.len() == 12);
    assert("ShinePacket"@.len() == 11);
    assert("TagPacket"@.len() == 9);
    assert("UnhandledPacket"@.len() == 15);
    assert("CapPacket"@[0] != "TagPacket"@[0]);
    assert("CapturePacket"@[2] != "ConnectPacket"@[2]);
    assert("CapturePacket"@[2] != "CostumePacket"@[2]);
    assert("ConnectPacket"@[2] != "CostumePacket"@[2]);
    assert("GamePacket"@[0] != "InitPacket"@[0]);
}

} // verus!
