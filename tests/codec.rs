use smo_relay::constants::{packet_to_type_map, type_to_packet_map};
use smo_relay::header::{PacketHeader, SessionId};
use smo_relay::motion::{mario_size, CapPacket, PlayerPacket, Quaternion, Vector3};
use smo_relay::packet_type::PacketType;
use smo_relay::packets::{
    CapturePacket, ChangeStagePacket, ConnectPacket, ConnectionTypes, CostumePacket, GamePacket,
    InitPacket, ShinePacket, TagPacket, TagUpdate,
};
use smo_relay::payload::{build_frame, split_frame, FrameError, Payload};
use smo_relay::settings::{FlipOptions, Settings, MAX_PLAYERS};
use smo_relay::text::read_text;

fn frame(id: u128, t: PacketType, size: i16, body: &[u8]) -> Vec<u8> {
    let mut out = PacketHeader { id: SessionId { value: id }, packet_type: t, packet_size: size }
        .serialize();
    out.extend_from_slice(body);
    out
}

#[test]
fn init_round_trip_and_layout() {
    let p = InitPacket { max_players: 0x0102 };
    let b = p.serialize();
    assert_eq!(b, vec![0x02, 0x01]);
    assert_eq!(InitPacket::deserialize(&b), p);
}

#[test]
fn shine_round_trip_and_layout() {
    let p = ShinePacket { shine_id: 0xA1B2C3D4 };
    let b = p.serialize();
    assert_eq!(b, vec![0xD4, 0xC3, 0xB2, 0xA1]);
    assert_eq!(ShinePacket::deserialize(&b), p);
}

#[test]
fn connect_round_trip_both_modes() {
    for mode in [ConnectionTypes::FirstConnection, ConnectionTypes::Reconnecting] {
        let p = ConnectPacket { connection_type: mode, max_players: 8, client_name: "Alice".to_string() };
        let b = p.serialize();
        assert_eq!(b.len(), ConnectPacket::SIZE);
        let q = ConnectPacket::deserialize(&b);
        assert_eq!(q.connection_type, mode);
        assert_eq!(q.max_players, 8);
        assert_eq!(q.client_name, "Alice");
    }
}

#[test]
fn connect_code_layout() {
    let p = ConnectPacket {
        connection_type: ConnectionTypes::Reconnecting,
        max_players: 3,
        client_name: String::new(),
    };
    let b = p.serialize();
    assert_eq!(&b[0..6], &[1, 0, 0, 0, 3, 0]);
    assert!(b[6..].iter().all(|x| *x == 0));
}

#[test]
fn connect_name_at_capacity_and_empty() {
    let full = "abcdefghijklmnopqrstuvwxyz012345";
    assert_eq!(full.len(), 32);
    let p = ConnectPacket {
        connection_type: ConnectionTypes::FirstConnection,
        max_players: 1,
        client_name: full.to_string(),
    };
    assert_eq!(ConnectPacket::deserialize(&p.serialize()).client_name, full);
    let e = ConnectPacket {
        connection_type: ConnectionTypes::FirstConnection,
        max_players: 1,
        client_name: String::new(),
    };
    assert_eq!(ConnectPacket::deserialize(&e.serialize()).client_name, "");
}

#[test]
fn overlong_name_is_cut_to_the_field() {
    let long = "abcdefghijklmnopqrstuvwxyz0123456789";
    let p = ConnectPacket {
        connection_type: ConnectionTypes::FirstConnection,
        max_players: 1,
        client_name: long.to_string(),
    };
    let b = p.serialize();
    assert_eq!(b.len(), ConnectPacket::SIZE);
    assert_eq!(ConnectPacket::deserialize(&b).client_name, &long[..32]);
}

#[test]
fn text_stops_at_nul() {
    let data = [b'h', b'i', 0, b'x', b'y'];
    assert_eq!(read_text(&data, 0, 5), "hi");
}

#[test]
fn text_cut_inside_a_character_keeps_the_valid_prefix() {
    // "aé" is 61 C3 A9; a field of two bytes ends inside the é.
    let data = [0x61, 0xC3, 0xA9];
    assert_eq!(read_text(&data, 0, 2), "a");
    assert_eq!(read_text(&data, 0, 3), "aé");
}

#[test]
fn text_with_invalid_bytes_keeps_the_valid_prefix() {
    let data = [b'o', b'k', 0xFF, b'z'];
    assert_eq!(read_text(&data, 0, 4), "ok");
}

#[test]
fn multibyte_name_round_trip() {
    let p = CostumePacket { body_name: "Mario☆".to_string(), cap_name: "Ça".to_string() };
    let q = CostumePacket::deserialize(&p.serialize());
    assert_eq!(q.body_name, "Mario☆");
    assert_eq!(q.cap_name, "Ça");
}

#[test]
fn game_round_trip() {
    let p = GamePacket { is_2d: true, scenario_num: 255, stage: "CapWorldHomeStage".to_string() };
    let b = p.serialize();
    assert_eq!(b.len(), GamePacket::SIZE);
    assert_eq!(b[0], 1);
    assert_eq!(b[1], 255);
    let q = GamePacket::deserialize(&b);
    assert!(q.is_2d);
    assert_eq!(q.scenario_num, 255);
    assert_eq!(q.stage, "CapWorldHomeStage");
}

#[test]
fn nonzero_byte_reads_as_true() {
    let mut b = GamePacket { is_2d: false, scenario_num: 0, stage: String::new() }.serialize();
    b[0] = 7;
    assert!(GamePacket::deserialize(&b).is_2d);
}

#[test]
fn tag_round_trip_both_updates() {
    for u in [TagUpdate::Time, TagUpdate::State] {
        let p = TagPacket { update_type: u, is_it: true, seconds: 30, minutes: 0xFFFF };
        let b = p.serialize();
        assert_eq!(b.len(), TagPacket::SIZE);
        assert_eq!(TagPacket::deserialize(&b), p);
    }
    let b = TagPacket { update_type: TagUpdate::State, is_it: false, seconds: 1, minutes: 2 }
        .serialize();
    assert_eq!(b, vec![2, 0, 1, 0, 2, 0]);
}

#[test]
fn capture_round_trip() {
    let p = CapturePacket { module_name: "Kuribo".to_string() };
    assert_eq!(CapturePacket::deserialize(&p.serialize()).module_name, "Kuribo");
}

#[test]
fn change_stage_round_trip_negative_scenario() {
    let p = ChangeStagePacket {
        stage: "SandWorldHomeStage".to_string(),
        id: "entrance".to_string(),
        scenario: -1,
        sub_scenario_type: 4,
    };
    let b = p.serialize();
    assert_eq!(b.len(), ChangeStagePacket::SIZE);
    assert_eq!(b[64], 0xFF);
    let q = ChangeStagePacket::deserialize(&b);
    assert_eq!(q.stage, "SandWorldHomeStage");
    assert_eq!(q.id, "entrance");
    assert_eq!(q.scenario, -1);
    assert_eq!(q.sub_scenario_type, 4);
}

fn sample_player() -> PlayerPacket {
    PlayerPacket {
        position: Vector3 { x: 1.5f32.to_bits(), y: (-2.25f32).to_bits(), z: 100.0f32.to_bits() },
        rotation: Quaternion {
            w: 1.0f32.to_bits(),
            i: 0.5f32.to_bits(),
            j: (-0.5f32).to_bits(),
            k: 0.25f32.to_bits(),
        },
        animation_blend_weights: [1, 2, 3, 4, 5, f32::NAN.to_bits()],
        act: 7,
        sub_act: 0xBEEF,
    }
}

#[test]
fn player_round_trip() {
    let p = sample_player();
    let b = p.serialize();
    assert_eq!(b.len(), PlayerPacket::SIZE);
    assert_eq!(&b[0..4], &1.5f32.to_le_bytes());
    let q = PlayerPacket::deserialize(&b);
    assert_eq!(q.position, p.position);
    assert_eq!(q.rotation, p.rotation);
    assert_eq!(q.animation_blend_weights, p.animation_blend_weights);
    assert_eq!(q.act, 7);
    assert_eq!(q.sub_act, 0xBEEF);
}

#[test]
fn cap_round_trip() {
    let p = CapPacket {
        position: Vector3 { x: 3, y: 4, z: 5 },
        rotation: Quaternion { w: 6, i: 7, j: 8, k: 9 },
        cap_out: true,
        cap_animation: "StayR".to_string(),
    };
    let b = p.serialize();
    assert_eq!(b.len(), CapPacket::SIZE);
    let q = CapPacket::deserialize(&b);
    assert_eq!(q.position, p.position);
    assert_eq!(q.rotation, p.rotation);
    assert!(q.cap_out);
    assert_eq!(q.cap_animation, "StayR");
}

#[test]
fn mirror_sets_height_and_turns_rotation() {
    let mut p = sample_player();
    p.mirror(false);
    assert_eq!(f32::from_bits(p.position.y), 160.0);
    assert_eq!(f32::from_bits(p.position.x), 0.0);
    assert_eq!(f32::from_bits(p.position.z), 0.0);
    // (w, i, j, k) * k = (-k, j, -i, w)
    assert_eq!(f32::from_bits(p.rotation.w), -0.25);
    assert_eq!(f32::from_bits(p.rotation.i), -0.5);
    assert_eq!(f32::from_bits(p.rotation.j), -0.5);
    assert_eq!(f32::from_bits(p.rotation.k), 1.0);
    p.mirror(true);
    assert_eq!(f32::from_bits(p.position.y), 180.0);
    assert_eq!(f32::from_bits(mario_size(true)), 180.0);
    assert_eq!(f32::from_bits(mario_size(false)), 160.0);
}

#[test]
fn mirror_twice_negates_and_four_times_restores() {
    let orig = sample_player();
    let mut p = orig;
    p.mirror(false);
    p.mirror(true);
    assert_eq!(f32::from_bits(p.rotation.w), -1.0);
    assert_eq!(f32::from_bits(p.rotation.i), -0.5);
    assert_eq!(f32::from_bits(p.rotation.j), 0.5);
    assert_eq!(f32::from_bits(p.rotation.k), -0.25);
    p.mirror(false);
    p.mirror(false);
    assert_eq!(p.rotation, orig.rotation);
    assert_eq!(p.animation_blend_weights, orig.animation_blend_weights);
}

#[test]
fn header_layout_and_round_trip() {
    let h = PacketHeader {
        id: SessionId { value: 0x00112233_44556677_8899AABB_CCDDEEFF },
        packet_type: PacketType::Game,
        packet_size: 66,
    };
    let b = h.serialize();
    assert_eq!(b.len(), 20);
    assert_eq!(b[0], 0x00);
    assert_eq!(b[15], 0xFF);
    assert_eq!(&b[16..20], &[4, 0, 66, 0]);
    let g = PacketHeader::deserialize(&b);
    assert_eq!(g.id, h.id);
    assert_eq!(g.packet_type, PacketType::Game);
    assert_eq!(g.packet_size, 66);
}

#[test]
fn header_negative_size_round_trip() {
    let h = PacketHeader { id: SessionId { value: 1 }, packet_type: PacketType::Unknown, packet_size: -5 };
    let g = PacketHeader::deserialize(&h.serialize());
    assert_eq!(g.packet_size, -5);
}

#[test]
fn frame_keeps_every_payload_byte_for_all_sizes() {
    for s in 0..=80usize {
        let body: Vec<u8> = (0..s).map(|i| (i * 7 + 1) as u8).collect();
        let data = frame(9, PacketType::Unknown, s as i16, &body);
        let (h, p) = split_frame(&data).ok().unwrap();
        assert_eq!(h.packet_size as usize, s);
        assert_eq!(p, body);
    }
}

#[test]
fn frame_errors() {
    assert_eq!(split_frame(&[0u8; 19]).err(), Some(FrameError::ShortHeader));
    assert_eq!(split_frame(&frame(1, PacketType::Unknown, 2000, &[])).err(), Some(FrameError::Oversize));
    assert_eq!(split_frame(&frame(1, PacketType::Unknown, -1, &[])).err(), Some(FrameError::NegativeSize));
    assert_eq!(split_frame(&frame(1, PacketType::Shine, 3, &[0; 3])).err(), Some(FrameError::SizeMismatch));
    assert_eq!(split_frame(&frame(1, PacketType::Shine, 4, &[0; 2])).err(), Some(FrameError::ShortPayload));
    assert!(split_frame(&frame(1, PacketType::Unknown, 1004, &[0; 1004])).is_ok());
    assert_eq!(split_frame(&frame(1, PacketType::Unknown, 1005, &[0; 1005])).err(), Some(FrameError::Oversize));
}

#[test]
fn build_frame_stamps_sender_type_and_size() {
    let p = Payload::Shine(ShinePacket { shine_id: 5 });
    let f = build_frame(SessionId { value: 77 }, &p);
    assert_eq!(f.len(), 24);
    let h = PacketHeader::deserialize(&f);
    assert_eq!(h.id, SessionId { value: 77 });
    assert_eq!(h.packet_type, PacketType::Shine);
    assert_eq!(h.packet_size, 4);
    assert_eq!(&f[20..], &[5, 0, 0, 0]);
}

#[test]
fn payload_copy_is_equal() {
    let p = Payload::Game(GamePacket { is_2d: false, scenario_num: 3, stage: "X".to_string() });
    match p.copy() {
        Payload::Game(g) => {
            assert_eq!(g.scenario_num, 3);
            assert_eq!(g.stage, "X");
        }
        _ => panic!("wrong kind"),
    }
    assert_eq!(p.get_name(), "GamePacket");
    assert_eq!(p.get_size(), 66);
}

#[test]
fn tags_round_trip() {
    for v in 0u16..=12 {
        assert_eq!(PacketType::from_tag(v).tag(), v);
    }
    assert_eq!(PacketType::from_tag(13), PacketType::Unknown);
    assert_eq!(PacketType::from_tag(0xFFFF), PacketType::Unknown);
    assert_eq!(PacketType::Player.tag(), 2);
}

#[test]
fn name_maps() {
    assert_eq!(packet_to_type_map("CapPacket"), PacketType::Cap);
    assert_eq!(packet_to_type_map("TagPacket"), PacketType::Tag);
    assert_eq!(packet_to_type_map("UnhandledPacket"), PacketType::Unknown);
    assert_eq!(packet_to_type_map("NoSuchPacket"), PacketType::Unknown);
    assert_eq!(type_to_packet_map(PacketType::ChangeStage), "ChangeStagePacket");
    assert_eq!(type_to_packet_map(PacketType::Command), "UnhandledPacket");
    for t in [
        PacketType::Init,
        PacketType::Player,
        PacketType::Cap,
        PacketType::Game,
        PacketType::Tag,
        PacketType::Connect,
        PacketType::Disconnect,
        PacketType::Costume,
        PacketType::Shine,
        PacketType::Capture,
        PacketType::ChangeStage,
        PacketType::Unknown,
    ] {
        assert_eq!(packet_to_type_map(type_to_packet_map(t)), t);
    }
}

#[test]
fn settings_defaults() {
    let s = Settings::defaults();
    assert_eq!(s.server.address, "0.0.0.0");
    assert_eq!(s.server.port, 1027);
    assert_eq!(s.server.max_players, MAX_PLAYERS);
    assert!(!s.server.relay_unhandled);
    assert!(!s.scenario.merge_enabled);
    assert!(!s.flip.enabled);
    assert_eq!(s.flip.pov, FlipOptions::BothOption);
    assert_eq!(s.discord.prefix, "$");
    assert!(s.shine.enabled);
    assert_eq!(s.persist_shines.file_name, "./moons.json");
}
