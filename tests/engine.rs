use smo_relay::client::{current_time, Client, Time, NO_SCENARIO};
use smo_relay::header::{PacketHeader, SessionId};
use smo_relay::motion::{PlayerPacket, Quaternion, Vector3};
use smo_relay::packet_type::PacketType;
use smo_relay::packets::{
    ConnectPacket, ConnectionTypes, CostumePacket, GamePacket, ShinePacket, TagPacket, TagUpdate,
};
use smo_relay::payload::{build_frame, Payload};
use smo_relay::server::{ConnState, HandshakeError, Outgoing, Server};
use smo_relay::settings::{FlipOptions, Settings};

const X: SessionId = SessionId { value: 0x11 };
const Y: SessionId = SessionId { value: 0x22 };
const Z: SessionId = SessionId { value: 0x33 };

fn connect_frame(id: SessionId, mode: ConnectionTypes, name: &str) -> Vec<u8> {
    let p = Payload::Connect(ConnectPacket {
        connection_type: mode,
        max_players: 8,
        client_name: name.to_string(),
    });
    build_frame(id, &p)
}

fn join(server: &mut Server, id: SessionId, name: &str) -> Vec<Outgoing> {
    let step = server.handle_request(
        ConnState::AwaitingHandshake,
        &connect_frame(id, ConnectionTypes::FirstConnection, name),
        1000,
    );
    assert_eq!(step.state, ConnState::Active(id));
    assert!(!step.close);
    step.sends
}

fn decode_connect(bytes: &[u8]) -> (PacketHeader, ConnectPacket) {
    let h = PacketHeader::deserialize(bytes);
    assert_eq!(h.packet_type, PacketType::Connect);
    (h, ConnectPacket::deserialize(&bytes[20..]))
}

fn entry<'a>(server: &'a Server, id: SessionId) -> &'a Client {
    &server.clients[server.find_by_session(id).unwrap()]
}

#[test]
fn first_connection_registers_alice_then_both_are_introduced() {
    let mut s = Server::new(Settings::defaults());
    let sends = join(&mut s, X, "Alice");
    assert!(sends.is_empty());
    assert_eq!(s.clients.len(), 1);
    assert_eq!(s.connected_count(), 1);
    assert_eq!(s.clients[0].name, "Alice");
    assert!(s.clients[0].connected);

    let sends = join(&mut s, Y, "Bob");
    assert_eq!(sends.len(), 2);
    // X is told about Bob, under Bob's id.
    assert_eq!(sends[0].to, X);
    let (h, c) = decode_connect(&sends[0].bytes);
    assert_eq!(h.id, Y);
    assert_eq!(c.client_name, "Bob");
    // Bob is told about Alice, under Alice's id.
    assert_eq!(sends[1].to, Y);
    let (h, c) = decode_connect(&sends[1].bytes);
    assert_eq!(h.id, X);
    assert_eq!(c.client_name, "Alice");
    assert_eq!(c.connection_type, ConnectionTypes::FirstConnection);
}

#[test]
fn repeated_handshakes_keep_one_active_entry() {
    let mut s = Server::new(Settings::defaults());
    join(&mut s, X, "Alice");
    join(&mut s, X, "Alice2");
    let step = s.handle_request(
        ConnState::AwaitingHandshake,
        &connect_frame(X, ConnectionTypes::Reconnecting, "Alice3"),
        5,
    );
    assert_eq!(step.state, ConnState::Active(X));
    assert_eq!(s.clients.len(), 1);
    assert_eq!(s.connected_count(), 1);
    assert_eq!(s.clients[0].name, "Alice3");
}

#[test]
fn reconnecting_adopts_the_old_record() {
    let mut s = Server::new(Settings::defaults());
    join(&mut s, X, "Alice");
    let g = Payload::Game(GamePacket { is_2d: true, scenario_num: 4, stage: "S".to_string() });
    s.handle_request(ConnState::Active(X), &build_frame(X, &g), 2);
    s.connection_lost(ConnState::Active(X));
    assert!(!s.clients[0].connected);
    let step = s.handle_request(
        ConnState::AwaitingHandshake,
        &connect_frame(X, ConnectionTypes::Reconnecting, "Alice"),
        3,
    );
    assert_eq!(step.state, ConnState::Active(X));
    assert!(step.sends.is_empty());
    assert!(s.clients[0].connected);
    assert_eq!(s.clients[0].metadata.scenario, 4);
    assert!(s.clients[0].metadata.is_2d);
}

#[test]
fn first_connection_over_a_live_entry_starts_fresh() {
    let mut s = Server::new(Settings::defaults());
    join(&mut s, X, "Alice");
    let g = Payload::Game(GamePacket { is_2d: true, scenario_num: 4, stage: "S".to_string() });
    s.handle_request(ConnState::Active(X), &build_frame(X, &g), 2);
    join(&mut s, X, "Alice");
    assert_eq!(s.clients.len(), 1);
    assert_eq!(s.clients[0].metadata.scenario, NO_SCENARIO);
    assert!(!s.clients[0].metadata.is_2d);
}

#[test]
fn first_frame_must_be_connect() {
    let mut s = Server::new(Settings::defaults());
    let f = build_frame(X, &Payload::Shine(ShinePacket { shine_id: 1 }));
    let step = s.handle_request(ConnState::AwaitingHandshake, &f, 0);
    assert_eq!(step.state, ConnState::Closed);
    assert!(step.close);
    assert!(s.clients.is_empty());
}

#[test]
fn full_server_refuses_handshake() {
    let mut settings = Settings::defaults();
    settings.server.max_players = 1;
    let mut s = Server::new(settings);
    join(&mut s, X, "Alice");
    let step = s.handle_request(
        ConnState::AwaitingHandshake,
        &connect_frame(Y, ConnectionTypes::FirstConnection, "Bob"),
        0,
    );
    assert_eq!(step.state, ConnState::Closed);
    assert!(step.close);
    assert_eq!(s.clients.len(), 1);
    let h = PacketHeader { id: Y, packet_type: PacketType::Connect, packet_size: 38 };
    let c = ConnectPacket {
        connection_type: ConnectionTypes::FirstConnection,
        max_players: 8,
        client_name: "Bob".to_string(),
    };
    assert_eq!(s.handshake(&h, &c, 0).err(), Some(HandshakeError::ServerFull));
    let h = PacketHeader { id: Y, packet_type: PacketType::Game, packet_size: 38 };
    assert_eq!(s.handshake(&h, &c, 0).err(), Some(HandshakeError::NotConnect));
}

#[test]
fn broadcast_never_reaches_the_sender() {
    let mut s = Server::new(Settings::defaults());
    join(&mut s, X, "A");
    join(&mut s, Y, "B");
    join(&mut s, Z, "C");
    let p = Payload::Shine(ShinePacket { shine_id: 9 });
    let out = s.broadcast(Y, &p);
    assert_eq!(out.len(), 2);
    assert!(out.iter().all(|o| o.to != Y));
    assert_eq!(out[0].to, X);
    assert_eq!(out[1].to, Z);
    let alone = Server::new(Settings::defaults());
    assert!(alone.broadcast(Y, &p).is_empty());
}

#[test]
fn disconnected_clients_get_nothing() {
    let mut s = Server::new(Settings::defaults());
    join(&mut s, X, "A");
    join(&mut s, Y, "B");
    join(&mut s, Z, "C");
    s.mark_disconnected(Z);
    let out = s.broadcast(X, &Payload::Shine(ShinePacket { shine_id: 1 }));
    assert_eq!(out.len(), 1);
    assert_eq!(out[0].to, Y);
}

#[test]
fn active_packet_is_relayed_with_senders_header() {
    let mut s = Server::new(Settings::defaults());
    join(&mut s, X, "A");
    join(&mut s, Y, "B");
    let f = build_frame(X, &Payload::Shine(ShinePacket { shine_id: 42 }));
    let step = s.handle_request(ConnState::Active(X), &f, 0);
    assert_eq!(step.state, ConnState::Active(X));
    assert_eq!(step.sends.len(), 1);
    assert_eq!(step.sends[0].to, Y);
    assert_eq!(step.sends[0].bytes, f);
}

#[test]
fn tag_time_update_stores_clock_and_keeps_seeking() {
    let mut s = Server::new(Settings::defaults());
    join(&mut s, X, "A");
    let t = Payload::Tag(TagPacket { update_type: TagUpdate::State, is_it: true, seconds: 0, minutes: 0 });
    s.handle_request(ConnState::Active(X), &build_frame(X, &t), 10);
    assert!(entry(&s, X).metadata.seeking);
    let t = Payload::Tag(TagPacket { update_type: TagUpdate::Time, is_it: false, seconds: 30, minutes: 5 });
    s.handle_request(ConnState::Active(X), &build_frame(X, &t), 12345);
    assert_eq!(entry(&s, X).metadata.time, Time { minutes: 5, seconds: 30, when: 12345 });
    assert!(entry(&s, X).metadata.seeking);
}

#[test]
fn client_tag_handler() {
    let mut c = Client::with_id(X, 0);
    c.handle_tag(&TagPacket { update_type: TagUpdate::Time, is_it: true, seconds: 30, minutes: 5 }, 99);
    assert_eq!(c.metadata.time, Time { minutes: 5, seconds: 30, when: 99 });
    assert!(!c.metadata.seeking);
}

#[test]
fn game_packet_updates_record_and_speedrun() {
    let mut c = Client::with_id(X, 0);
    c.handle_game(&GamePacket { is_2d: true, scenario_num: 2, stage: "CapWorldHomeStage".to_string() });
    assert!(c.metadata.speedrun);
    assert_eq!(c.metadata.scenario, 2);
    assert!(c.metadata.is_2d);
    assert_eq!(c.metadata.last_game_packet.as_ref().unwrap().stage, "CapWorldHomeStage");
    c.handle_game(&GamePacket { is_2d: false, scenario_num: 3, stage: "Other".to_string() });
    assert!(c.metadata.speedrun);
    c.handle_game(&GamePacket { is_2d: false, scenario_num: 3, stage: "WaterfallWorldHomeStage".to_string() });
    assert!(!c.metadata.speedrun);
}

#[test]
fn costume_is_kept_and_relayed() {
    let mut s = Server::new(Settings::defaults());
    join(&mut s, X, "A");
    join(&mut s, Y, "B");
    let p = Payload::Costume(CostumePacket { body_name: "Mario".to_string(), cap_name: "Cap".to_string() });
    let step = s.handle_request(ConnState::Active(X), &build_frame(X, &p), 0);
    assert_eq!(step.sends.len(), 1);
    let e = entry(&s, X);
    assert!(e.metadata.loaded_save);
    assert_eq!(e.current_costume.as_ref().unwrap().body_name, "Mario");
}

#[test]
fn scenario_merge_gives_each_recipient_its_own_scenario() {
    let mut settings = Settings::defaults();
    settings.scenario.merge_enabled = true;
    let mut s = Server::new(settings);
    join(&mut s, X, "A");
    join(&mut s, Y, "B");
    join(&mut s, Z, "C");
    for (id, sc) in [(Y, 7u8), (Z, 9u8)] {
        let g = Payload::Game(GamePacket { is_2d: false, scenario_num: sc, stage: "S".to_string() });
        s.handle_request(ConnState::Active(id), &build_frame(id, &g), 0);
    }
    let g = Payload::Game(GamePacket { is_2d: false, scenario_num: 1, stage: "S".to_string() });
    let step = s.handle_request(ConnState::Active(X), &build_frame(X, &g), 0);
    assert_eq!(step.sends.len(), 2);
    for o in &step.sends {
        let h = PacketHeader::deserialize(&o.bytes);
        assert_eq!(h.id, X);
        let got = GamePacket::deserialize(&o.bytes[20..]);
        let want = if o.to == Y { 7 } else { 9 };
        assert_eq!(got.scenario_num, want);
        assert_eq!(got.stage, "S");
    }
    assert_eq!(entry(&s, X).metadata.scenario, 1);
}

fn player() -> PlayerPacket {
    PlayerPacket {
        position: Vector3 { x: 1.0f32.to_bits(), y: 2.0f32.to_bits(), z: 3.0f32.to_bits() },
        rotation: Quaternion { w: 1.0f32.to_bits(), i: 0, j: 0, k: 0 },
        animation_blend_weights: [0; 6],
        act: 1,
        sub_act: 2,
    }
}

#[test]
fn flip_self_mirrors_for_everyone() {
    let mut settings = Settings::defaults();
    settings.flip.enabled = true;
    settings.flip.pov = FlipOptions::SelfOption;
    settings.flip.players = vec![X];
    let mut s = Server::new(settings);
    join(&mut s, X, "A");
    join(&mut s, Y, "B");
    let step = s.handle_request(ConnState::Active(X), &build_frame(X, &Payload::Player(player())), 0);
    assert_eq!(step.sends.len(), 1);
    let got = PlayerPacket::deserialize(&step.sends[0].bytes[20..]);
    assert_eq!(f32::from_bits(got.position.y), 160.0);
    assert_eq!(f32::from_bits(got.rotation.k), 1.0);
}

#[test]
fn flip_others_mirrors_only_for_flip_set() {
    let mut settings = Settings::defaults();
    settings.flip.enabled = true;
    settings.flip.pov = FlipOptions::OthersOption;
    settings.flip.players = vec![X, Z];
    let mut s = Server::new(settings);
    join(&mut s, X, "A");
    join(&mut s, Y, "B");
    join(&mut s, Z, "C");
    let step = s.handle_request(ConnState::Active(X), &build_frame(X, &Payload::Player(player())), 0);
    assert_eq!(step.sends.len(), 2);
    for o in &step.sends {
        let got = PlayerPacket::deserialize(&o.bytes[20..]);
        if o.to == Z {
            assert_eq!(f32::from_bits(got.position.y), 160.0);
        } else {
            assert_eq!(o.to, Y);
            assert_eq!(got.position, player().position);
            assert_eq!(got.rotation, player().rotation);
        }
    }
}

#[test]
fn oversized_frame_closes_only_that_connection() {
    let mut s = Server::new(Settings::defaults());
    join(&mut s, X, "A");
    join(&mut s, Y, "B");
    let mut bad = PacketHeader { id: X, packet_type: PacketType::Unknown, packet_size: 2000 }.serialize();
    bad.extend_from_slice(&[0u8; 100]);
    let step = s.handle_request(ConnState::Active(X), &bad, 0);
    assert_eq!(step.state, ConnState::Closed);
    assert!(step.close);
    assert!(step.sends.is_empty());
    assert!(!entry(&s, X).connected);
    assert!(entry(&s, Y).connected);
    assert_eq!(entry(&s, Y).name, "B");
    let f = build_frame(Y, &Payload::Shine(ShinePacket { shine_id: 3 }));
    let step = s.handle_request(ConnState::Active(Y), &f, 0);
    assert_eq!(step.state, ConnState::Active(Y));
    assert!(step.sends.is_empty());
}

#[test]
fn short_payload_closes() {
    let mut s = Server::new(Settings::defaults());
    join(&mut s, X, "A");
    let f = build_frame(X, &Payload::Shine(ShinePacket { shine_id: 3 }));
    let step = s.handle_request(ConnState::Active(X), &f[..22], 0);
    assert_eq!(step.state, ConnState::Closed);
    assert!(!s.clients[0].connected);
}

#[test]
fn disconnect_is_passed_on_and_closes() {
    let mut s = Server::new(Settings::defaults());
    join(&mut s, X, "A");
    join(&mut s, Y, "B");
    let f = PacketHeader { id: X, packet_type: PacketType::Disconnect, packet_size: 0 }.serialize();
    let step = s.handle_request(ConnState::Active(X), &f, 0);
    assert_eq!(step.state, ConnState::Closed);
    assert!(step.close);
    assert_eq!(step.sends.len(), 1);
    assert_eq!(step.sends[0].to, Y);
    assert!(!entry(&s, X).connected);
    assert_eq!(s.clients.len(), 2);
}

#[test]
fn unhandled_kinds_are_relayed_raw_only_when_enabled() {
    let mut raw = PacketHeader { id: X, packet_type: PacketType::Unknown, packet_size: 3 }.serialize();
    raw.extend_from_slice(&[9, 8, 7]);
    let mut off = Server::new(Settings::defaults());
    join(&mut off, X, "A");
    join(&mut off, Y, "B");
    let step = off.handle_request(ConnState::Active(X), &raw, 0);
    assert_eq!(step.state, ConnState::Active(X));
    assert!(step.sends.is_empty());

    let mut settings = Settings::defaults();
    settings.server.relay_unhandled = true;
    let mut on = Server::new(settings);
    join(&mut on, X, "A");
    join(&mut on, Y, "B");
    let mut with_tail = raw.clone();
    with_tail.extend_from_slice(&[1, 2]);
    let step = on.handle_request(ConnState::Active(X), &with_tail, 0);
    assert_eq!(step.sends.len(), 1);
    assert_eq!(step.sends[0].to, Y);
    assert_eq!(step.sends[0].bytes, raw);
}

#[test]
fn closed_connection_does_nothing() {
    let mut s = Server::new(Settings::defaults());
    let step = s.handle_request(ConnState::Closed, &connect_frame(X, ConnectionTypes::FirstConnection, "A"), 0);
    assert_eq!(step.state, ConnState::Closed);
    assert!(s.clients.is_empty());
}

#[test]
fn init_frame_carries_max_players() {
    let s = Server::new(Settings::defaults());
    let f = s.init_frame();
    let h = PacketHeader::deserialize(&f);
    assert_eq!(h.id, SessionId { value: 0 });
    assert_eq!(h.packet_type, PacketType::Init);
    assert_eq!(h.packet_size, 2);
    assert_eq!(&f[20..], &[8, 0]);
}

#[test]
fn new_client_has_random_v4_id_and_clock() {
    let a = Client::new();
    let b = Client::new();
    assert_ne!(a.id, b.id);
    assert_eq!((a.id.value >> 76) & 0xf, 4);
    assert_eq!((a.id.value >> 62) & 0x3, 2);
    assert!(!a.connected);
    assert!(a.metadata.time.when > 1_500_000_000_000);
    assert!(current_time() > 1_500_000_000_000);
    assert!(a.eq(&a));
    assert!(!a.eq(&b));
}

#[test]
fn sync_connect_lists_connected_peers() {
    let mut s = Server::new(Settings::defaults());
    join(&mut s, X, "A");
    join(&mut s, Y, "B");
    let out = s.sync_connect(Z);
    assert_eq!(out.len(), 2);
    assert!(out.iter().all(|o| o.to == Z));
    let (h, c) = decode_connect(&out[1].bytes);
    assert_eq!(h.id, Y);
    assert_eq!(c.client_name, "B");
    assert_eq!(c.max_players, 8);
}

#[test]
fn add_or_replace_keeps_one_entry_per_id() {
    let mut s = Server::new(Settings::defaults());
    let mut a = Client::with_id(X, 0);
    a.name = "first".to_string();
    s.add_or_replace(a);
    s.add_or_replace(Client::with_id(Y, 0));
    let mut b = Client::with_id(X, 0);
    b.name = "second".to_string();
    s.add_or_replace(b);
    assert_eq!(s.clients.len(), 2);
    assert_eq!(s.clients[0].name, "second");
    assert_eq!(s.clients[1].id, Y);
    assert_eq!(s.find_by_session(Y), Some(1));
    assert_eq!(s.find_by_session(Z), None);
}
