//! The shared client registry and the broadcast / rewrite engine.
//!
//! Every operation here is a pure step on the registry: it returns the
//! frames to send (`Outgoing`) instead of sending them, so the caller can do
//! the network I/O outside any lock and report failed sends back with
//! `mark_disconnected`.

use crate::client::{costume_applied, game_applied, nothing_reported, tag_applied, Client};
use crate::header::{PacketHeader, SessionId, SIZE as HEADER_SIZE};
use crate::motion::PlayerPacket;
use crate::packet_type::PacketType;
use crate::packets::{ConnectPacket, ConnectView, ConnectionTypes, GameView, InitPacket};
use crate::payload::{build_frame, decode_payload, frame_bytes, frame_of, lemma_decoded_valid, payload_valid, split_frame, Payload, PayloadView};
use crate::settings::{contains_id, FlipOptions, Settings};
use vstd::prelude::*;

verus! {

/// One frame to deliver to one client.
pub struct Outgoing {
    pub to: SessionId,
    pub bytes: Vec<u8>,
}

pub struct Server {
    pub clients: Vec<Client>,
    pub settings: Settings,
}

/// Registry invariant: no two entries share a session id.
pub open spec fn ids_unique(cs: Seq<Client>) -> bool {
    forall|i: int, j: int| 0 <= i < j < cs.len() ==> cs[i].id != cs[j].id
}

/// Whether some entry has this id.
pub open spec fn has_id(cs: Seq<Client>, id: SessionId) -> bool {
    exists|j: int| 0 <= j < cs.len() && cs[j].id == id
}

/// A client that a broadcast from `from` reaches: connected, and not the sender.
pub open spec fn is_recipient(c: Client, from: SessionId) -> bool {
    c.connected && c.id != from
}

/// Registry positions a broadcast from `from` reaches, in registry order.
pub open spec fn recipients(cs: Seq<Client>, from: SessionId) -> Seq<int>
    decreases cs.len(),
{
    if cs.len() == 0 {
        Seq::empty()
    } else {
        let r = recipients(cs.drop_last(), from);
        if is_recipient(cs.last(), from) {
            r.push(cs.len() - 1)
        } else {
            r
        }
    }
}

/// Number of connected entries.
pub open spec fn count_connected(cs: Seq<Client>) -> nat
    decreases cs.len(),
{
    if cs.len() == 0 {
        0
    } else {
        count_connected(cs.drop_last()) + if cs.last().connected {
            1nat
        } else {
            0nat
        }
    }
}

/// Number of connected entries with this id.
pub open spec fn count_active(cs: Seq<Client>, id: SessionId) -> nat
    decreases cs.len(),
{
    if cs.len() == 0 {
        0
    } else {
        count_active(cs.drop_last(), id) + if cs.last().connected && cs.last().id == id {
            1nat
        } else {
            0nat
        }
    }
}

/// A broadcast from `from` reaches exactly the connected clients other than
/// `from`, each once, in registry order; never the sender itself.
pub proof fn lemma_fan_out_excludes_sender(cs: Seq<Client>, from: SessionId)
    ensures
        forall|k: int|
            0 <= k < recipients(cs, from).len() ==> {
                &&& 0 <= #[trigger] recipients(cs, from)[k] < cs.len()
                &&& is_recipient(cs[recipients(cs, from)[k]], from)
                &&& cs[recipients(cs, from)[k]].id != from
            },
        forall|k1: int, k2: int|
            0 <= k1 < k2 < recipients(cs, from).len() ==> recipients(cs, from)[k1] < recipients(
                cs,
                from,
            )[k2],
        forall|i: int|
            0 <= i < cs.len() && is_recipient(#[trigger] cs[i], from) ==> recipients(
                cs,
                from,
            ).contains(i),
    decreases cs.len(),
{
    if cs.len() > 0 {
        let d = cs.drop_last();
        lemma_fan_out_excludes_sender(d, from);
        let r = recipients(d, from);
        assert forall|i: int| 0 <= i < cs.len() && is_recipient(#[trigger] cs[i], from) implies recipients(
            cs,
            from,
        ).contains(i) by {
            if i < cs.len() - 1 {
                assert(d[i] == cs[i]);
                let k = choose|k: int| 0 <= k < r.len() && r[k] == i;
                assert(recipients(cs, from)[k] == i);
            } else {
                assert(recipients(cs, from)[r.len() as int] == i);
            }
        }
    }
}

/// With unique ids, at most one entry is an active session for any id, and
/// exactly one once some entry with that id is connected.
pub proof fn lemma_at_most_one_active(cs: Seq<Client>, id: SessionId)
    requires
        ids_unique(cs),
    ensures
        count_active(cs, id) <= 1,
        (exists|i: int| 0 <= i < cs.len() && cs[i].id == id && cs[i].connected) ==> count_active(
            cs,
            id,
        ) == 1,
        (forall|i: int| 0 <= i < cs.len() ==> !(cs[i].id == id && cs[i].connected)) ==> count_active(cs, id) == 0,
    decreases cs.len(),
{
    if cs.len() > 0 {
        let d = cs.drop_last();
        assert(ids_unique(d)) by {
            assert forall|i: int, j: int| 0 <= i < j < d.len() implies d[i].id != d[j].id by {
                assert(d[i] == cs[i] && d[j] == cs[j]);
            }
        }
        lemma_at_most_one_active(d, id);
        if cs.last().connected && cs.last().id == id {
            assert forall|i: int| 0 <= i < d.len() implies !(d[i].id == id && d[i].connected) by {
                assert(d[i] == cs[i]);
            }
        }
        if exists|i: int| 0 <= i < cs.len() && cs[i].id == id && cs[i].connected {
            let i = choose|i: int| 0 <= i < cs.len() && cs[i].id == id && cs[i].connected;
            if i < cs.len() - 1 {
                assert(d[i] == cs[i]);
            }
        }
        if forall|i: int| 0 <= i < cs.len() ==> !(cs[i].id == id && cs[i].connected) {
            assert forall|i: int| 0 <= i < d.len() implies !(d[i].id == id && d[i].connected) by {
                assert(d[i] == cs[i]);
            }
        }
    }
}

/// How a per-recipient broadcast rewrites each copy.
#[derive(Clone, Copy, PartialEq, Eq, Structural, Debug)]
pub enum Rewrite {
    /// A `Game` copy carries the recipient's own scenario number.
    ScenarioMerge,
    /// A `Player` copy is mirrored for recipients in the flip set, by the
    /// sender's 2D/3D state.
    FlipForFlipSet,
}

/// The copy of `v` that `to` receives from `from` under `rule`.
pub open spec fn rewritten(
    rule: Rewrite,
    flip_players: Seq<SessionId>,
    from: Client,
    to: Client,
    v: PayloadView,
) -> PayloadView {
    match rule {
        Rewrite::ScenarioMerge => match v {
            PayloadView::Game(g) => PayloadView::Game(
                GameView { scenario_num: to.metadata.scenario, ..g },
            ),
            _ => v,
        },
        Rewrite::FlipForFlipSet => match v {
            PayloadView::Player(p) => if flip_players.contains(to.id) {
                PayloadView::Player(PlayerPacket::mirrored(p, from.metadata.is_2d))
            } else {
                v
            },
            _ => v,
        },
    }
}

/// With scenario merge, every recipient's copy of a `Game` packet carries
/// that recipient's own scenario number and nothing else changes; so two
/// recipients on different scenarios receive different numbers, and a
/// recipient whose scenario differs from the sender's never sees the
/// sender's.
pub proof fn lemma_merge_independence(
    flip_players: Seq<SessionId>,
    from: Client,
    to1: Client,
    to2: Client,
    g: GameView,
)
    ensures
        rewritten(Rewrite::ScenarioMerge, flip_players, from, to1, PayloadView::Game(g))
            == PayloadView::Game(GameView { scenario_num: to1.metadata.scenario, ..g }),
        to1.metadata.scenario != to2.metadata.scenario ==> rewritten(
            Rewrite::ScenarioMerge,
            flip_players,
            from,
            to1,
            PayloadView::Game(g),
        ) != rewritten(Rewrite::ScenarioMerge, flip_players, from, to2, PayloadView::Game(g)),
        to1.metadata.scenario != from.metadata.scenario ==> rewritten(
            Rewrite::ScenarioMerge,
            flip_players,
            from,
            to1,
            PayloadView::Game(g),
        )->Game_0.scenario_num != from.metadata.scenario,
{
}

/// Byte-for-byte copy of a frame.
fn copy_bytes(v: &Vec<u8>) -> (r: Vec<u8>)
    ensures
        r@ == v@,
{
    let mut r: Vec<u8> = Vec::new();
    let mut k: usize = 0;
    while k < v.len()
        invariant
            k <= v@.len(),
            r@ == v@.take(k as int),
        decreases v@.len() - k,
    {
        r.push(v[k]);
        k = k + 1;
        assert(r@ =~= v@.take(k as int));
    }
    assert(v@.take(v@.len() as int) =~= v@);
    r
}

impl Server {
    /// A relay with no clients yet.
    pub fn new(settings: Settings) -> (r: Server)
        ensures
            r.clients@.len() == 0,
            r.settings == settings,
            r.wf(),
    {
        Server { clients: Vec::new(), settings }
    }

    /// The registry invariant.
    pub open spec fn wf(&self) -> bool {
        ids_unique(self.clients@)
    }

    /// Position of the entry with this id.
    pub fn find_by_session(&self, id: SessionId) -> (r: Option<usize>)
        ensures
            r matches Some(i) ==> i < self.clients@.len() && self.clients@[i as int].id == id,
            r is None ==> !has_id(self.clients@, id),
    {
        let mut i: usize = 0;
        while i < self.clients.len()
            invariant
                i <= self.clients@.len(),
                forall|j: int| 0 <= j < i ==> self.clients@[j].id != id,
            decreases self.clients@.len() - i,
        {
            if self.clients[i].id == id {
                return Some(i);
            }
            i = i + 1;
        }
        None
    }

    /// Puts a record into the registry: in place of the entry with the same
    /// id if there is one, else at the end.
    pub fn add_or_replace(&mut self, client: Client)
        requires
            old(self).wf(),
        ensures
            final(self).wf(),
            final(self).settings == old(self).settings,
            has_id(old(self).clients@, client.id) ==> final(self).clients@.len() == old(
                self,
            ).clients@.len() && forall|j: int|
                0 <= j < old(self).clients@.len() ==> #[trigger] final(self).clients@[j] == (if old(
                    self,
                ).clients@[j].id == client.id {
                    client
                } else {
                    old(self).clients@[j]
                }),
            !has_id(old(self).clients@, client.id) ==> final(self).clients@ == old(
                self,
            ).clients@.push(client),
    {
        let ghost old_clients = self.clients@;
        let ghost c = client;
        match self.find_by_session(client.id) {
            Some(i) => {
                self.clients.remove(i);
                self.clients.insert(i, client);
                assert(self.clients@ =~= old_clients.update(i as int, c));
                assert forall|j: int| 0 <= j < old_clients.len() && j != i implies old_clients[j].id
                    != c.id by {}
            },
            None => {
                self.clients.push(client);
            },
        }
    }

    /// Number of connected clients.
    pub fn connected_count(&self) -> (r: usize)
        ensures
            r == count_connected(self.clients@),
    {
        let mut n: usize = 0;
        let mut i: usize = 0;
        while i < self.clients.len()
            invariant
                i <= self.clients@.len(),
                n == count_connected(self.clients@.take(i as int)),
                n <= i,
            decreases self.clients@.len() - i,
        {
            assert(self.clients@.take(i + 1).drop_last() =~= self.clients@.take(i as int));
            if self.clients[i].connected {
                n = n + 1;
            }
            i = i + 1;
        }
        assert(self.clients@.take(i as int) =~= self.clients@);
        n
    }

    /// Marks the entry with this id as no longer connected; the entry stays,
    /// so the player can reconnect under the same id. Nothing else changes.
    pub fn mark_disconnected(&mut self, id: SessionId)
        requires
            old(self).wf(),
        ensures
            final(self).wf(),
            final(self).settings == old(self).settings,
            final(self).clients@.len() == old(self).clients@.len(),
            forall|j: int|
                0 <= j < old(self).clients@.len() ==> #[trigger] final(self).clients@[j] == (if old(
                    self,
                ).clients@[j].id == id {
                    Client { connected: false, ..old(self).clients@[j] }
                } else {
                    old(self).clients@[j]
                }),
    {
        match self.find_by_session(id) {
            Some(i) => {
                let mut c = self.clients.remove(i);
                c.connected = false;
                self.clients.insert(i, c);
                assert forall|j: int| 0 <= j < old(self).clients@.len() && j != i implies old(
                    self,
                ).clients@[j].id != id by {
                    assert(old(self).wf());
                }
            },
            None => {},
        }
    }

    /// The registry positions a broadcast from `from` reaches, taken once
    /// at call time.
    pub fn recipient_indices(&self, from: SessionId) -> (r: Vec<usize>)
        ensures
            r@.len() == recipients(self.clients@, from).len(),
            forall|k: int| 0 <= k < r@.len() ==> r@[k] as int == recipients(self.clients@, from)[k],
    {
        let mut r: Vec<usize> = Vec::new();
        let mut i: usize = 0;
        while i < self.clients.len()
            invariant
                i <= self.clients@.len(),
                r@.len() == recipients(self.clients@.take(i as int), from).len(),
                forall|k: int|
                    0 <= k < r@.len() ==> r@[k] as int == recipients(
                        self.clients@.take(i as int),
                        from,
                    )[k],
            decreases self.clients@.len() - i,
        {
            let ghost t = self.clients@.take(i + 1);
            assert(t.drop_last() =~= self.clients@.take(i as int));
            let c = &self.clients[i];
            if c.connected && c.id != from {
                r.push(i);
            }
            i = i + 1;
        }
        assert(self.clients@.take(i as int) =~= self.clients@);
        r
    }

    /// Uniform broadcast: the payload in a header stamped with the sender's
    /// id, the same bytes to every connected client but the sender.
    pub fn broadcast(&self, from: SessionId, payload: &Payload) -> (r: Vec<Outgoing>)
        ensures
            uniform_sends(self.clients@, from, payload@, r@),
            forall|k: int| 0 <= k < r@.len() ==> #[trigger] r@[k].to != from,
    {
        let frame = build_frame(from, payload);
        let idx = self.recipient_indices(from);
        proof {
            lemma_fan_out_excludes_sender(self.clients@, from);
        }
        let mut out: Vec<Outgoing> = Vec::new();
        let mut k: usize = 0;
        while k < idx.len()
            invariant
                k <= idx@.len(),
                idx@.len() == recipients(self.clients@, from).len(),
                forall|m: int| 0 <= m < idx@.len() ==> idx@[m] as int == recipients(self.clients@, from)[m],
                forall|m: int|
                    0 <= m < recipients(self.clients@, from).len() ==> {
                        &&& 0 <= #[trigger] recipients(self.clients@, from)[m] < self.clients@.len()
                        &&& self.clients@[recipients(self.clients@, from)[m]].id != from
                    },
                frame@ == frame_bytes(from, payload@),
                out@.len() == k,
                forall|m: int|
                    0 <= m < k ==> {
                        &&& #[trigger] out@[m].to == self.clients@[recipients(self.clients@, from)[m]].id
                        &&& out@[m].to != from
                        &&& out@[m].bytes@ == frame_bytes(from, payload@)
                    },
            decreases idx@.len() - k,
        {
            let i = idx[k];
            assert(recipients(self.clients@, from)[k as int] == i);
            out.push(Outgoing { to: self.clients[i].id, bytes: copy_bytes(&frame) });
            k = k + 1;
        }
        out
    }

    /// Raw broadcast: the bytes as received, to every connected client but
    /// the sender.
    pub fn broadcast_raw(&self, from: SessionId, data: &[u8]) -> (r: Vec<Outgoing>)
        ensures
            r@.len() == recipients(self.clients@, from).len(),
            forall|k: int|
                0 <= k < r@.len() ==> {
                    &&& (#[trigger] r@[k]).to == self.clients@[recipients(self.clients@, from)[k]].id
                    &&& r@[k].to != from
                    &&& r@[k].bytes@ == data@
                },
    {
        let idx = self.recipient_indices(from);
        proof {
            lemma_fan_out_excludes_sender(self.clients@, from);
        }
        let mut out: Vec<Outgoing> = Vec::new();
        let mut k: usize = 0;
        while k < idx.len()
            invariant
                k <= idx@.len(),
                idx@.len() == recipients(self.clients@, from).len(),
                forall|m: int| 0 <= m < idx@.len() ==> idx@[m] as int == recipients(self.clients@, from)[m],
                forall|m: int|
                    0 <= m < recipients(self.clients@, from).len() ==> {
                        &&& 0 <= #[trigger] recipients(self.clients@, from)[m] < self.clients@.len()
                        &&& self.clients@[recipients(self.clients@, from)[m]].id != from
                    },
                out@.len() == k,
                forall|m: int|
                    0 <= m < k ==> {
                        &&& #[trigger] out@[m].to == self.clients@[recipients(self.clients@, from)[m]].id
                        &&& out@[m].to != from
                        &&& out@[m].bytes@ == data@
                    },
            decreases idx@.len() - k,
        {
            let i = idx[k];
            assert(recipients(self.clients@, from)[k as int] == i);
            let mut bytes: Vec<u8> = Vec::new();
            let mut b: usize = 0;
            while b < data.len()
                invariant
                    b <= data@.len(),
                    bytes@ == data@.take(b as int),
                decreases data@.len() - b,
            {
                bytes.push(data[b]);
                b = b + 1;
                assert(bytes@ =~= data@.take(b as int));
            }
            assert(data@.take(data@.len() as int) =~= data@);
            out.push(Outgoing { to: self.clients[i].id, bytes });
            k = k + 1;
        }
        out
    }

    /// Introduces the already-connected players to the newcomer `to`: one
    /// `Connect` announcement per connected client other than `to`, each in
    /// a header stamped with the announced player's id.
    pub fn sync_connect(&self, to: SessionId) -> (r: Vec<Outgoing>)
        ensures
            sync_sends(self.clients@, to, self.settings.server.max_players, r@),
    {
        let idx = self.recipient_indices(to);
        proof {
            lemma_fan_out_excludes_sender(self.clients@, to);
        }
        let mut out: Vec<Outgoing> = Vec::new();
        let mut k: usize = 0;
        while k < idx.len()
            invariant
                k <= idx@.len(),
                idx@.len() == recipients(self.clients@, to).len(),
                forall|m: int| 0 <= m < idx@.len() ==> idx@[m] as int == recipients(self.clients@, to)[m],
                forall|m: int|
                    0 <= m < recipients(self.clients@, to).len() ==> 0 <= #[trigger] recipients(
                        self.clients@,
                        to,
                    )[m] < self.clients@.len(),
                out@.len() == k,
                forall|m: int|
                    0 <= m < k ==> {
                        &&& #[trigger] out@[m].to == to
                        &&& out@[m].bytes@ == frame_bytes(
                            self.clients@[recipients(self.clients@, to)[m]].id,
                            PayloadView::Connect(
                                ConnectView {
                                    connection_type: ConnectionTypes::FirstConnection,
                                    max_players: self.settings.server.max_players,
                                    client_name: self.clients@[recipients(self.clients@, to)[m]].name@,
                                },
                            ),
                        )
                    },
            decreases idx@.len() - k,
        {
            let i = idx[k];
            assert(recipients(self.clients@, to)[k as int] == i);
            let c = &self.clients[i];
            let announce = Payload::Connect(
                ConnectPacket {
                    connection_type: ConnectionTypes::FirstConnection,
                    max_players: self.settings.server.max_players,
                    client_name: c.name.clone(),
                },
            );
            out.push(Outgoing { to, bytes: build_frame(c.id, &announce) });
            k = k + 1;
        }
        out
    }

    /// Applies `rule` to the copy of a payload that `to` receives from `from`.
    pub fn rewrite(&self, rule: Rewrite, from: usize, to: usize, p: &mut Payload)
        requires
            from < self.clients@.len(),
            to < self.clients@.len(),
        ensures
            final(p)@ == rewritten(
                rule,
                self.settings.flip.players@,
                self.clients@[from as int],
                self.clients@[to as int],
                old(p)@,
            ),
    {
        match rule {
            Rewrite::ScenarioMerge => match p {
                Payload::Game(g) => {
                    g.scenario_num = self.clients[to].metadata.scenario;
                },
                _ => {},
            },
            Rewrite::FlipForFlipSet => match p {
                Payload::Player(pl) => {
                    if contains_id(&self.settings.flip.players, self.clients[to].id) {
                        pl.mirror(self.clients[from].metadata.is_2d);
                    }
                },
                _ => {},
            },
        }
    }

    /// Per-recipient rewrite broadcast: each connected client but the
    /// sender gets its own fresh copy of the payload, rewritten by `rule`.
    pub fn broadcast_replace(&self, from: usize, payload: &Payload, rule: Rewrite) -> (r: Vec<
        Outgoing,
    >)
        requires
            from < self.clients@.len(),
            payload_valid(payload@),
        ensures
            rewrite_sends(self.clients@, self.settings.flip.players@, from as int, rule, payload@, r@),
            forall|k: int| 0 <= k < r@.len() ==> #[trigger] r@[k].to != self.clients@[from as int].id,
    {
        let sender = self.clients[from].id;
        let idx = self.recipient_indices(sender);
        proof {
            lemma_fan_out_excludes_sender(self.clients@, sender);
        }
        let mut out: Vec<Outgoing> = Vec::new();
        let mut k: usize = 0;
        while k < idx.len()
            invariant
                from < self.clients@.len(),
                sender == self.clients@[from as int].id,
                payload_valid(payload@),
                k <= idx@.len(),
                idx@.len() == recipients(self.clients@, sender).len(),
                forall|m: int| 0 <= m < idx@.len() ==> idx@[m] as int == recipients(self.clients@, sender)[m],
                forall|m: int|
                    0 <= m < recipients(self.clients@, sender).len() ==> {
                        &&& 0 <= #[trigger] recipients(self.clients@, sender)[m] < self.clients@.len()
                        &&& self.clients@[recipients(self.clients@, sender)[m]].id != sender
                    },
                out@.len() == k,
                forall|m: int|
                    0 <= m < k ==> {
                        let i = recipients(self.clients@, sender)[m];
                        &&& #[trigger] out@[m].to == self.clients@[i].id
                        &&& out@[m].to != sender
                        &&& out@[m].bytes@ == frame_bytes(
                            sender,
                            rewritten(
                                rule,
                                self.settings.flip.players@,
                                self.clients@[from as int],
                                self.clients@[i],
                                payload@,
                            ),
                        )
                    },
            decreases idx@.len() - k,
        {
            let i = idx[k];
            assert(recipients(self.clients@, sender)[k as int] == i);
            let mut copy = payload.copy();
            self.rewrite(rule, from, i, &mut copy);
            out.push(Outgoing { to: self.clients[i].id, bytes: build_frame(sender, &copy) });
            k = k + 1;
        }
        out
    }
}

/// Each entry's id and whether it is connected.
pub open spec fn presence(cs: Seq<Client>) -> Seq<(SessionId, bool)> {
    cs.map_values(|c: Client| (c.id, c.connected))
}

/// What an accepted handshake of `id` does to the presence map: the entry
/// with `id` becomes connected, or a connected entry for `id` is added.
pub open spec fn bind(p: Seq<(SessionId, bool)>, id: SessionId) -> Seq<(SessionId, bool)> {
    if exists|i: int| 0 <= i < p.len() && p[i].0 == id {
        p.map_values(
            |e: (SessionId, bool)|
                if e.0 == id {
                    (id, true)
                } else {
                    e
                },
        )
    } else {
        p.push((id, true))
    }
}

/// `n` accepted handshakes of the same id, one after the other.
pub open spec fn bind_times(p: Seq<(SessionId, bool)>, id: SessionId, n: nat) -> Seq<(SessionId, bool)>
    decreases n,
{
    if n == 0 {
        p
    } else {
        bind(bind_times(p, id, (n - 1) as nat), id)
    }
}

/// No two entries of a presence map share an id.
pub open spec fn keys_unique(p: Seq<(SessionId, bool)>) -> bool {
    forall|i: int, j: int| 0 <= i < j < p.len() ==> p[i].0 != p[j].0
}

/// Number of connected entries for `id` in a presence map.
pub open spec fn active_for(p: Seq<(SessionId, bool)>, id: SessionId) -> nat
    decreases p.len(),
{
    if p.len() == 0 {
        0
    } else {
        active_for(p.drop_last(), id) + if p.last().0 == id && p.last().1 {
            1nat
        } else {
            0nat
        }
    }
}

proof fn lemma_active_for_unique(p: Seq<(SessionId, bool)>, id: SessionId, k: int)
    requires
        keys_unique(p),
        0 <= k < p.len(),
        p[k] == (id, true),
    ensures
        active_for(p, id) == 1,
    decreases p.len(),
{
    let d = p.drop_last();
    assert(keys_unique(d)) by {
        assert forall|i: int, j: int| 0 <= i < j < d.len() implies d[i].0 != d[j].0 by {
            assert(d[i] == p[i] && d[j] == p[j]);
        }
    }
    if k < p.len() - 1 {
        assert(d[k] == p[k]);
        lemma_active_for_unique(d, id, k);
    } else {
        lemma_active_for_none(d, id);
    }
}

proof fn lemma_active_for_none(p: Seq<(SessionId, bool)>, id: SessionId)
    requires
        forall|i: int| 0 <= i < p.len() ==> p[i].0 != id,
    ensures
        active_for(p, id) == 0,
    decreases p.len(),
{
    if p.len() > 0 {
        let d = p.drop_last();
        assert forall|i: int| 0 <= i < d.len() implies d[i].0 != id by {
            assert(d[i] == p[i]);
        }
        lemma_active_for_none(d, id);
    }
}

proof fn lemma_bind(p: Seq<(SessionId, bool)>, id: SessionId)
    requires
        keys_unique(p),
    ensures
        keys_unique(bind(p, id)),
        exists|k: int| 0 <= k < bind(p, id).len() && bind(p, id)[k] == (id, true),
{
    let b = bind(p, id);
    if exists|i: int| 0 <= i < p.len() && p[i].0 == id {
        let i = choose|i: int| 0 <= i < p.len() && p[i].0 == id;
        assert(b[i] == (id, true));
        assert forall|x: int, y: int| 0 <= x < y < b.len() implies b[x].0 != b[y].0 by {
            assert(p[x].0 != p[y].0);
        }
    } else {
        assert(b[p.len() as int] == (id, true));
        assert forall|x: int, y: int| 0 <= x < y < b.len() implies b[x].0 != b[y].0 by {
            if y < p.len() {
                assert(b[x] == p[x] && b[y] == p[y]);
            } else {
                assert(b[x] == p[x]);
            }
        }
    }
}

/// However many handshakes of one id are accepted in a row (at least one),
/// starting from a registry without duplicate ids, afterwards exactly one
/// entry for that id is connected, and ids are still unique.
pub proof fn lemma_handshakes_leave_one_active(p: Seq<(SessionId, bool)>, id: SessionId, n: nat)
    requires
        keys_unique(p),
        n >= 1,
    ensures
        keys_unique(bind_times(p, id, n)),
        active_for(bind_times(p, id, n), id) == 1,
    decreases n,
{
    if n > 1 {
        lemma_handshakes_leave_one_active(p, id, (n - 1) as nat);
    }
    let q = bind_times(p, id, (n - 1) as nat);
    lemma_bind(q, id);
    let k = choose|k: int| 0 <= k < bind(q, id).len() && bind(q, id)[k] == (id, true);
    lemma_active_for_unique(bind(q, id), id, k);
}

/// The presence map of a registry has unique keys when its ids are unique.
pub proof fn lemma_presence_unique(cs: Seq<Client>)
    requires
        ids_unique(cs),
    ensures
        keys_unique(presence(cs)),
{
}

proof fn lemma_bound_presence(old: Seq<Client>, new: Seq<Client>, id: SessionId, v: ConnectView, now: i64)
    requires
        handshake_bound(old, new, id, v, now),
    ensures
        presence(new) == bind(presence(old), id),
{
    let po = presence(old);
    if has_id(old, id) {
        let j = choose|j: int| 0 <= j < old.len() && old[j].id == id;
        assert(po[j].0 == id);
        assert(presence(new) =~= bind(po, id)) by {
            assert forall|i: int| 0 <= i < new.len() implies presence(new)[i] == bind(po, id)[i] by {
                if old[i].id == id {
                    assert(bound_entry(new[i], id, v));
                } else {
                    assert(new[i] == old[i]);
                }
            }
        }
    } else {
        assert forall|i: int| 0 <= i < po.len() implies po[i].0 != id by {}
        assert(presence(new) =~= bind(po, id)) by {
            assert forall|i: int| 0 <= i < new.len() implies presence(new)[i] == bind(po, id)[i] by {
                if i < old.len() {
                    assert(new[i] == old[i]);
                }
            }
        }
    }
}

/// Why a handshake is refused.
#[derive(Clone, Copy, PartialEq, Eq, Structural, Debug)]
pub enum HandshakeError {
    /// The first frame of a connection was not a `Connect` packet.
    NotConnect,
    /// As many clients as allowed are connected already.
    ServerFull,
}

/// Whether a handshake in `mode` takes over the existing entry `old` with
/// its state: a reconnection always does, a first connection only when the
/// entry is not connected (a connected one is replaced by a fresh record).
pub open spec fn adopts(old: Client, mode: ConnectionTypes) -> bool {
    mode == ConnectionTypes::Reconnecting || !old.connected
}

/// `c` is the entry a handshake bound: the id, connected, the announced name.
pub open spec fn bound_entry(c: Client, id: SessionId, v: ConnectView) -> bool {
    c.id == id && c.connected && c.name@ == v.client_name
}

/// The registry `new` after a successful handshake of `id` on `old`.
pub open spec fn handshake_bound(
    old: Seq<Client>,
    new: Seq<Client>,
    id: SessionId,
    v: ConnectView,
    now: i64,
) -> bool {
    if has_id(old, id) {
        &&& new.len() == old.len()
        &&& forall|i: int|
            0 <= i < old.len() ==> if old[i].id == id {
                &&& bound_entry(#[trigger] new[i], id, v)
                &&& adopts(old[i], v.connection_type) ==> new[i].metadata == old[i].metadata
                    && new[i].current_costume == old[i].current_costume
                &&& !adopts(old[i], v.connection_type) ==> nothing_reported(new[i], now)
            } else {
                new[i] == old[i]
            }
    } else {
        &&& new.len() == old.len() + 1
        &&& forall|i: int| 0 <= i < old.len() ==> #[trigger] new[i] == old[i]
        &&& bound_entry(new[old.len() as int], id, v)
        &&& nothing_reported(new[old.len() as int], now)
    }
}

/// `sends` is a uniform broadcast of `v` from `from` over registry `cs`.
pub open spec fn uniform_sends(cs: Seq<Client>, from: SessionId, v: PayloadView, sends: Seq<Outgoing>) -> bool {
    &&& sends.len() == recipients(cs, from).len()
    &&& forall|k: int|
        0 <= k < sends.len() ==> {
            &&& #[trigger] sends[k].to == cs[recipients(cs, from)[k]].id
            &&& sends[k].bytes@ == frame_bytes(from, v)
        }
}

/// `sends` is a rewrite broadcast of `v` from entry `from` over registry `cs`.
pub open spec fn rewrite_sends(
    cs: Seq<Client>,
    flip_players: Seq<SessionId>,
    from: int,
    rule: Rewrite,
    v: PayloadView,
    sends: Seq<Outgoing>,
) -> bool {
    &&& sends.len() == recipients(cs, cs[from].id).len()
    &&& forall|k: int|
        0 <= k < sends.len() ==> {
            let i = recipients(cs, cs[from].id)[k];
            &&& #[trigger] sends[k].to == cs[i].id
            &&& sends[k].bytes@ == frame_bytes(
                cs[from].id,
                rewritten(rule, flip_players, cs[from], cs[i], v),
            )
        }
}

/// `sends` are the `Connect` announcements a newcomer `to` receives from
/// registry `cs`, one per other connected client.
pub open spec fn sync_sends(cs: Seq<Client>, to: SessionId, max_players: u16, sends: Seq<Outgoing>) -> bool {
    &&& sends.len() == recipients(cs, to).len()
    &&& forall|k: int|
        0 <= k < sends.len() ==> {
            &&& #[trigger] sends[k].to == to
            &&& sends[k].bytes@ == frame_bytes(
                cs[recipients(cs, to)[k]].id,
                PayloadView::Connect(
                    ConnectView {
                        connection_type: ConnectionTypes::FirstConnection,
                        max_players,
                        client_name: cs[recipients(cs, to)[k]].name@,
                    },
                ),
            )
        }
}

/// Flip mode mirrors this player's own packets before broadcasting them.
pub open spec fn flips_self(s: Settings, id: SessionId) -> bool {
    &&& s.flip.enabled
    &&& s.flip.pov == FlipOptions::BothOption || s.flip.pov == FlipOptions::SelfOption
    &&& s.flip.players@.contains(id)
}

/// Flip mode mirrors this player's packets per recipient.
pub open spec fn flips_others(s: Settings, id: SessionId) -> bool {
    &&& s.flip.enabled
    &&& s.flip.pov == FlipOptions::BothOption || s.flip.pov == FlipOptions::OthersOption
    &&& s.flip.players@.contains(id)
}

/// `new` is `old` with the entry of `id` no longer connected.
pub open spec fn disconnected(old: Seq<Client>, new: Seq<Client>, id: SessionId) -> bool {
    &&& new.len() == old.len()
    &&& forall|j: int|
        0 <= j < old.len() ==> #[trigger] new[j] == (if old[j].id == id {
            Client { connected: false, ..old[j] }
        } else {
            old[j]
        })
}

/// Where a connection is in its life.
#[derive(Clone, Copy, PartialEq, Eq, Structural, Debug)]
pub enum ConnState {
    /// Accepted; the first frame must be a handshake.
    AwaitingHandshake,
    /// Bound to the registry entry of this id.
    Active(SessionId),
    /// Done; nothing more is read.
    Closed,
}

/// What one inbound frame leads to.
pub struct Step {
    pub state: ConnState,
    pub sends: Vec<Outgoing>,
    /// The connection is to be closed.
    pub close: bool,
}

impl Server {
    /// The frame that greets a newly accepted connection: an `Init` packet
    /// with the configured player count, under an id not yet known (zero).
    pub fn init_frame(&self) -> (r: Vec<u8>)
        ensures
            r@ == frame_bytes(
                SessionId { value: 0 },
                PayloadView::Init(InitPacket { max_players: self.settings.server.max_players }),
            ),
    {
        let init = Payload::Init(InitPacket { max_players: self.settings.server.max_players });
        build_frame(SessionId { value: 0 }, &init)
    }

    /// Binds a connection to the registry on its `Connect` packet.
    ///
    /// The entry with the header's id is taken over (a reconnection, or a
    /// first connection of an id whose entry is not connected) or replaced
    /// by a fresh record (a first connection of an id already connected);
    /// without such an entry a fresh one is added. The others are told of
    /// the newcomer, and on a first connection the newcomer is told of them.
    pub fn handshake(&mut self, header: &PacketHeader, connect: &ConnectPacket, now: i64) -> (r:
        Result<Vec<Outgoing>, HandshakeError>)
        requires
            old(self).wf(),
        ensures
            final(self).wf(),
            final(self).settings == old(self).settings,
            header.packet_type != PacketType::Connect ==> r == Err::<Vec<Outgoing>, HandshakeError>(
                HandshakeError::NotConnect,
            ),
            header.packet_type == PacketType::Connect && count_connected(old(self).clients@)
                >= old(self).settings.server.max_players ==> r == Err::<
                Vec<Outgoing>,
                HandshakeError,
            >(HandshakeError::ServerFull),
            header.packet_type == PacketType::Connect && count_connected(old(self).clients@) < old(
                self,
            ).settings.server.max_players ==> r is Ok,
            r is Err ==> final(self).clients@ == old(self).clients@,
            r is Ok ==> handshake_bound(old(self).clients@, final(self).clients@, header.id, connect@, now),
            r is Ok ==> count_active(final(self).clients@, header.id) == 1,
            r is Ok ==> presence(final(self).clients@) == bind(presence(old(self).clients@), header.id),
            r matches Ok(sends) ==> {
                let n = recipients(final(self).clients@, header.id).len();
                &&& uniform_sends(
                    final(self).clients@,
                    header.id,
                    PayloadView::Connect(connect@),
                    sends@.take(n as int),
                )
                &&& connect.connection_type == ConnectionTypes::FirstConnection ==> sync_sends(
                    final(self).clients@,
                    header.id,
                    final(self).settings.server.max_players,
                    sends@.skip(n as int),
                )
                &&& connect.connection_type == ConnectionTypes::Reconnecting ==> sends@.len() == n
                &&& forall|k: int| 0 <= k < n ==> #[trigger] sends@[k].to != header.id
            },
    {
        if header.packet_type != PacketType::Connect {
            return Err(HandshakeError::NotConnect);
        }
        if self.connected_count() >= self.settings.server.max_players as usize {
            return Err(HandshakeError::ServerFull);
        }
        let id = header.id;
        let ghost old_clients = self.clients@;
        match self.find_by_session(id) {
            Some(i) => {
                let mut c = self.clients.remove(i);
                if connect.connection_type == ConnectionTypes::FirstConnection && c.connected {
                    c = Client::with_id(id, now);
                }
                c.name = connect.client_name.clone();
                c.connected = true;
                self.clients.insert(i, c);
                assert(self.clients@ =~= old_clients.update(i as int, self.clients@[i as int]));
                assert forall|j: int| 0 <= j < old_clients.len() && j != i implies old_clients[j].id
                    != id by {}
            },
            None => {
                let mut c = Client::with_id(id, now);
                c.name = connect.client_name.clone();
                c.connected = true;
                self.clients.push(c);
            },
        }
        proof {
            lemma_at_most_one_active(self.clients@, id);
            lemma_bound_presence(old_clients, self.clients@, id, connect@, now);
        }
        let announce = Payload::Connect(
            ConnectPacket {
                connection_type: connect.connection_type,
                max_players: connect.max_players,
                client_name: connect.client_name.clone(),
            },
        );
        assert(announce@ == PayloadView::Connect(connect@));
        let mut sends = self.broadcast(id, &announce);
        let ghost first = sends@;
        let ghost n = first.len();
        if connect.connection_type == ConnectionTypes::FirstConnection {
            let mut sync = self.sync_connect(id);
            let ghost later = sync@;
            sends.append(&mut sync);
            assert(sends@ =~= first + later);
            assert(sends@.take(n as int) =~= first);
            assert(sends@.skip(n as int) =~= later);
        } else {
            assert(sends@.take(n as int) =~= first);
        }
        assert forall|k: int| 0 <= k < n implies #[trigger] sends@[k].to != id by {
            assert(sends@[k] == first[k]);
        }
        Ok(sends)
    }
}

impl Server {
    /// Applies the side effects of a packet from entry `from` and decides
    /// its delivery: `(true, [])` when the packet is to be broadcast as it
    /// is, `(false, sends)` when the handler arranged its own delivery.
    ///
    /// `Game`, `Tag` and `Costume` update the sender's record. With scenario
    /// merge a `Game` packet goes out per recipient with the recipient's
    /// scenario. With flip mode on for the sender, a `Player` packet is
    /// mirrored before a uniform broadcast (the sender's own view) or
    /// mirrored per recipient in the flip set (the others' view).
    pub fn packet_handler(&mut self, from: usize, payload: &mut Payload, now: i64) -> (r: (
        bool,
        Vec<Outgoing>,
    ))
        requires
            old(self).wf(),
            from < old(self).clients@.len(),
            payload_valid(old(payload)@),
        ensures
            final(self).wf(),
            final(self).settings == old(self).settings,
            final(self).clients@.len() == old(self).clients@.len(),
            forall|j: int|
                0 <= j < old(self).clients@.len() && j != from ==> #[trigger] final(self).clients@[j]
                    == old(self).clients@[j],
            ({
                let (o, n) = (old(self).clients@[from as int], final(self).clients@[from as int]);
                match old(payload)@ {
                    PayloadView::Game(g) => game_applied(o, n, g),
                    PayloadView::Tag(t) => tag_applied(o, n, t, now),
                    PayloadView::Costume(c) => costume_applied(o, n, c),
                    _ => n == o,
                }
            }),
            forall|k: int|
                0 <= k < r.1@.len() ==> #[trigger] r.1@[k].to != old(self).clients@[from as int].id,
            old(payload)@ is Game && old(self).settings.scenario.merge_enabled ==> {
                &&& !r.0
                &&& final(payload)@ == old(payload)@
                &&& rewrite_sends(
                    final(self).clients@,
                    final(self).settings.flip.players@,
                    from as int,
                    Rewrite::ScenarioMerge,
                    old(payload)@,
                    r.1@,
                )
            },
            old(payload)@ is Player && flips_self(
                old(self).settings,
                old(self).clients@[from as int].id,
            ) ==> {
                &&& !r.0
                &&& final(payload)@ == PayloadView::Player(
                    PlayerPacket::mirrored(
                        old(payload)@->Player_0,
                        old(self).clients@[from as int].metadata.is_2d,
                    ),
                )
                &&& uniform_sends(
                    final(self).clients@,
                    old(self).clients@[from as int].id,
                    final(payload)@,
                    r.1@,
                )
            },
            old(payload)@ is Player && !flips_self(
                old(self).settings,
                old(self).clients@[from as int].id,
            ) && flips_others(old(self).settings, old(self).clients@[from as int].id) ==> {
                &&& !r.0
                &&& final(payload)@ == old(payload)@
                &&& rewrite_sends(
                    final(self).clients@,
                    final(self).settings.flip.players@,
                    from as int,
                    Rewrite::FlipForFlipSet,
                    old(payload)@,
                    r.1@,
                )
            },
            !(old(payload)@ is Game && old(self).settings.scenario.merge_enabled) && !(old(
                payload,
            )@ is Player && (flips_self(old(self).settings, old(self).clients@[from as int].id)
                || flips_others(old(self).settings, old(self).clients@[from as int].id))) ==> {
                &&& r.0
                &&& r.1@.len() == 0
                &&& final(payload)@ == old(payload)@
            },
    {
        let id = self.clients[from].id;
        let ghost old_clients = self.clients@;
        proof {
            lemma_fan_out_excludes_sender(self.clients@, id);
        }
        match payload {
            Payload::Game(g) => {
                let mut c = self.clients.remove(from);
                c.handle_game(g);
                self.clients.insert(from, c);
                assert(self.clients@ =~= old_clients.update(from as int, self.clients@[from as int]));
                proof {
                    lemma_fan_out_excludes_sender(self.clients@, id);
                }
                if self.settings.scenario.merge_enabled {
                    let sends = self.broadcast_replace(from, payload, Rewrite::ScenarioMerge);
                    return (false, sends);
                }
                (true, Vec::new())
            },
            Payload::Tag(t) => {
                let mut c = self.clients.remove(from);
                c.handle_tag(t, now);
                self.clients.insert(from, c);
                assert(self.clients@ =~= old_clients.update(from as int, self.clients@[from as int]));
                (true, Vec::new())
            },
            Payload::Costume(cp) => {
                let mut c = self.clients.remove(from);
                c.handle_costume(cp);
                self.clients.insert(from, c);
                assert(self.clients@ =~= old_clients.update(from as int, self.clients@[from as int]));
                (true, Vec::new())
            },
            Payload::Player(pl) => {
                let enabled = self.settings.flip.enabled;
                let pov = self.settings.flip.pov;
                let listed = contains_id(&self.settings.flip.players, id);
                if enabled && (pov == FlipOptions::BothOption || pov == FlipOptions::SelfOption)
                    && listed {
                    pl.mirror(self.clients[from].metadata.is_2d);
                    let sends = self.broadcast(id, payload);
                    (false, sends)
                } else if enabled && (pov == FlipOptions::BothOption || pov
                    == FlipOptions::OthersOption) && listed {
                    let sends = self.broadcast_replace(from, payload, Rewrite::FlipForFlipSet);
                    (false, sends)
                } else {
                    (true, Vec::new())
                }
            },
            _ => (true, Vec::new()),
        }
    }

    /// Handles a decoded packet from entry `from`: its side effects, then
    /// the uniform broadcast unless the handler delivered it itself.
    pub fn packet_builder(&mut self, from: usize, payload: Payload, now: i64) -> (r: Vec<Outgoing>)
        requires
            old(self).wf(),
            from < old(self).clients@.len(),
            payload_valid(payload@),
        ensures
            final(self).wf(),
            final(self).settings == old(self).settings,
            final(self).clients@.len() == old(self).clients@.len(),
            final(self).clients@[from as int].id == old(self).clients@[from as int].id,
            forall|j: int|
                0 <= j < old(self).clients@.len() && j != from ==> #[trigger] final(self).clients@[j]
                    == old(self).clients@[j],
            ({
                let (o, n) = (old(self).clients@[from as int], final(self).clients@[from as int]);
                match payload@ {
                    PayloadView::Game(g) => game_applied(o, n, g),
                    PayloadView::Tag(t) => tag_applied(o, n, t, now),
                    PayloadView::Costume(c) => costume_applied(o, n, c),
                    _ => n == o,
                }
            }),
            forall|k: int|
                0 <= k < r@.len() ==> #[trigger] r@[k].to != old(self).clients@[from as int].id,
            payload@ is Game && old(self).settings.scenario.merge_enabled ==> rewrite_sends(
                final(self).clients@,
                final(self).settings.flip.players@,
                from as int,
                Rewrite::ScenarioMerge,
                payload@,
                r@,
            ),
            payload@ is Player && flips_self(old(self).settings, old(self).clients@[from as int].id)
                ==> uniform_sends(
                final(self).clients@,
                old(self).clients@[from as int].id,
                PayloadView::Player(
                    PlayerPacket::mirrored(
                        payload@->Player_0,
                        old(self).clients@[from as int].metadata.is_2d,
                    ),
                ),
                r@,
            ),
            payload@ is Player && !flips_self(old(self).settings, old(self).clients@[from as int].id)
                && flips_others(old(self).settings, old(self).clients@[from as int].id)
                ==> rewrite_sends(
                final(self).clients@,
                final(self).settings.flip.players@,
                from as int,
                Rewrite::FlipForFlipSet,
                payload@,
                r@,
            ),
            !(payload@ is Game && old(self).settings.scenario.merge_enabled) && !(payload@ is Player
                && (flips_self(old(self).settings, old(self).clients@[from as int].id)
                || flips_others(old(self).settings, old(self).clients@[from as int].id)))
                ==> uniform_sends(final(self).clients@, old(self).clients@[from as int].id, payload@, r@),
    {
        let mut payload = payload;
        let id = self.clients[from].id;
        let (will_send, sends) = self.packet_handler(from, &mut payload, now);
        if will_send {
            let out = self.broadcast(id, &payload);
            out
        } else {
            sends
        }
    }

    /// One step of a connection: what the frame at the start of `data`
    /// does in connection state `state`.
    ///
    /// A framing error closes the connection (an active one's entry is
    /// marked disconnected, nothing else changes). Before the handshake the
    /// frame must be an admissible `Connect`, else the connection closes
    /// with the registry untouched. Once active, a `Disconnect` is passed on
    /// and closes; a kind without a schema is relayed raw if that is
    /// enabled; anything else goes through `packet_builder`. Nothing is ever
    /// sent back to the active connection's own id.
    pub fn handle_request(&mut self, state: ConnState, data: &[u8], now: i64) -> (r: Step)
        requires
            old(self).wf(),
        ensures
            final(self).wf(),
            final(self).settings == old(self).settings,
            state == ConnState::Closed ==> r.state == ConnState::Closed && r.close && r.sends@.len()
                == 0 && final(self).clients@ == old(self).clients@,
            state != ConnState::Closed && frame_of(data@) is Err ==> {
                &&& r.state == ConnState::Closed
                &&& r.close
                &&& r.sends@.len() == 0
                &&& (state matches ConnState::Active(id) ==> disconnected(
                    old(self).clients@,
                    final(self).clients@,
                    id,
                ))
                &&& (state == ConnState::AwaitingHandshake ==> final(self).clients@ == old(
                    self,
                ).clients@)
            },
            state == ConnState::AwaitingHandshake && frame_of(data@) is Ok ==> {
                let h = frame_of(data@)->Ok_0.0;
                if h.packet_type == PacketType::Connect && count_connected(old(self).clients@) < old(
                    self,
                ).settings.server.max_players {
                    &&& r.state == ConnState::Active(h.id)
                    &&& !r.close
                    &&& handshake_bound(
                        old(self).clients@,
                        final(self).clients@,
                        h.id,
                        ConnectPacket::decode(frame_of(data@)->Ok_0.1),
                        now,
                    )
                    &&& count_active(final(self).clients@, h.id) == 1
                    &&& ({
                        let v = ConnectPacket::decode(frame_of(data@)->Ok_0.1);
                        let n = recipients(final(self).clients@, h.id).len();
                        &&& uniform_sends(
                            final(self).clients@,
                            h.id,
                            PayloadView::Connect(v),
                            r.sends@.take(n as int),
                        )
                        &&& v.connection_type == ConnectionTypes::FirstConnection ==> sync_sends(
                            final(self).clients@,
                            h.id,
                            final(self).settings.server.max_players,
                            r.sends@.skip(n as int),
                        )
                        &&& v.connection_type == ConnectionTypes::Reconnecting ==> r.sends@.len() == n
                    })
                } else {
                    &&& r.state == ConnState::Closed
                    &&& r.close
                    &&& r.sends@.len() == 0
                    &&& final(self).clients@ == old(self).clients@
                }
            },
            state matches ConnState::Active(id) ==> {
                &&& forall|k: int| 0 <= k < r.sends@.len() ==> #[trigger] r.sends@[k].to != id
                &&& frame_of(data@) matches Ok((h, p)) ==> {
                    &&& h.packet_type == PacketType::Disconnect ==> r.state == ConnState::Closed
                        && r.close && disconnected(old(self).clients@, final(self).clients@, id)
                    &&& h.packet_type != PacketType::Disconnect ==> {
                        &&& final(self).clients@.len() == old(self).clients@.len()
                        &&& forall|j: int|
                            0 <= j < old(self).clients@.len() && old(self).clients@[j].id != id
                                ==> #[trigger] final(self).clients@[j] == old(self).clients@[j]
                    }
                    &&& (h.packet_type == PacketType::Unknown || h.packet_type
                        == PacketType::Command) ==> {
                        &&& r.state == state
                        &&& !r.close
                        &&& final(self).clients@ == old(self).clients@
                        &&& !old(self).settings.server.relay_unhandled ==> r.sends@.len() == 0
                        &&& old(self).settings.server.relay_unhandled ==> r.sends@.len()
                            == recipients(old(self).clients@, id).len() && forall|k: int|
                            0 <= k < r.sends@.len() ==> #[trigger] r.sends@[k].bytes@
                                == data@.subrange(0, HEADER_SIZE + p.len())
                    }
                    &&& h.packet_type == PacketType::Disconnect && has_id(old(self).clients@, id)
                        ==> uniform_sends(old(self).clients@, id, PayloadView::Disconnect, r.sends@)
                    &&& h.packet_type != PacketType::Disconnect && h.packet_type
                        != PacketType::Unknown && h.packet_type != PacketType::Command && has_id(
                        old(self).clients@,
                        id,
                    ) ==> r.state == state && !r.close
                    &&& h.packet_type != PacketType::Disconnect && h.packet_type
                        != PacketType::Unknown && h.packet_type != PacketType::Command && has_id(
                        old(self).clients@,
                        id,
                    ) && !(decode_payload(h.packet_type, p) is Game
                        && old(self).settings.scenario.merge_enabled) && !(decode_payload(
                        h.packet_type,
                        p,
                    ) is Player && (flips_self(old(self).settings, id) || flips_others(
                        old(self).settings,
                        id,
                    ))) ==> uniform_sends(
                        final(self).clients@,
                        id,
                        decode_payload(h.packet_type, p),
                        r.sends@,
                    )
                }
            },
    {
        let id = match state {
            ConnState::Closed => {
                return Step { state: ConnState::Closed, sends: Vec::new(), close: true };
            },
            ConnState::AwaitingHandshake => None,
            ConnState::Active(id) => Some(id),
        };
        let (header, body) = match split_frame(data) {
            Ok(f) => f,
            Err(_) => {
                match id {
                    Some(id) => self.mark_disconnected(id),
                    None => {},
                }
                return Step { state: ConnState::Closed, sends: Vec::new(), close: true };
            },
        };
        match id {
            None => {
                if header.packet_type != PacketType::Connect {
                    return Step { state: ConnState::Closed, sends: Vec::new(), close: true };
                }
                let connect = ConnectPacket::deserialize(body.as_slice());
                match self.handshake(&header, &connect, now) {
                    Ok(sends) => Step { state: ConnState::Active(header.id), sends, close: false },
                    Err(_) => Step { state: ConnState::Closed, sends: Vec::new(), close: true },
                }
            },
            Some(id) => {
                let t = header.packet_type;
                if t == PacketType::Unknown || t == PacketType::Command {
                    if self.settings.server.relay_unhandled {
                        let frame = &data[0..HEADER_SIZE + body.len()];
                        assert(frame@ =~= data@.subrange(0, HEADER_SIZE + body@.len()));
                        let sends = self.broadcast_raw(id, frame);
                        return Step { state, sends, close: false };
                    }
                    return Step { state, sends: Vec::new(), close: false };
                }
                match self.find_by_session(id) {
                    None => Step { state: ConnState::Closed, sends: Vec::new(), close: true },
                    Some(from) => {
                        proof {
                            lemma_decoded_valid(t, body@);
                        }
                        let payload = Payload::deserialize(t, body.as_slice());
                        if t == PacketType::Disconnect {
                            let sends = self.broadcast(id, &payload);
                            self.mark_disconnected(id);
                            Step { state: ConnState::Closed, sends, close: true }
                        } else {
                            let sends = self.packet_builder(from, payload, now);
                            assert forall|j: int|
                                0 <= j < old(self).clients@.len() && old(self).clients@[j].id
                                    != id implies j != from by {}
                            Step { state, sends, close: false }
                        }
                    },
                }
            },
        }
    }
}

impl Server {
    /// The connection's socket failed or reached its end: an active
    /// connection's entry is marked disconnected; the connection is closed.
    pub fn connection_lost(&mut self, state: ConnState) -> (r: ConnState)
        requires
            old(self).wf(),
        ensures
            final(self).wf(),
            final(self).settings == old(self).settings,
            r == ConnState::Closed,
            state matches ConnState::Active(id) ==> disconnected(
                old(self).clients@,
                final(self).clients@,
                id,
            ),
            !(state is Active) ==> final(self).clients@ == old(self).clients@,
    {
        match state {
            ConnState::Active(id) => self.mark_disconnected(id),
            _ => {},
        }
        ConnState::Closed
    }
}

} // verus!
