//! Payloads that carry 3D positions and orientations, and the mirror
//! transform of flip mode.
//!
//! A coordinate is a 32-bit float on the wire. The relay never does float
//! arithmetic: it keeps each component as its IEEE-754 bit pattern (`u32`),
//! which round-trips exactly, and the mirror transform only moves components
//! and flips sign bits.

use crate::text::{field_text, fixed_text, lemma_field_text_fits, lemma_text_at, push_text, read_text, text_fits};
use crate::wire::{
    bool_byte, bool_to_byte, byte_bool, byte_to_bool, le16, le32, lemma_le16_round_trip,
    lemma_le32_round_trip, push_u16, push_u32, push_zeros, read_u16, read_u32, u16_at, u32_at,
};
use vstd::prelude::*;

verus! {

/// Float bit pattern of 0.0.
pub const ZERO_BITS: u32 = 0;

/// Float bit pattern of 160.0, the player height in 3D sections.
pub const HEIGHT_3D_BITS: u32 = 0x4320_0000;

/// Float bit pattern of 180.0, the player height in 2D sections.
pub const HEIGHT_2D_BITS: u32 = 0x4334_0000;

pub const ANIMATION_WEIGHT_SIZE: usize = 6;

pub const ANIMATION_SIZE: usize = 0x30;

/// A position: x, y, z as float bit patterns.
#[derive(Clone, Copy, PartialEq, Eq, Structural, Debug)]
pub struct Vector3 {
    pub x: u32,
    pub y: u32,
    pub z: u32,
}

/// An orientation: w, i, j, k as float bit patterns.
#[derive(Clone, Copy, PartialEq, Eq, Structural, Debug)]
pub struct Quaternion {
    pub w: u32,
    pub i: u32,
    pub j: u32,
    pub k: u32,
}

pub open spec fn vec3_bytes(v: Vector3) -> Seq<u8> {
    le32(v.x) + le32(v.y) + le32(v.z)
}

pub open spec fn vec3_at(b: Seq<u8>, o: int) -> Vector3 {
    Vector3 { x: u32_at(b, o), y: u32_at(b, o + 4), z: u32_at(b, o + 8) }
}

pub open spec fn quat_bytes(q: Quaternion) -> Seq<u8> {
    le32(q.w) + le32(q.i) + le32(q.j) + le32(q.k)
}

pub open spec fn quat_at(b: Seq<u8>, o: int) -> Quaternion {
    Quaternion { w: u32_at(b, o), i: u32_at(b, o + 4), j: u32_at(b, o + 8), k: u32_at(b, o + 12) }
}

proof fn lemma_vec3_at(pre: Seq<u8>, v: Vector3, rest: Seq<u8>)
    ensures
        vec3_bytes(v).len() == 12,
        vec3_at(pre + vec3_bytes(v) + rest, pre.len() as int) == v,
{
    let (a, b, c) = (le32(v.x), le32(v.y), le32(v.z));
    let all = pre + vec3_bytes(v) + rest;
    lemma_le32_round_trip(v.x, b + c + rest, pre);
    assert(pre + a + (b + c + rest) =~= all);
    lemma_le32_round_trip(v.y, c + rest, pre + a);
    assert(pre + a + b + (c + rest) =~= all);
    lemma_le32_round_trip(v.z, rest, pre + a + b);
    assert(pre + a + b + c + rest =~= all);
}

proof fn lemma_quat_at(pre: Seq<u8>, q: Quaternion, rest: Seq<u8>)
    ensures
        quat_bytes(q).len() == 16,
        quat_at(pre + quat_bytes(q) + rest, pre.len() as int) == q,
{
    let (a, b, c, d) = (le32(q.w), le32(q.i), le32(q.j), le32(q.k));
    let all = pre + quat_bytes(q) + rest;
    lemma_le32_round_trip(q.w, b + c + d + rest, pre);
    assert(pre + a + (b + c + d + rest) =~= all);
    lemma_le32_round_trip(q.i, c + d + rest, pre + a);
    assert(pre + a + b + (c + d + rest) =~= all);
    lemma_le32_round_trip(q.j, d + rest, pre + a + b);
    assert(pre + a + b + c + (d + rest) =~= all);
    lemma_le32_round_trip(q.k, rest, pre + a + b + c);
    assert(pre + a + b + c + d + rest =~= all);
}

fn push_vec3(out: &mut Vec<u8>, v: Vector3)
    ensures
        final(out)@ == old(out)@ + vec3_bytes(v),
{
    push_u32(out, v.x);
    push_u32(out, v.y);
    push_u32(out, v.z);
    assert(final(out)@ =~= old(out)@ + vec3_bytes(v));
}

fn push_quat(out: &mut Vec<u8>, q: Quaternion)
    ensures
        final(out)@ == old(out)@ + quat_bytes(q),
{
    push_u32(out, q.w);
    push_u32(out, q.i);
    push_u32(out, q.j);
    push_u32(out, q.k);
    assert(final(out)@ =~= old(out)@ + quat_bytes(q));
}

fn read_vec3(data: &[u8], o: usize) -> (r: Vector3)
    requires
        o + 12 <= data@.len(),
    ensures
        r == vec3_at(data@, o as int),
{
    let _ = data.len();
    Vector3 { x: read_u32(data, o), y: read_u32(data, o + 4), z: read_u32(data, o + 8) }
}

fn read_quat(data: &[u8], o: usize) -> (r: Quaternion)
    requires
        o + 16 <= data@.len(),
    ensures
        r == quat_at(data@, o as int),
{
    let _ = data.len();
    Quaternion {
        w: read_u32(data, o),
        i: read_u32(data, o + 4),
        j: read_u32(data, o + 8),
        k: read_u32(data, o + 12),
    }
}

// ---------------------------------------------------------------- mirror transform

/// A float with its sign flipped.
pub open spec fn neg_bits(x: u32) -> u32 {
    x ^ 0x8000_0000u32
}

/// The quaternion with every component negated: the same rotation.
pub open spec fn negated(q: Quaternion) -> Quaternion {
    Quaternion { w: neg_bits(q.w), i: neg_bits(q.i), j: neg_bits(q.j), k: neg_bits(q.k) }
}

/// `q` composed with a half-turn about x and then a half-turn about y.
/// Those two make a half-turn about z, the unit quaternion `k`, and
/// `(w, i, j, k) * k = (-k, j, -i, w)`.
pub open spec fn half_turns(q: Quaternion) -> Quaternion {
    Quaternion { w: neg_bits(q.k), i: q.j, j: neg_bits(q.i), k: q.w }
}

/// Two quaternions that stand for the same rotation.
pub open spec fn same_rotation(a: Quaternion, b: Quaternion) -> bool {
    a == b || a == negated(b)
}

/// Float bit pattern of the player height in a 2D or a 3D section.
pub open spec fn player_height(is_2d: bool) -> u32 {
    if is_2d {
        HEIGHT_2D_BITS
    } else {
        HEIGHT_3D_BITS
    }
}

/// Where a mirrored player stands: `(0, height, 0)`.
pub open spec fn mirrored_position(is_2d: bool) -> Vector3 {
    Vector3 { x: ZERO_BITS, y: player_height(is_2d), z: ZERO_BITS }
}

/// Player height for the mirror transform, by the 2D/3D state of the
/// player whose data is mirrored.
pub fn mario_size(is_2d: bool) -> (r: u32)
    ensures
        r == player_height(is_2d),
{
    if is_2d {
        HEIGHT_2D_BITS
    } else {
        HEIGHT_3D_BITS
    }
}

pub fn flip_sign(x: u32) -> (r: u32)
    ensures
        r == neg_bits(x),
{
    x ^ 0x8000_0000u32
}

/// Composes a rotation with the two half-turns of the mirror transform.
pub fn turn_half(q: Quaternion) -> (r: Quaternion)
    ensures
        r == half_turns(q),
{
    Quaternion { w: flip_sign(q.k), i: q.j, j: flip_sign(q.i), k: q.w }
}

proof fn lemma_neg_bits_twice(x: u32)
    ensures
        neg_bits(neg_bits(x)) == x,
{
    assert((x ^ 0x8000_0000u32) ^ 0x8000_0000u32 == x) by (bit_vector);
}

/// Applying the two half-turns twice gives the negated quaternion, which is
/// the same rotation; four times gives back the very same components.
pub proof fn lemma_half_turns_twice(q: Quaternion)
    ensures
        half_turns(half_turns(q)) == negated(q),
        same_rotation(half_turns(half_turns(q)), q),
        half_turns(half_turns(half_turns(half_turns(q)))) == q,
{
    lemma_neg_bits_twice(q.w);
    lemma_neg_bits_twice(q.i);
    lemma_neg_bits_twice(q.j);
    lemma_neg_bits_twice(q.k);
}

// ---------------------------------------------------------------- Player

/// Where a player is and how it moves.
#[derive(Clone, Copy)]
pub struct PlayerPacket {
    pub position: Vector3,
    pub rotation: Quaternion,
    pub animation_blend_weights: [u32; ANIMATION_WEIGHT_SIZE],
    pub act: u16,
    pub sub_act: u16,
}

/// Model of a player packet: the weights as a sequence.
pub struct PlayerView {
    pub position: Vector3,
    pub rotation: Quaternion,
    pub animation_blend_weights: Seq<u32>,
    pub act: u16,
    pub sub_act: u16,
}

impl View for PlayerPacket {
    type V = PlayerView;

    open spec fn view(&self) -> PlayerView {
        PlayerView {
            position: self.position,
            rotation: self.rotation,
            animation_blend_weights: self.animation_blend_weights@,
            act: self.act,
            sub_act: self.sub_act,
        }
    }
}

/// The six blend weights, four bytes each.
pub open spec fn weights_bytes(w: Seq<u32>) -> Seq<u8> {
    le32(w[0]) + le32(w[1]) + le32(w[2]) + le32(w[3]) + le32(w[4]) + le32(w[5])
}

pub open spec fn weights_at(b: Seq<u8>, o: int) -> Seq<u32> {
    seq![
        u32_at(b, o),
        u32_at(b, o + 4),
        u32_at(b, o + 8),
        u32_at(b, o + 12),
        u32_at(b, o + 16),
        u32_at(b, o + 20),
    ]
}

/// The bytes of the six blend weights.
pub fn convert_u32_to_u8(source: &[u32; ANIMATION_WEIGHT_SIZE]) -> (r: Vec<u8>)
    ensures
        r@ == weights_bytes(source@),
{
    let mut out: Vec<u8> = Vec::new();
    push_u32(&mut out, source[0]);
    push_u32(&mut out, source[1]);
    push_u32(&mut out, source[2]);
    push_u32(&mut out, source[3]);
    push_u32(&mut out, source[4]);
    push_u32(&mut out, source[5]);
    assert(out@ =~= weights_bytes(source@));
    out
}

fn as_u32_ne(data: &[u8], o: usize) -> (r: [u32; ANIMATION_WEIGHT_SIZE])
    requires
        o + 24 <= data@.len(),
    ensures
        r@ == weights_at(data@, o as int),
{
    let _ = data.len();
    let r = [
        read_u32(data, o),
        read_u32(data, o + 4),
        read_u32(data, o + 8),
        read_u32(data, o + 12),
        read_u32(data, o + 16),
        read_u32(data, o + 20),
    ];
    assert(r@ =~= weights_at(data@, o as int));
    r
}

proof fn lemma_weights_at(pre: Seq<u8>, w: Seq<u32>, rest: Seq<u8>)
    requires
        w.len() == ANIMATION_WEIGHT_SIZE,
    ensures
        weights_bytes(w).len() == 24,
        weights_at(pre + weights_bytes(w) + rest, pre.len() as int) == w,
{
    let b = seq![le32(w[0]), le32(w[1]), le32(w[2]), le32(w[3]), le32(w[4]), le32(w[5])];
    let all = pre + weights_bytes(w) + rest;
    lemma_le32_round_trip(w[0], b[1] + b[2] + b[3] + b[4] + b[5] + rest, pre);
    assert(pre + b[0] + (b[1] + b[2] + b[3] + b[4] + b[5] + rest) =~= all);
    lemma_le32_round_trip(w[1], b[2] + b[3] + b[4] + b[5] + rest, pre + b[0]);
    assert(pre + b[0] + b[1] + (b[2] + b[3] + b[4] + b[5] + rest) =~= all);
    lemma_le32_round_trip(w[2], b[3] + b[4] + b[5] + rest, pre + b[0] + b[1]);
    assert(pre + b[0] + b[1] + b[2] + (b[3] + b[4] + b[5] + rest) =~= all);
    lemma_le32_round_trip(w[3], b[4] + b[5] + rest, pre + b[0] + b[1] + b[2]);
    assert(pre + b[0] + b[1] + b[2] + b[3] + (b[4] + b[5] + rest) =~= all);
    lemma_le32_round_trip(w[4], b[5] + rest, pre + b[0] + b[1] + b[2] + b[3]);
    assert(pre + b[0] + b[1] + b[2] + b[3] + b[4] + (b[5] + rest) =~= all);
    lemma_le32_round_trip(w[5], rest, pre + b[0] + b[1] + b[2] + b[3] + b[4]);
    assert(pre + b[0] + b[1] + b[2] + b[3] + b[4] + b[5] + rest =~= all);
    assert(weights_at(all, pre.len() as int) =~= w);
}

impl PlayerPacket {
    pub const SIZE: usize = 0x38;

    pub open spec fn valid(v: PlayerView) -> bool {
        v.animation_blend_weights.len() == ANIMATION_WEIGHT_SIZE
    }

    pub open spec fn encode(v: PlayerView) -> Seq<u8> {
        vec3_bytes(v.position) + quat_bytes(v.rotation) + weights_bytes(v.animation_blend_weights)
            + le16(v.act) + le16(v.sub_act)
    }

    pub open spec fn decode(b: Seq<u8>) -> PlayerView {
        PlayerView {
            position: vec3_at(b, 0),
            rotation: quat_at(b, 12),
            animation_blend_weights: weights_at(b, 28),
            act: u16_at(b, 52),
            sub_act: u16_at(b, 54),
        }
    }

    /// The player seen mirrored: standing at `(0, height, 0)` for the
    /// height of `is_2d`, rotation composed with the two half-turns.
    pub open spec fn mirrored(v: PlayerView, is_2d: bool) -> PlayerView {
        PlayerView { position: mirrored_position(is_2d), rotation: half_turns(v.rotation), ..v }
    }

    pub fn serialize(&self) -> (r: Vec<u8>)
        ensures
            r@ == Self::encode(self@),
    {
        let mut out: Vec<u8> = Vec::new();
        push_vec3(&mut out, self.position);
        push_quat(&mut out, self.rotation);
        let w = convert_u32_to_u8(&self.animation_blend_weights);
        let mut k: usize = 0;
        let ghost start = out@;
        while k < w.len()
            invariant
                k <= w@.len(),
                out@ == start + w@.take(k as int),
            decreases w@.len() - k,
        {
            out.push(w[k]);
            k = k + 1;
            assert(out@ =~= start + w@.take(k as int));
        }
        assert(w@.take(w@.len() as int) =~= w@);
        push_u16(&mut out, self.act);
        push_u16(&mut out, self.sub_act);
        assert(out@ =~= Self::encode(self@));
        out
    }

    pub fn deserialize(data: &[u8]) -> (r: PlayerPacket)
        requires
            data@.len() >= Self::SIZE,
        ensures
            r@ == Self::decode(data@),
    {
        PlayerPacket {
            position: read_vec3(data, 0),
            rotation: read_quat(data, 12),
            animation_blend_weights: as_u32_ne(data, 28),
            act: read_u16(data, 52),
            sub_act: read_u16(data, 54),
        }
    }

    /// Applies the mirror transform in place.
    pub fn mirror(&mut self, is_2d: bool)
        ensures
            final(self)@ == Self::mirrored(old(self)@, is_2d),
    {
        let h = mario_size(is_2d);
        self.position = Vector3 { x: ZERO_BITS, y: h, z: ZERO_BITS };
        self.rotation = turn_half(self.rotation);
    }

    pub proof fn lemma_round_trip(v: PlayerView)
        requires
            Self::valid(v),
        ensures
            Self::encode(v).len() == Self::SIZE,
            Self::decode(Self::encode(v)) == v,
    {
        let a = vec3_bytes(v.position);
        let b = quat_bytes(v.rotation);
        let c = weights_bytes(v.animation_blend_weights);
        let d = le16(v.act);
        let e = le16(v.sub_act);
        let all = Self::encode(v);
        lemma_vec3_at(Seq::empty(), v.position, b + c + d + e);
        assert(Seq::<u8>::empty() + a + (b + c + d + e) =~= all);
        lemma_quat_at(a, v.rotation, c + d + e);
        assert(a + b + (c + d + e) =~= all);
        lemma_weights_at(a + b, v.animation_blend_weights, d + e);
        assert(a + b + c + (d + e) =~= all);
        lemma_le16_round_trip(v.act, e, a + b + c);
        assert(a + b + c + d + e =~= all);
        lemma_le16_round_trip(v.sub_act, Seq::empty(), a + b + c + d);
        assert(a + b + c + d + e + Seq::<u8>::empty() =~= all);
    }
}

/// Mirroring twice leaves the player at the mirrored position and turns its
/// rotation into the negated quaternion, the same rotation it started with;
/// mirroring four times restores the rotation component for component.
pub proof fn lemma_mirror_twice(v: PlayerView, a: bool, b: bool)
    ensures
        PlayerPacket::mirrored(PlayerPacket::mirrored(v, a), b).position == mirrored_position(b),
        PlayerPacket::mirrored(PlayerPacket::mirrored(v, a), b).rotation == negated(v.rotation),
        same_rotation(PlayerPacket::mirrored(PlayerPacket::mirrored(v, a), b).rotation, v.rotation),
        PlayerPacket::mirrored(
            PlayerPacket::mirrored(PlayerPacket::mirrored(PlayerPacket::mirrored(v, a), b), a),
            b,
        ).rotation == v.rotation,
{
    lemma_half_turns_twice(v.rotation);
}

// ---------------------------------------------------------------- Cap

/// The thrown cap: where it is, whether it is out, its animation.
pub struct CapPacket {
    pub position: Vector3,
    pub rotation: Quaternion,
    pub cap_out: bool,
    pub cap_animation: String,
}

pub struct CapView {
    pub position: Vector3,
    pub rotation: Quaternion,
    pub cap_out: bool,
    pub cap_animation: Seq<char>,
}

impl View for CapPacket {
    type V = CapView;

    open spec fn view(&self) -> CapView {
        CapView {
            position: self.position,
            rotation: self.rotation,
            cap_out: self.cap_out,
            cap_animation: self.cap_animation@,
        }
    }
}

impl CapPacket {
    pub const SIZE: usize = 0x50;

    pub open spec fn valid(v: CapView) -> bool {
        text_fits(v.cap_animation, ANIMATION_SIZE as nat)
    }

    pub open spec fn encode(v: CapView) -> Seq<u8> {
        vec3_bytes(v.position) + quat_bytes(v.rotation) + seq![bool_byte(v.cap_out), 0u8, 0u8, 0u8]
            + fixed_text(v.cap_animation, ANIMATION_SIZE as nat)
    }

    pub open spec fn decode(b: Seq<u8>) -> CapView {
        CapView {
            position: vec3_at(b, 0),
            rotation: quat_at(b, 12),
            cap_out: byte_bool(b[28]),
            cap_animation: field_text(b.subrange(32, 32 + ANIMATION_SIZE)),
        }
    }

    pub fn serialize(&self) -> (r: Vec<u8>)
        ensures
            r@ == Self::encode(self@),
    {
        let mut out: Vec<u8> = Vec::new();
        push_vec3(&mut out, self.position);
        push_quat(&mut out, self.rotation);
        out.push(bool_to_byte(self.cap_out));
        push_zeros(&mut out, 3);
        push_text(&mut out, self.cap_animation.as_str(), ANIMATION_SIZE);
        assert(out@ =~= Self::encode(self@));
        out
    }

    pub fn deserialize(data: &[u8]) -> (r: CapPacket)
        requires
            data@.len() >= Self::SIZE,
        ensures
            r@ == Self::decode(data@),
    {
        CapPacket {
            position: read_vec3(data, 0),
            rotation: read_quat(data, 12),
            cap_out: byte_to_bool(data[28]),
            cap_animation: read_text(data, 32, ANIMATION_SIZE),
        }
    }

    pub proof fn lemma_round_trip(v: CapView)
        requires
            Self::valid(v),
        ensures
            Self::encode(v).len() == Self::SIZE,
            Self::decode(Self::encode(v)) == v,
    {
        let a = vec3_bytes(v.position);
        let b = quat_bytes(v.rotation);
        let c = seq![bool_byte(v.cap_out), 0u8, 0u8, 0u8];
        let d = fixed_text(v.cap_animation, ANIMATION_SIZE as nat);
        let all = Self::encode(v);
        lemma_vec3_at(Seq::empty(), v.position, b + c + d);
        assert(Seq::<u8>::empty() + a + (b + c + d) =~= all);
        lemma_quat_at(a, v.rotation, c + d);
        assert(a + b + (c + d) =~= all);
        lemma_text_at(a + b + c, v.cap_animation, ANIMATION_SIZE as nat, Seq::empty());
        assert(a + b + c + d + Seq::<u8>::empty() =~= all);
    }

    pub proof fn lemma_decode_valid(b: Seq<u8>)
        requires
            b.len() >= Self::SIZE,
        ensures
            Self::valid(Self::decode(b)),
    {
        lemma_field_text_fits(b.subrange(32, 32 + ANIMATION_SIZE));
    }
}

} // verus!
