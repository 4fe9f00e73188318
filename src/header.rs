//! The fixed 20-byte header in front of every payload.
//!
//! Layout: bytes 0..16 the session id (big-endian, as a UUID is written),
//! 16..18 the packet kind's tag, 18..20 the payload size as a signed 16-bit
//! number.

use crate::packet_type::PacketType;
use crate::wire::{from_i16_bits, i16_bits, i16_of_bits, le16, lemma_i16_bits_round_trip, lemma_le16_round_trip, push_u16, read_u16, to_i16_bits, u16_at};
use vstd::prelude::*;

verus! {

pub const SIZE: usize = 20;

/// Capacity of the buffer one frame (header and payload) must fit in.
pub const BUFFER_SIZE: usize = 1024;

/// Stable 128-bit identity of one logical player.
#[derive(Clone, Copy, PartialEq, Eq, Structural, Debug)]
pub struct SessionId {
    pub value: u128,
}

/// The sixteen bytes of an id, most significant first.
pub open spec fn id_bytes(id: SessionId) -> Seq<u8> {
    let v = id.value;
    seq![
        (v >> 120u128) as u8,
        ((v >> 112u128) & 0xff) as u8,
        ((v >> 104u128) & 0xff) as u8,
        ((v >> 96u128) & 0xff) as u8,
        ((v >> 88u128) & 0xff) as u8,
        ((v >> 80u128) & 0xff) as u8,
        ((v >> 72u128) & 0xff) as u8,
        ((v >> 64u128) & 0xff) as u8,
        ((v >> 56u128) & 0xff) as u8,
        ((v >> 48u128) & 0xff) as u8,
        ((v >> 40u128) & 0xff) as u8,
        ((v >> 32u128) & 0xff) as u8,
        ((v >> 24u128) & 0xff) as u8,
        ((v >> 16u128) & 0xff) as u8,
        ((v >> 8u128) & 0xff) as u8,
        (v & 0xff) as u8,
    ]
}

/// The id written in `b[0..16]`.
pub open spec fn id_at(b: Seq<u8>) -> SessionId {
    SessionId {
        value: ((b[0] as u128) << 120u128) | ((b[1] as u128) << 112u128) | ((b[2] as u128)
            << 104u128) | ((b[3] as u128) << 96u128) | ((b[4] as u128) << 88u128) | ((b[5] as u128)
            << 80u128) | ((b[6] as u128) << 72u128) | ((b[7] as u128) << 64u128) | ((b[8] as u128)
            << 56u128) | ((b[9] as u128) << 48u128) | ((b[10] as u128) << 40u128) | ((b[11] as u128)
            << 32u128) | ((b[12] as u128) << 24u128) | ((b[13] as u128) << 16u128) | ((b[14] as u128)
            << 8u128) | (b[15] as u128),
    }
}

pub struct PacketHeader {
    pub id: SessionId,
    pub packet_type: PacketType,
    pub packet_size: i16,
}

/// The twenty header bytes.
pub open spec fn header_bytes(h: PacketHeader) -> Seq<u8> {
    id_bytes(h.id) + le16(h.packet_type.spec_tag()) + le16(i16_bits(h.packet_size))
}

/// The header written in `b[0..20]`.
pub open spec fn header_at(b: Seq<u8>) -> PacketHeader {
    PacketHeader {
        id: id_at(b),
        packet_type: PacketType::spec_from_tag(u16_at(b, 16)),
        packet_size: i16_of_bits(u16_at(b, 18)),
    }
}

proof fn lemma_id_round_trip(id: SessionId, rest: Seq<u8>)
    ensures
        id_bytes(id).len() == 16,
        id_at(id_bytes(id) + rest) == id,
{
    let b = id_bytes(id) + rest;
    let v = id.value;
    let b0 = b[0];
    let b1 = b[1];
    let b2 = b[2];
    let b3 = b[3];
    let b4 = b[4];
    let b5 = b[5];
    let b6 = b[6];
    let b7 = b[7];
    let b8 = b[8];
    let b9 = b[9];
    let b10 = b[10];
    let b11 = b[11];
    let b12 = b[12];
    let b13 = b[13];
    let b14 = b[14];
    let b15 = b[15];
    assert(((b0 as u128) << 120u128) | ((b1 as u128) << 112u128) | ((b2 as u128) << 104u128) | ((
    b3 as u128) << 96u128) | ((b4 as u128) << 88u128) | ((b5 as u128) << 80u128) | ((b6 as u128)
        << 72u128) | ((b7 as u128) << 64u128) | ((b8 as u128) << 56u128) | ((b9 as u128) << 48u128)
        | ((b10 as u128) << 40u128) | ((b11 as u128) << 32u128) | ((b12 as u128) << 24u128) | ((
    b13 as u128) << 16u128) | ((b14 as u128) << 8u128) | (b15 as u128) == v) by (bit_vector)
        requires
            b0 == (v >> 120u128) as u8,
            b1 == ((v >> 112u128) & 0xff) as u8,
            b2 == ((v >> 104u128) & 0xff) as u8,
            b3 == ((v >> 96u128) & 0xff) as u8,
            b4 == ((v >> 88u128) & 0xff) as u8,
            b5 == ((v >> 80u128) & 0xff) as u8,
            b6 == ((v >> 72u128) & 0xff) as u8,
            b7 == ((v >> 64u128) & 0xff) as u8,
            b8 == ((v >> 56u128) & 0xff) as u8,
            b9 == ((v >> 48u128) & 0xff) as u8,
            b10 == ((v >> 40u128) & 0xff) as u8,
            b11 == ((v >> 32u128) & 0xff) as u8,
            b12 == ((v >> 24u128) & 0xff) as u8,
            b13 == ((v >> 16u128) & 0xff) as u8,
            b14 == ((v >> 8u128) & 0xff) as u8,
            b15 == (v & 0xff) as u8,
    ;
}

/// Any header survives being written and read back, whatever follows it.
pub proof fn lemma_header_round_trip(h: PacketHeader, rest: Seq<u8>)
    ensures
        header_bytes(h).len() == SIZE,
        header_at(header_bytes(h) + rest) == h,
{
    let id = id_bytes(h.id);
    let t = le16(h.packet_type.spec_tag());
    let s = le16(i16_bits(h.packet_size));
    lemma_id_round_trip(h.id, t + s + rest);
    lemma_le16_round_trip(h.packet_type.spec_tag(), s + rest, id);
    lemma_le16_round_trip(i16_bits(h.packet_size), rest, id + t);
    lemma_i16_bits_round_trip(h.packet_size);
    assert(header_bytes(h) + rest =~= id + (t + s + rest));
    assert(header_bytes(h) + rest =~= id + t + (s + rest));
    assert(header_bytes(h) + rest =~= (id + t) + s + rest);
}

/// Appends the sixteen bytes of an id.
pub fn push_id(out: &mut Vec<u8>, id: SessionId)
    ensures
        final(out)@ == old(out)@ + id_bytes(id),
{
    let v = id.value;
    out.push((v >> 120u128) as u8);
    out.push(((v >> 112u128) & 0xff) as u8);
    out.push(((v >> 104u128) & 0xff) as u8);
    out.push(((v >> 96u128) & 0xff) as u8);
    out.push(((v >> 88u128) & 0xff) as u8);
    out.push(((v >> 80u128) & 0xff) as u8);
    out.push(((v >> 72u128) & 0xff) as u8);
    out.push(((v >> 64u128) & 0xff) as u8);
    out.push(((v >> 56u128) & 0xff) as u8);
    out.push(((v >> 48u128) & 0xff) as u8);
    out.push(((v >> 40u128) & 0xff) as u8);
    out.push(((v >> 32u128) & 0xff) as u8);
    out.push(((v >> 24u128) & 0xff) as u8);
    out.push(((v >> 16u128) & 0xff) as u8);
    out.push(((v >> 8u128) & 0xff) as u8);
    out.push((v & 0xff) as u8);
    assert(final(out)@ =~= old(out)@ + id_bytes(id));
}

/// Reads the id written in `data[0..16]`.
pub fn read_id(data: &[u8]) -> (r: SessionId)
    requires
        data@.len() >= 16,
    ensures
        r == id_at(data@),
{
    SessionId {
        value: ((data[0] as u128) << 120u128) | ((data[1] as u128) << 112u128) | ((data[2] as u128)
            << 104u128) | ((data[3] as u128) << 96u128) | ((data[4] as u128) << 88u128) | ((
        data[5] as u128) << 80u128) | ((data[6] as u128) << 72u128) | ((data[7] as u128)
            << 64u128) | ((data[8] as u128) << 56u128) | ((data[9] as u128) << 48u128) | ((
        data[10] as u128) << 40u128) | ((data[11] as u128) << 32u128) | ((data[12] as u128)
            << 24u128) | ((data[13] as u128) << 16u128) | ((data[14] as u128) << 8u128) | (
        data[15] as u128),
    }
}

impl PacketHeader {
    /// The twenty header bytes.
    pub fn serialize(&self) -> (r: Vec<u8>)
        ensures
            r@ == header_bytes(*self),
            r@.len() == SIZE,
    {
        let mut out: Vec<u8> = Vec::new();
        push_id(&mut out, self.id);
        push_u16(&mut out, self.packet_type.tag());
        push_u16(&mut out, to_i16_bits(self.packet_size));
        proof {
            lemma_header_round_trip(*self, Seq::empty());
        }
        assert(out@ =~= header_bytes(*self));
        out
    }

    /// Reads the header at the start of `data`.
    pub fn deserialize(data: &[u8]) -> (r: PacketHeader)
        requires
            data@.len() >= SIZE,
        ensures
            r == header_at(data@),
    {
        PacketHeader {
            id: read_id(data),
            packet_type: PacketType::from_tag(read_u16(data, 16)),
            packet_size: from_i16_bits(read_u16(data, 18)),
        }
    }
}

} // verus!
