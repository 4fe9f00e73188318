//! Any payload, tagged by its kind, and whole frames (header + payload).

use crate::constants::{packet_name, type_to_packet_map};
use crate::header::{header_at, header_bytes, lemma_header_round_trip, PacketHeader, SessionId, BUFFER_SIZE, SIZE as HEADER_SIZE};
use crate::motion::{CapPacket, CapView, PlayerPacket, PlayerView};
use crate::packet_type::PacketType;
use crate::packets::{
    CapturePacket, CaptureView, ChangeStagePacket, ChangeStageView, ConnectPacket, ConnectView,
    CostumePacket, CostumeView, DisconnectPacket, GamePacket, GameView, InitPacket, ShinePacket,
    TagPacket, UnhandledPacket,
};
use vstd::prelude::*;

verus! {

/// A decoded payload of any kind.
pub enum Payload {
    Init(InitPacket),
    Player(PlayerPacket),
    Cap(CapPacket),
    Game(GamePacket),
    Tag(TagPacket),
    Connect(ConnectPacket),
    Disconnect(DisconnectPacket),
    Costume(CostumePacket),
    Shine(ShinePacket),
    Capture(CapturePacket),
    ChangeStage(ChangeStagePacket),
    Unhandled(UnhandledPacket),
}

/// Model of a payload.
pub enum PayloadView {
    Init(InitPacket),
    Player(PlayerView),
    Cap(CapView),
    Game(GameView),
    Tag(TagPacket),
    Connect(ConnectView),
    Disconnect,
    Costume(CostumeView),
    Shine(ShinePacket),
    Capture(CaptureView),
    ChangeStage(ChangeStageView),
    Unhandled,
}

impl View for Payload {
    type V = PayloadView;

    open spec fn view(&self) -> PayloadView {
        match self {
            Payload::Init(p) => PayloadView::Init(*p),
            Payload::Player(p) => PayloadView::Player(p@),
            Payload::Cap(p) => PayloadView::Cap(p@),
            Payload::Game(p) => PayloadView::Game(p@),
            Payload::Tag(p) => PayloadView::Tag(*p),
            Payload::Connect(p) => PayloadView::Connect(p@),
            Payload::Disconnect(_) => PayloadView::Disconnect,
            Payload::Costume(p) => PayloadView::Costume(p@),
            Payload::Shine(p) => PayloadView::Shine(*p),
            Payload::Capture(p) => PayloadView::Capture(p@),
            Payload::ChangeStage(p) => PayloadView::ChangeStage(p@),
            Payload::Unhandled(_) => PayloadView::Unhandled,
        }
    }
}

/// Kind of a payload; an unhandled one goes as `Unknown`.
pub open spec fn payload_type(v: PayloadView) -> PacketType {
    match v {
        PayloadView::Init(_) => PacketType::Init,
        PayloadView::Player(_) => PacketType::Player,
        PayloadView::Cap(_) => PacketType::Cap,
        PayloadView::Game(_) => PacketType::Game,
        PayloadView::Tag(_) => PacketType::Tag,
        PayloadView::Connect(_) => PacketType::Connect,
        PayloadView::Disconnect => PacketType::Disconnect,
        PayloadView::Costume(_) => PacketType::Costume,
        PayloadView::Shine(_) => PacketType::Shine,
        PayloadView::Capture(_) => PacketType::Capture,
        PayloadView::ChangeStage(_) => PacketType::ChangeStage,
        PayloadView::Unhandled => PacketType::Unknown,
    }
}

/// Payload size of a kind; zero for the kinds without a schema.
pub open spec fn payload_size(t: PacketType) -> nat {
    match t.spec_wire_size() {
        Some(n) => n,
        None => 0,
    }
}

/// Field values every schema can carry: texts that fit their fields, six
/// blend weights.
pub open spec fn payload_valid(v: PayloadView) -> bool {
    match v {
        PayloadView::Player(p) => PlayerPacket::valid(p),
        PayloadView::Cap(p) => CapPacket::valid(p),
        PayloadView::Game(p) => GamePacket::valid(p),
        PayloadView::Connect(p) => ConnectPacket::valid(p),
        PayloadView::Costume(p) => CostumePacket::valid(p),
        PayloadView::Capture(p) => CapturePacket::valid(p),
        PayloadView::ChangeStage(p) => ChangeStagePacket::valid(p),
        _ => true,
    }
}

/// The wire bytes of a payload.
pub open spec fn encode_payload(v: PayloadView) -> Seq<u8> {
    match v {
        PayloadView::Init(p) => InitPacket::encode(p),
        PayloadView::Player(p) => PlayerPacket::encode(p),
        PayloadView::Cap(p) => CapPacket::encode(p),
        PayloadView::Game(p) => GamePacket::encode(p),
        PayloadView::Tag(p) => TagPacket::encode(p),
        PayloadView::Connect(p) => ConnectPacket::encode(p),
        PayloadView::Disconnect => Seq::empty(),
        PayloadView::Costume(p) => CostumePacket::encode(p),
        PayloadView::Shine(p) => ShinePacket::encode(p),
        PayloadView::Capture(p) => CapturePacket::encode(p),
        PayloadView::ChangeStage(p) => ChangeStagePacket::encode(p),
        PayloadView::Unhandled => Seq::empty(),
    }
}

/// The payload of kind `t` in `b`; kinds without a schema read as unhandled.
pub open spec fn decode_payload(t: PacketType, b: Seq<u8>) -> PayloadView {
    match t {
        PacketType::Init => PayloadView::Init(InitPacket::decode(b)),
        PacketType::Player => PayloadView::Player(PlayerPacket::decode(b)),
        PacketType::Cap => PayloadView::Cap(CapPacket::decode(b)),
        PacketType::Game => PayloadView::Game(GamePacket::decode(b)),
        PacketType::Tag => PayloadView::Tag(TagPacket::decode(b)),
        PacketType::Connect => PayloadView::Connect(ConnectPacket::decode(b)),
        PacketType::Disconnect => PayloadView::Disconnect,
        PacketType::Costume => PayloadView::Costume(CostumePacket::decode(b)),
        PacketType::Shine => PayloadView::Shine(ShinePacket::decode(b)),
        PacketType::Capture => PayloadView::Capture(CapturePacket::decode(b)),
        PacketType::ChangeStage => PayloadView::ChangeStage(ChangeStagePacket::decode(b)),
        _ => PayloadView::Unhandled,
    }
}

/// For every payload kind, decoding what was encoded gives the payload back,
/// and the encoding has exactly the kind's wire size.
pub proof fn lemma_payload_round_trip(v: PayloadView)
    requires
        payload_valid(v),
    ensures
        encode_payload(v).len() == payload_size(payload_type(v)),
        decode_payload(payload_type(v), encode_payload(v)) == v,
{
    match v {
        PayloadView::Init(p) => InitPacket::lemma_round_trip(p),
        PayloadView::Player(p) => PlayerPacket::lemma_round_trip(p),
        PayloadView::Cap(p) => CapPacket::lemma_round_trip(p),
        PayloadView::Game(p) => GamePacket::lemma_round_trip(p),
        PayloadView::Tag(p) => TagPacket::lemma_round_trip(p),
        PayloadView::Connect(p) => ConnectPacket::lemma_round_trip(p),
        PayloadView::Costume(p) => CostumePacket::lemma_round_trip(p),
        PayloadView::Shine(p) => ShinePacket::lemma_round_trip(p),
        PayloadView::Capture(p) => CapturePacket::lemma_round_trip(p),
        PayloadView::ChangeStage(p) => ChangeStagePacket::lemma_round_trip(p),
        _ => {},
    }
}

/// Whatever bytes a payload is decoded from, the result is a valid payload.
pub proof fn lemma_decoded_valid(t: PacketType, b: Seq<u8>)
    requires
        b.len() >= payload_size(t),
    ensures
        payload_valid(decode_payload(t, b)),
{
    match t {
        PacketType::Cap => CapPacket::lemma_decode_valid(b),
        PacketType::Game => GamePacket::lemma_decode_valid(b),
        PacketType::Connect => ConnectPacket::lemma_decode_valid(b),
        PacketType::Costume => CostumePacket::lemma_decode_valid(b),
        PacketType::Capture => CapturePacket::lemma_decode_valid(b),
        PacketType::ChangeStage => ChangeStagePacket::lemma_decode_valid(b),
        _ => {},
    }
}

impl Payload {
    /// Kind of this payload.
    pub fn packet_type(&self) -> (r: PacketType)
        ensures
            r == payload_type(self@),
    {
        match self {
            Payload::Init(_) => PacketType::Init,
            Payload::Player(_) => PacketType::Player,
            Payload::Cap(_) => PacketType::Cap,
            Payload::Game(_) => PacketType::Game,
            Payload::Tag(_) => PacketType::Tag,
            Payload::Connect(_) => PacketType::Connect,
            Payload::Disconnect(_) => PacketType::Disconnect,
            Payload::Costume(_) => PacketType::Costume,
            Payload::Shine(_) => PacketType::Shine,
            Payload::Capture(_) => PacketType::Capture,
            Payload::ChangeStage(_) => PacketType::ChangeStage,
            Payload::Unhandled(_) => PacketType::Unknown,
        }
    }

    /// Logical name of this payload's schema.
    pub fn get_name(&self) -> (r: &'static str)
        ensures
            r@ == packet_name(payload_type(self@)),
    {
        type_to_packet_map(self.packet_type())
    }

    /// Wire size of this payload.
    pub fn get_size(&self) -> (r: usize)
        ensures
            r == payload_size(payload_type(self@)),
    {
        match self.packet_type().wire_size() {
            Some(n) => n,
            None => 0,
        }
    }

    pub fn serialize(&self) -> (r: Vec<u8>)
        ensures
            r@ == encode_payload(self@),
    {
        match self {
            Payload::Init(p) => p.serialize(),
            Payload::Player(p) => p.serialize(),
            Payload::Cap(p) => p.serialize(),
            Payload::Game(p) => p.serialize(),
            Payload::Tag(p) => p.serialize(),
            Payload::Connect(p) => p.serialize(),
            Payload::Disconnect(_) => Vec::new(),
            Payload::Costume(p) => p.serialize(),
            Payload::Shine(p) => p.serialize(),
            Payload::Capture(p) => p.serialize(),
            Payload::ChangeStage(p) => p.serialize(),
            Payload::Unhandled(_) => Vec::new(),
        }
    }

    /// Reads a payload of kind `t` from the start of `data`.
    pub fn deserialize(t: PacketType, data: &[u8]) -> (r: Payload)
        requires
            data@.len() >= payload_size(t),
        ensures
            r@ == decode_payload(t, data@),
    {
        match t {
            PacketType::Init => Payload::Init(InitPacket::deserialize(data)),
            PacketType::Player => Payload::Player(PlayerPacket::deserialize(data)),
            PacketType::Cap => Payload::Cap(CapPacket::deserialize(data)),
            PacketType::Game => Payload::Game(GamePacket::deserialize(data)),
            PacketType::Tag => Payload::Tag(TagPacket::deserialize(data)),
            PacketType::Connect => Payload::Connect(ConnectPacket::deserialize(data)),
            PacketType::Disconnect => Payload::Disconnect(DisconnectPacket {  }),
            PacketType::Costume => Payload::Costume(CostumePacket::deserialize(data)),
            PacketType::Shine => Payload::Shine(ShinePacket::deserialize(data)),
            PacketType::Capture => Payload::Capture(CapturePacket::deserialize(data)),
            PacketType::ChangeStage => Payload::ChangeStage(ChangeStagePacket::deserialize(data)),
            _ => Payload::Unhandled(UnhandledPacket {  }),
        }
    }

    /// A fresh copy, made by encoding and decoding again.
    pub fn copy(&self) -> (r: Payload)
        requires
            payload_valid(self@),
        ensures
            r@ == self@,
    {
        let bytes = self.serialize();
        proof {
            lemma_payload_round_trip(self@);
        }
        Payload::deserialize(self.packet_type(), bytes.as_slice())
    }
}

// ---------------------------------------------------------------- frames

/// Why a frame cannot be taken.
#[derive(Clone, Copy, PartialEq, Eq, Structural, Debug)]
pub enum FrameError {
    /// Fewer bytes than a header.
    ShortHeader,
    /// The header declares a negative payload size.
    NegativeSize,
    /// Header and declared payload would not fit the frame buffer.
    Oversize,
    /// The declared size is not the wire size of the declared kind.
    SizeMismatch,
    /// Fewer payload bytes than the header declares.
    ShortPayload,
}

/// The payload size a header may declare, or why it may not.
pub open spec fn declared_size(h: PacketHeader) -> Result<nat, FrameError> {
    if h.packet_size < 0 {
        Err(FrameError::NegativeSize)
    } else if HEADER_SIZE + h.packet_size > BUFFER_SIZE {
        Err(FrameError::Oversize)
    } else if h.packet_type.spec_wire_size() is Some && h.packet_type.spec_wire_size() != Some(
        h.packet_size as nat,
    ) {
        Err(FrameError::SizeMismatch)
    } else {
        Ok(h.packet_size as nat)
    }
}

/// What reading a frame from `b` gives: its header and its payload bytes.
pub open spec fn frame_of(b: Seq<u8>) -> Result<(PacketHeader, Seq<u8>), FrameError> {
    if b.len() < HEADER_SIZE {
        Err(FrameError::ShortHeader)
    } else {
        let h = header_at(b);
        match declared_size(h) {
            Err(e) => Err(e),
            Ok(n) => if b.len() < HEADER_SIZE + n {
                Err(FrameError::ShortPayload)
            } else {
                Ok((h, b.subrange(HEADER_SIZE as int, HEADER_SIZE + n)))
            },
        }
    }
}

/// The size field of a header for a payload.
pub open spec fn size_field(v: PayloadView) -> i16 {
    payload_size(payload_type(v)) as i16
}

/// The frame that carries payload `v` on behalf of `from`.
pub open spec fn frame_bytes(from: SessionId, v: PayloadView) -> Seq<u8> {
    header_bytes(PacketHeader { id: from, packet_type: payload_type(v), packet_size: size_field(v) })
        + encode_payload(v)
}

/// A frame is a header and then exactly the payload it declares: reading it
/// loses no byte, for any declared size a kind may have.
pub proof fn lemma_frame_integrity(h: PacketHeader, p: Seq<u8>)
    requires
        0 <= h.packet_size,
        HEADER_SIZE + h.packet_size <= BUFFER_SIZE,
        p.len() == h.packet_size,
        h.packet_type.spec_wire_size() is None || h.packet_type.spec_wire_size() == Some(
            p.len(),
        ),
    ensures
        frame_of(header_bytes(h) + p) == Ok::<(PacketHeader, Seq<u8>), FrameError>((h, p)),
{
    lemma_header_round_trip(h, p);
    assert((header_bytes(h) + p).subrange(HEADER_SIZE as int, HEADER_SIZE + p.len()) =~= p);
}

/// Checks the size a header declares.
pub fn check_header(h: &PacketHeader) -> (r: Result<usize, FrameError>)
    ensures
        r matches Ok(n) ==> declared_size(*h) == Ok::<nat, FrameError>(n as nat),
        r matches Err(e) ==> declared_size(*h) == Err::<nat, FrameError>(e),
{
    if h.packet_size < 0 {
        return Err(FrameError::NegativeSize);
    }
    let n = h.packet_size as usize;
    if HEADER_SIZE + n > BUFFER_SIZE {
        return Err(FrameError::Oversize);
    }
    match h.packet_type.wire_size() {
        Some(w) => if w != n {
            return Err(FrameError::SizeMismatch);
        },
        None => {},
    }
    Ok(n)
}

/// Splits the frame at the start of `data` into its header and payload bytes.
pub fn split_frame(data: &[u8]) -> (r: Result<(PacketHeader, Vec<u8>), FrameError>)
    ensures
        r matches Ok((h, p)) ==> frame_of(data@) == Ok::<(PacketHeader, Seq<u8>), FrameError>((h, p@)),
        r matches Err(e) ==> frame_of(data@) == Err::<(PacketHeader, Seq<u8>), FrameError>(e),
{
    if data.len() < HEADER_SIZE {
        return Err(FrameError::ShortHeader);
    }
    let h = PacketHeader::deserialize(data);
    let n = match check_header(&h) {
        Ok(n) => n,
        Err(e) => {
            return Err(e);
        },
    };
    if data.len() < HEADER_SIZE + n {
        return Err(FrameError::ShortPayload);
    }
    let mut p: Vec<u8> = Vec::new();
    let mut k: usize = 0;
    while k < n
        invariant
            k <= n,
            HEADER_SIZE + n <= data@.len(),
            data@.len() <= usize::MAX,
            p@ == data@.subrange(HEADER_SIZE as int, HEADER_SIZE + k),
        decreases n - k,
    {
        p.push(data[HEADER_SIZE + k]);
        k = k + 1;
        assert(p@ =~= data@.subrange(HEADER_SIZE as int, HEADER_SIZE + k));
    }
    Ok((h, p))
}

/// The frame carrying `payload` on behalf of `from`.
pub fn build_frame(from: SessionId, payload: &Payload) -> (r: Vec<u8>)
    ensures
        r@ == frame_bytes(from, payload@),
{
    let size = payload.get_size();
    let h = PacketHeader { id: from, packet_type: payload.packet_type(), packet_size: size as i16 };
    let mut out = h.serialize();
    let body = payload.serialize();
    let mut k: usize = 0;
    let ghost start = out@;
    while k < body.len()
        invariant
            k <= body@.len(),
            out@ == start + body@.take(k as int),
        decreases body@.len() - k,
    {
        out.push(body[k]);
        k = k + 1;
        assert(out@ =~= start + body@.take(k as int));
    }
    assert(body@.take(body@.len() as int) =~= body@);
    out
}

} // verus!
