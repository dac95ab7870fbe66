//! Wire framing of the remote-console protocol.
//!
//! A frame is `[length:4][id:4][kind:4][body][0x00][0x00]`, every 32-bit
//! field little-endian and signed, with `length = 10 + byte length of body`.
//! The body is UTF-8 text, decoded lossily on the way in.

use vstd::bytes::*;
use vstd::prelude::*;
use vstd::slice::slice_subrange;
use vstd::utf8::*;

verus! {

/// The kind of a packet. `ExecCommand` and `AuthResponse` share the wire
/// value 2 and are told apart only by direction: a server never receives a
/// reply kind, so wire value 2 always reads back as `ExecCommand`.
#[derive(Debug, Clone, Copy, PartialEq, Eq, Structural)]
pub enum RconPacketType {
    ResponseValue,
    ExecCommand,
    AuthResponse,
    Auth,
}

/// The value a kind is written as on the wire.
pub open spec fn spec_wire_value(t: RconPacketType) -> i32 {
    match t {
        RconPacketType::ResponseValue => 0,
        RconPacketType::ExecCommand => 2,
        RconPacketType::AuthResponse => 2,
        RconPacketType::Auth => 3,
    }
}

/// The kind a wire value reads back as; values other than 0, 2 and 3 are
/// malformed.
pub open spec fn spec_kind_of_wire(v: i32) -> Option<RconPacketType> {
    if v == 0 {
        Some(RconPacketType::ResponseValue)
    } else if v == 2 {
        Some(RconPacketType::ExecCommand)
    } else if v == 3 {
        Some(RconPacketType::Auth)
    } else {
        None
    }
}

impl RconPacketType {
    /// The value this kind is written as on the wire.
    pub fn wire_value(&self) -> (v: i32)
        ensures
            v == spec_wire_value(*self),
    {
        match self {
            RconPacketType::ResponseValue => 0,
            RconPacketType::ExecCommand => 2,
            RconPacketType::AuthResponse => 2,
            RconPacketType::Auth => 3,
        }
    }

    /// The kind a wire value reads back as.
    pub fn from_wire(v: i32) -> (r: Option<RconPacketType>)
        ensures
            r == spec_kind_of_wire(v),
    {
        if v == 0 {
            Some(RconPacketType::ResponseValue)
        } else if v == 2 {
            Some(RconPacketType::ExecCommand)
        } else if v == 3 {
            Some(RconPacketType::Auth)
        } else {
            None
        }
    }
}

/// A protocol packet: correlation id, kind, and UTF-8 text body. The id -1
/// is reserved for the reply that signals a refused authentication.
#[derive(Debug, Clone)]
pub struct RconPacket {
    pub id: i32,
    pub kind: RconPacketType,
    pub body: String,
}

/// Mathematical model of a packet.
#[verifier::ext_equal]
pub struct PacketModel {
    pub id: i32,
    pub kind: RconPacketType,
    pub body: Seq<char>,
}

impl View for RconPacket {
    type V = PacketModel;

    open spec fn view(&self) -> PacketModel {
        PacketModel { id: self.id, kind: self.kind, body: self.body@ }
    }
}

impl PacketModel {
    /// The body's UTF-8 byte length fits the frame's signed 32-bit length
    /// field.
    pub open spec fn wf(self) -> bool {
        encode_utf8(self.body).len() + 10 <= i32::MAX
    }
}

/// The characters that lossy UTF-8 decoding yields for the given bytes:
/// valid UTF-8 decodes to exactly its characters; anything else goes through
/// the replacement rule, named below but not spelled out.
pub open spec fn utf8_lossy(b: Seq<u8>) -> Seq<char> {
    if valid_utf8(b) {
        decode_utf8(b)
    } else {
        utf8_lossy_replacement(b)
    }
}

pub uninterp spec fn utf8_lossy_replacement(b: Seq<u8>) -> Seq<char>;

/// Relies on `String::from_utf8_lossy`: bytes that are valid UTF-8 decode to
/// exactly their characters, and invalid input is repaired by a fixed rule
/// (U+FFFD substitution) that depends on the bytes alone.
#[verifier::external_body]
fn bytes_to_string_lossy(b: &[u8]) -> (r: String)
    ensures
        r@ == utf8_lossy(b@),
        !valid_utf8(b@) ==> r@ == utf8_lossy_replacement(b@),
{
    String::from_utf8_lossy(b).into_owned()
}

/// The frame a packet is written as: length, id and kind as little-endian
/// 32-bit values, then the body's UTF-8 bytes and two zero pad bytes, with
/// the length declared as 10 plus the body's byte length.
pub open spec fn spec_encode(p: PacketModel) -> Seq<u8> {
    let body = encode_utf8(p.body);
    spec_u32_to_le_bytes((10 + body.len()) as u32) + spec_u32_to_le_bytes(p.id as u32)
        + spec_u32_to_le_bytes(spec_wire_value(p.kind) as u32) + body + seq![0u8, 0u8]
}

/// What one decode attempt on the front of a buffer yields.
#[verifier::ext_equal]
pub enum SpecDecoded {
    /// A complete, well-formed frame of `consumed` bytes.
    Frame { packet: PacketModel, consumed: int },
    /// The buffer does not yet hold a complete frame; nothing is consumed.
    NeedMoreBytes,
    /// The frame is unusable; `consumed` bytes are dropped to keep the
    /// stream aligned.
    Malformed { consumed: int },
}

/// Decoding the front of a buffer. Fewer than 4 bytes, or fewer than the
/// declared length plus 4, ask for more input. A declared length under 10
/// can never frame a body, so only the length field itself is dropped. An
/// unknown kind drops the whole frame.
pub open spec fn spec_decode(b: Seq<u8>) -> SpecDecoded {
    if b.len() < 4 {
        SpecDecoded::NeedMoreBytes
    } else {
        let length = spec_u32_from_le_bytes(b.subrange(0, 4)) as i32;
        if length < 10 {
            SpecDecoded::Malformed { consumed: 4 }
        } else if b.len() < length + 4 {
            SpecDecoded::NeedMoreBytes
        } else {
            let id = spec_u32_from_le_bytes(b.subrange(4, 8)) as i32;
            let wire_kind = spec_u32_from_le_bytes(b.subrange(8, 12)) as i32;
            let body = b.subrange(12, length + 2);
            match spec_kind_of_wire(wire_kind) {
                Some(kind) => SpecDecoded::Frame {
                    packet: PacketModel { id, kind, body: utf8_lossy(body) },
                    consumed: length + 4,
                },
                None => SpecDecoded::Malformed { consumed: length + 4 },
            }
        }
    }
}

/// What one decode attempt reports to the caller.
#[derive(Debug)]
pub enum DecodeOutcome {
    /// A complete frame was removed from the front of the buffer.
    Frame(RconPacket),
    /// The buffer does not yet hold a complete frame; it is unchanged and
    /// the caller must wait for more input.
    NeedMoreBytes,
    /// An unusable frame was dropped from the buffer; no reply is owed.
    Malformed,
}

/// Removes the first `n` bytes of the buffer, keeping the rest in order.
fn drop_front(data: &mut Vec<u8>, n: usize)
    requires
        n <= old(data)@.len(),
    ensures
        final(data)@ == old(data)@.skip(n as int),
{
    let len = data.len();
    let mut rest: Vec<u8> = Vec::new();
    let mut i: usize = n;
    while i < len
        invariant
            n <= i <= len,
            data@ == old(data)@,
            len == data@.len(),
            rest@ == data@.subrange(n as int, i as int),
        decreases len - i,
    {
        let b = data[i];
        rest.push(b);
        i += 1;
    }
    proof {
        assert(rest@ =~= old(data)@.skip(n as int));
    }
    *data = rest;
}

impl RconPacket {
    /// Writes the packet's frame.
    pub fn serialize(&self) -> (r: Vec<u8>)
        requires
            self@.wf(),
        ensures
            r@ == spec_encode(self@),
    {
        let body: &[u8] = self.body.as_str().as_bytes();
        let length: u32 = (body.len() + 10) as u32;
        let mut data: Vec<u8> = u32_to_le_bytes(length);
        let id_bytes = u32_to_le_bytes(self.id as u32);
        data.extend_from_slice(id_bytes.as_slice());
        let kind_bytes = u32_to_le_bytes(self.kind.wire_value() as u32);
        data.extend_from_slice(kind_bytes.as_slice());
        data.extend_from_slice(body);
        data.push(0);
        data.push(0);
        proof {
            assert(data@ =~= spec_encode(self@));
        }
        data
    }

    /// Takes one frame off the front of the buffer, if a complete one is
    /// there, and says what it held.
    pub fn deserialize(data: &mut Vec<u8>) -> (r: DecodeOutcome)
        ensures
            match spec_decode(old(data)@) {
                SpecDecoded::Frame { packet, consumed } => {
                    &&& r matches DecodeOutcome::Frame(p) && p@ == packet
                    &&& final(data)@ == old(data)@.skip(consumed)
                },
                SpecDecoded::NeedMoreBytes => {
                    &&& r is NeedMoreBytes
                    &&& final(data)@ == old(data)@
                },
                SpecDecoded::Malformed { consumed } => {
                    &&& r is Malformed
                    &&& final(data)@ == old(data)@.skip(consumed)
                },
            },
    {
        if data.len() < 4 {
            return DecodeOutcome::NeedMoreBytes;
        }
        let length = u32_from_le_bytes(slice_subrange(data.as_slice(), 0, 4)) as i32;
        if length < 10 {
            drop_front(data, 4);
            return DecodeOutcome::Malformed;
        }
        let length_us = length as usize;
        if data.len() < length_us + 4 {
            return DecodeOutcome::NeedMoreBytes;
        }
        let id = u32_from_le_bytes(slice_subrange(data.as_slice(), 4, 8)) as i32;
        let wire_kind = u32_from_le_bytes(slice_subrange(data.as_slice(), 8, 12)) as i32;
        let body = bytes_to_string_lossy(slice_subrange(data.as_slice(), 12, length_us + 2));
        let kind_opt = RconPacketType::from_wire(wire_kind);
        drop_front(data, length_us + 4);
        match kind_opt {
            Some(kind) => DecodeOutcome::Frame(RconPacket { id, kind, body }),
            None => DecodeOutcome::Malformed,
        }
    }
}

/// Round trip: the frame written for a packet reads back as that packet,
/// consuming the whole frame. An `AuthResponse` is excluded: it shares its
/// wire value with `ExecCommand`, so its frame reads back as an
/// `ExecCommand` with the same id and body.
pub proof fn lemma_round_trip(p: PacketModel)
    requires
        p.wf(),
        p.kind != RconPacketType::AuthResponse,
    ensures
        spec_decode(spec_encode(p)) == (SpecDecoded::Frame {
            packet: p,
            consumed: spec_encode(p).len() as int,
        }),
{
    lemma_auto_spec_u32_to_from_le_bytes();
    broadcast use encode_utf8_valid_utf8, encode_utf8_decode_utf8;

    let body = encode_utf8(p.body);
    let frame = spec_encode(p);
    assert(frame.len() == body.len() + 14);
    assert(frame.subrange(0, 4) =~= spec_u32_to_le_bytes((10 + body.len()) as u32));
    assert(frame.subrange(4, 8) =~= spec_u32_to_le_bytes(p.id as u32));
    assert(frame.subrange(8, 12) =~= spec_u32_to_le_bytes(spec_wire_value(p.kind) as u32));
    let length = spec_u32_from_le_bytes(frame.subrange(0, 4)) as i32;
    assert(length == 10 + body.len());
    assert(frame.subrange(12, length + 2) =~= body);
    let idv = p.id;
    assert((idv as u32) as i32 == idv) by (bit_vector);
    assert(spec_decode(frame) =~= SpecDecoded::Frame {
        packet: p,
        consumed: frame.len() as int,
    });
}

/// Partial-frame stability: every strict prefix of a frame asks for more
/// bytes, consuming nothing.
pub proof fn lemma_prefix_needs_more(p: PacketModel, n: int)
    requires
        p.wf(),
        0 <= n < spec_encode(p).len(),
    ensures
        spec_decode(spec_encode(p).take(n)) == SpecDecoded::NeedMoreBytes,
{
    let frame = spec_encode(p);
    let body = encode_utf8(p.body);
    let prefix = frame.take(n);
    if n >= 4 {
        lemma_auto_spec_u32_to_from_le_bytes();
        assert(prefix.subrange(0, 4) =~= spec_u32_to_le_bytes((10 + body.len()) as u32));
        let length = spec_u32_from_le_bytes(prefix.subrange(0, 4)) as i32;
        assert(length == 10 + body.len());
        assert(frame.len() == body.len() + 14);
        assert(prefix.len() < length + 4);
    }
}

/// A buffer that starts with a complete frame decodes that frame, whatever
/// follows it.
pub proof fn lemma_decode_front(b: Seq<u8>, rest: Seq<u8>)
    requires
        spec_decode(b) matches SpecDecoded::Frame { packet, consumed } && consumed == b.len(),
    ensures
        spec_decode(b + rest) == spec_decode(b),
{
    let all = b + rest;
    assert(all.subrange(0, 4) =~= b.subrange(0, 4));
    let length = spec_u32_from_le_bytes(b.subrange(0, 4)) as i32;
    assert(all.subrange(4, 8) =~= b.subrange(4, 8));
    assert(all.subrange(8, 12) =~= b.subrange(8, 12));
    assert(all.subrange(12, length + 2) =~= b.subrange(12, length + 2));
}

/// Batching: two frames written back to back decode in order, and consuming
/// each leaves exactly the bytes after it, so a decode loop ends with an
/// empty buffer.
pub proof fn lemma_batched_frames(p1: PacketModel, p2: PacketModel)
    requires
        p1.wf(),
        p2.wf(),
        p1.kind != RconPacketType::AuthResponse,
        p2.kind != RconPacketType::AuthResponse,
    ensures
        ({
            let all = spec_encode(p1) + spec_encode(p2);
            let first = spec_encode(p1).len() as int;
            &&& spec_decode(all) == (SpecDecoded::Frame { packet: p1, consumed: first })
            &&& all.skip(first) == spec_encode(p2)
            &&& spec_decode(all.skip(first)) == (SpecDecoded::Frame {
                packet: p2,
                consumed: spec_encode(p2).len() as int,
            })
        }),
{
    lemma_round_trip(p1);
    lemma_round_trip(p2);
    lemma_decode_front(spec_encode(p1), spec_encode(p2));
    assert((spec_encode(p1) + spec_encode(p2)).skip(spec_encode(p1).len() as int) =~= spec_encode(
        p2,
    ));
}

} // verus!
