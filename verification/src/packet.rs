//! The UDP audio packet: header fields plus the Opus payload, encoded with
//! bincode's standard configuration.

use vstd::prelude::*;
use crate::msg::{RoomId, UserId};

verus! {

#[verifier::external_type_specification]
#[verifier::external_body]
pub struct ExEncodeError(bincode::error::EncodeError);

#[verifier::external_type_specification]
#[verifier::external_body]
pub struct ExDecodeError(bincode::error::DecodeError);

/// The `n` low-order bytes of `v`, least significant first.
pub open spec fn le_bytes(v: nat, n: nat) -> Seq<u8>
    decreases n,
{
    if n == 0 {
        Seq::empty()
    } else {
        seq![(v % 256) as u8] + le_bytes(v / 256, (n - 1) as nat)
    }
}

/// Bincode's variable-length integer: values up to 250 in one byte, larger
/// ones as a marker byte (251, 252, 253) followed by 2, 4 or 8 little-endian
/// bytes.
pub open spec fn varint(v: nat) -> Seq<u8> {
    if v <= 250 {
        seq![v as u8]
    } else if v <= 0xffff {
        seq![251u8] + le_bytes(v, 2)
    } else if v <= 0xffff_ffff {
        seq![252u8] + le_bytes(v, 4)
    } else {
        seq![253u8] + le_bytes(v, 8)
    }
}

/// The bytes that bincode's standard configuration produces for the field
/// tuple `(user_id, room_id, seq, timestamp, payload)`: the four integers as
/// varints, the payload length as a varint, then the payload bytes.
pub open spec fn packet_wire(user_id: u32, room_id: u32, seq: u32, timestamp: u32, payload: Seq<u8>) -> Seq<u8> {
    varint(user_id as nat) + varint(room_id as nat) + varint(seq as nat) + varint(timestamp as nat)
        + varint(payload.len()) + payload
}

/// The field tuple that bincode's standard configuration reads from the
/// front of `bytes`, or `None` where it reports an error.
pub uninterp spec fn packet_fields(bytes: Seq<u8>) -> Option<(u32, u32, u32, u32, Seq<u8>)>;

/// Calls `bincode::serde::encode_to_vec` with `bincode::config::standard()`
/// on the tuple of the packet's fields, which bincode lays out exactly as it
/// lays out the struct. The result is the layout `packet_wire` spells out
/// (little-endian varints); the call cannot fail here: its writer only appends to a `Vec` and the sequence
/// length of the payload is always known.
#[verifier::external_body]
fn bincode_encode_fields(user_id: u32, room_id: u32, seq: u32, timestamp: u32, payload: &Vec<u8>) -> (r: Result<Vec<u8>, bincode::error::EncodeError>)
    ensures
        r is Ok,
        r.unwrap()@ == packet_wire(user_id, room_id, seq, timestamp, payload@),
{
    bincode::serde::encode_to_vec((user_id, room_id, seq, timestamp, payload), bincode::config::standard())
}

/// Calls `bincode::serde::decode_from_slice` with
/// `bincode::config::standard()` for the field tuple, dropping the count of
/// bytes read. The result is named by `packet_fields`; bytes that
/// `encode_to_vec` produced for a tuple decode to that very tuple, and fewer
/// than five bytes (the shortest encoding: five one-byte varints) are
/// refused. Which other inputs are refused is left unsaid.
#[verifier::external_body]
fn bincode_decode_fields(buf: &[u8]) -> (r: Result<(u32, u32, u32, u32, Vec<u8>), bincode::error::DecodeError>)
    ensures
        r is Ok <==> packet_fields(buf@) is Some,
        r is Ok ==> packet_fields(buf@) == Some(
            (r.unwrap().0, r.unwrap().1, r.unwrap().2, r.unwrap().3, r.unwrap().4@),
        ),
        (exists|u: u32, rm: u32, s: u32, ts: u32, p: Seq<u8>| #[trigger] packet_wire(u, rm, s, ts, p) == buf@)
            ==> r is Ok,
        buf@.len() < 5 ==> r is Err,
        r is Ok ==> (forall|u: u32, rm: u32, s: u32, ts: u32, p: Seq<u8>|
            #[trigger] packet_wire(u, rm, s, ts, p) == buf@ ==> packet_fields(buf@) == Some((u, rm, s, ts, p))),
{
    match bincode::serde::decode_from_slice::<(u32, u32, u32, u32, Vec<u8>), _>(buf, bincode::config::standard()) {
        Ok((t, _)) => Ok(t),
        Err(e) => Err(e),
    }
}

/// Why a packet could not be encoded or decoded.
#[derive(Debug, Clone, Copy, PartialEq, Eq)]
pub enum PacketError {
    Encode,
    Decode,
}

/// An audio packet sent over UDP: header plus Opus payload.
#[derive(Debug, Clone)]
pub struct AudioPacket {
    pub user_id: UserId,
    pub room_id: RoomId,
    /// Monotonically growing counter, to detect loss and reordering.
    pub seq: u32,
    /// Timestamp in samples (48 000 Hz), for the jitter buffer.
    pub timestamp: u32,
    /// Opus-encoded audio.
    pub payload: Vec<u8>,
}

/// Plain-value model of an audio packet.
pub struct AudioPacketView {
    pub user_id: u32,
    pub room_id: u32,
    pub seq: u32,
    pub timestamp: u32,
    pub payload: Seq<u8>,
}

impl View for AudioPacket {
    type V = AudioPacketView;

    open spec fn view(&self) -> AudioPacketView {
        AudioPacketView {
            user_id: self.user_id,
            room_id: self.room_id,
            seq: self.seq,
            timestamp: self.timestamp,
            payload: self.payload@,
        }
    }
}

/// The wire bytes of a packet model.
pub open spec fn packet_bytes(p: AudioPacketView) -> Seq<u8> {
    packet_wire(p.user_id, p.room_id, p.seq, p.timestamp, p.payload)
}

/// The packet model read from `bytes`, if any.
pub open spec fn packet_from_bytes(bytes: Seq<u8>) -> Option<AudioPacketView> {
    match packet_fields(bytes) {
        Some(t) => Some(AudioPacketView { user_id: t.0, room_id: t.1, seq: t.2, timestamp: t.3, payload: t.4 }),
        None => None,
    }
}

impl AudioPacket {
    /// Largest packet size that fits one MTU.
    pub const MAX_SIZE: usize = 1400;

    /// Serializes the packet to bytes.
    pub fn encode(&self) -> (r: Result<Vec<u8>, PacketError>)
        ensures
            r matches Ok(b) && b@ == packet_bytes(self@),
    {
        match bincode_encode_fields(self.user_id, self.room_id, self.seq, self.timestamp, &self.payload) {
            Ok(b) => Ok(b),
            Err(_) => Err(PacketError::Encode),
        }
    }

    /// Deserializes a packet from bytes; bytes that `encode` produced give
    /// back the packet that produced them.
    pub fn decode(buf: &[u8]) -> (r: Result<AudioPacket, PacketError>)
        ensures
            match r {
                Ok(p) => packet_from_bytes(buf@) == Some(p@),
                Err(e) => packet_from_bytes(buf@) is None && e == PacketError::Decode,
            },
            forall|p: AudioPacketView| #[trigger] packet_bytes(p) == buf@ ==> (r matches Ok(q) && q@ == p),
            buf@.len() < 5 ==> r is Err,
    {
        match bincode_decode_fields(buf) {
            Ok(t) => {
                let (user_id, room_id, seq, timestamp, payload) = t;
                Ok(AudioPacket { user_id, room_id, seq, timestamp, payload })
            },
            Err(_) => Err(PacketError::Decode),
        }
    }
}

} // verus!
