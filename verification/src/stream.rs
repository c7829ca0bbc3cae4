//! Numbering of the audio packets a client sends.

use vstd::prelude::*;
use crate::msg::{RoomId, UserId};
use crate::packet::AudioPacket;
use vstd::arithmetic::div_mod::{lemma_add_mod_noop, lemma_small_mod};

verus! {

/// Samples in one 20 ms frame of 48 kHz mono audio.
pub const SAMPLES_PER_FRAME: u32 = 960;

/// `x + d` in 32-bit wrapping arithmetic.
pub open spec fn wrap_add(x: u32, d: u32) -> u32 {
    ((x + d) % 0x1_0000_0000) as u32
}

fn wrapping_step(x: u32, d: u32) -> (r: u32)
    ensures
        r == wrap_add(x, d),
{
    if x <= u32::MAX - d {
        x + d
    } else {
        x - (u32::MAX - d) - 1
    }
}

/// The sender side of a client's audio stream: the next sequence number
/// and timestamp to stamp on a packet.
#[derive(Debug)]
pub struct OutgoingAudio {
    pub user_id: UserId,
    pub seq: u32,
    pub timestamp: u32,
}

impl OutgoingAudio {
    /// A stream that starts at sequence number 0 and timestamp 0.
    pub fn new(user_id: UserId) -> (s: OutgoingAudio)
        ensures
            s.user_id == user_id,
            s.seq == 0,
            s.timestamp == 0,
    {
        OutgoingAudio { user_id, seq: 0, timestamp: 0 }
    }

    /// Wraps an encoded frame into a packet for the current room; nothing is
    /// sent, and the counters stay, while the client is in no room.
    pub fn next_packet(&mut self, room: Option<RoomId>, payload: Vec<u8>) -> (p: Option<AudioPacket>)
        ensures
            room is None ==> p is None && *final(self) == *old(self),
            room matches Some(rid) ==> {
                &&& p matches Some(pkt)
                &&& pkt.user_id == old(self).user_id
                &&& pkt.room_id == rid
                &&& pkt.seq == old(self).seq
                &&& pkt.timestamp == old(self).timestamp
                &&& pkt.payload@ == payload@
                &&& final(self).user_id == old(self).user_id
                &&& final(self).seq == wrap_add(old(self).seq, 1)
                &&& final(self).timestamp == wrap_add(old(self).timestamp, SAMPLES_PER_FRAME)
            },
    {
        let room_id = match room {
            Some(id) => id,
            None => return None,
        };
        let pkt = AudioPacket { user_id: self.user_id, room_id, seq: self.seq, timestamp: self.timestamp, payload };
        self.seq = wrapping_step(self.seq, 1);
        self.timestamp = wrapping_step(self.timestamp, SAMPLES_PER_FRAME);
        Some(pkt)
    }
}

/// The sequence number and timestamp of the `k`-th packet a stream sends
/// (counting from 0): `k` and `960 * k`, in 32-bit wrapping arithmetic.
pub open spec fn kth_stamps(k: nat) -> (u32, u32) {
    ((k % 0x1_0000_0000) as u32, ((SAMPLES_PER_FRAME * k) % 0x1_0000_0000) as u32)
}

/// Packet numbering: a new stream starts at the stamps of packet 0, and a
/// stream whose counters hold the stamps of packet `k` moves, on sending,
/// to the stamps of packet `k + 1`; so the `k`-th packet sent carries
/// sequence number `k` and timestamp `960 * k`, wrapping.
pub proof fn lemma_kth_packet(k: nat, seq: u32, timestamp: u32)
    requires
        (seq, timestamp) == kth_stamps(k),
    ensures
        kth_stamps(0) == (0u32, 0u32),
        (wrap_add(seq, 1), wrap_add(timestamp, SAMPLES_PER_FRAME)) == kth_stamps(k + 1),
{
    let m: int = 0x1_0000_0000;
    lemma_small_mod(1, m as nat);
    lemma_small_mod(960, m as nat);
    lemma_add_mod_noop(k as int, 1, m);
    lemma_add_mod_noop((960 * k) as int, 960, m);
    assert(960 * (k + 1) == 960 * k + 960) by (nonlinear_arith);
}

} // verus!
