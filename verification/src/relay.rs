//! Routing decisions of the UDP audio relay.

use vstd::prelude::*;
use crate::packet::{packet_bytes, packet_from_bytes, AudioPacket};
use crate::rooms::{PeerAddr, ServerState};

verus! {

/// A packet to pass on and the endpoints to send it to.
#[derive(Debug)]
pub struct Forward {
    pub bytes: Vec<u8>,
    pub peers: Vec<PeerAddr>,
}

/// Handles one datagram `buf` received from `from`: a valid audio packet
/// records `from` as its sender's endpoint and is re-encoded for the other
/// members of its room; nothing is sent where the datagram is no packet or
/// where no other member has a known endpoint.
pub fn route_packet(state: &mut ServerState, buf: &[u8], from: PeerAddr) -> (r: Option<Forward>)
    requires
        old(state)@.wf(),
    ensures
        final(state)@.wf(),
        old(state)@.invariants() ==> final(state)@.invariants(),
        packet_from_bytes(buf@) is None ==> r is None && final(state)@ == old(state)@,
        packet_from_bytes(buf@) matches Some(p) ==> {
            &&& final(state)@ == old(state)@.set_udp_addr(p.user_id, from)
            &&& match r {
                Some(f) => {
                    &&& f.peers@.len() > 0
                    &&& final(state)@.peers(p.room_id, p.user_id, f.peers@)
                    &&& f.bytes@ == packet_bytes(p)
                },
                None => final(state)@.peers(p.room_id, p.user_id, Seq::empty()),
            }
        },
{
    let pkt = match AudioPacket::decode(buf) {
        Ok(p) => p,
        Err(_) => return None,
    };
    state.set_udp_addr(pkt.user_id, from);
    let peers = state.room_udp_peers(pkt.room_id, pkt.user_id);
    if peers.len() == 0 {
        assert(peers@ =~= Seq::<PeerAddr>::empty());
        return None;
    }
    match pkt.encode() {
        Ok(bytes) => Some(Forward { bytes, peers }),
        Err(_) => None,
    }
}

} // verus!
