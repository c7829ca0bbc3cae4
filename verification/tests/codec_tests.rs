use tucha::codec::{check_frame_len, encode_msg, FrameError, MAX_MSG_LEN};
use tucha::packet::{AudioPacket, PacketError};

#[test]
fn frame_prefixes_big_endian_length() {
    let buf = encode_msg(&[7, 8, 9]);
    assert_eq!(buf, vec![0, 0, 0, 3, 7, 8, 9]);
}

#[test]
fn frame_of_empty_payload_is_header_only() {
    assert_eq!(encode_msg(&[]), vec![0, 0, 0, 0]);
}

#[test]
fn frame_length_uses_all_four_bytes() {
    let payload = vec![0u8; 0x0102];
    let buf = encode_msg(&payload);
    assert_eq!(&buf[..4], &[0, 0, 1, 2]);
    assert_eq!(buf.len(), 0x0102 + 4);
}

#[test]
fn header_of_a_frame_reads_back_its_length() {
    let payload = vec![5u8; 300];
    let buf = encode_msg(&payload);
    let header = [buf[0], buf[1], buf[2], buf[3]];
    assert_eq!(check_frame_len(header), Ok(300));
}

#[test]
fn frame_len_limit_is_inclusive() {
    assert_eq!(MAX_MSG_LEN, 65536);
    assert_eq!(check_frame_len([0, 1, 0, 0]), Ok(65536));
    assert_eq!(check_frame_len([0, 1, 0, 1]), Err(FrameError::TooLarge { len: 65537 }));
    assert_eq!(check_frame_len([0xff, 0xff, 0xff, 0xff]), Err(FrameError::TooLarge { len: 0xffff_ffff }));
}

#[test]
fn packet_bytes_follow_bincode_standard_layout() {
    let pkt = AudioPacket { user_id: 1, room_id: 2, seq: 3, timestamp: 4, payload: vec![9, 10] };
    let bytes = pkt.encode().unwrap();
    // varint integers, then the payload length and bytes
    assert_eq!(bytes, vec![1, 2, 3, 4, 2, 9, 10]);
}

#[test]
fn packet_roundtrip() {
    let pkt = AudioPacket { user_id: 70000, room_id: 3, seq: u32::MAX, timestamp: 960, payload: vec![1, 2, 3, 250, 251] };
    let bytes = pkt.encode().unwrap();
    let back = AudioPacket::decode(&bytes).unwrap();
    assert_eq!(back.user_id, 70000);
    assert_eq!(back.room_id, 3);
    assert_eq!(back.seq, u32::MAX);
    assert_eq!(back.timestamp, 960);
    assert_eq!(back.payload, vec![1, 2, 3, 250, 251]);
}

#[test]
fn packet_decode_refuses_truncated_bytes() {
    assert_eq!(AudioPacket::decode(&[]).unwrap_err(), PacketError::Decode);
    assert_eq!(AudioPacket::decode(&[1, 2, 3]).unwrap_err(), PacketError::Decode);
    assert_eq!(AudioPacket::decode(&[1, 2, 3, 4, 5, 1]).unwrap_err(), PacketError::Decode);
}

#[test]
fn packet_max_size_fits_mtu() {
    assert_eq!(AudioPacket::MAX_SIZE, 1400);
}

#[test]
fn packet_bytes_use_varint_markers() {
    let pkt = AudioPacket { user_id: 251, room_id: 70000, seq: 0, timestamp: 250, payload: vec![] };
    let bytes = pkt.encode().unwrap();
    assert_eq!(bytes, vec![251, 251, 0, 252, 0x70, 0x11, 0x01, 0x00, 0, 250, 0]);
    let back = AudioPacket::decode(&bytes).unwrap();
    assert_eq!((back.user_id, back.room_id, back.timestamp), (251, 70000, 250));
}
