use tucha::msg::{ClientMsg, RoomInfo, ServerMsg};
use tucha::relay::route_packet;
use tucha::rooms::{new_room_id, new_user_id, PeerAddr, Room, ServerState};
use tucha::session::{close_session, handle_msg, open_session, should_forward};
use tucha::packet::AudioPacket;
use tucha::msg::UserInfo;

fn sorted_ids(rooms: &[RoomInfo]) -> Vec<u32> {
    let mut ids: Vec<u32> = rooms.iter().map(|r| r.id).collect();
    ids.sort();
    ids
}

fn room<'a>(rooms: &'a [RoomInfo], id: u32) -> &'a RoomInfo {
    rooms.iter().find(|r| r.id == id).unwrap()
}

fn member_ids(rooms: &[RoomInfo], id: u32) -> Vec<u32> {
    let mut ids: Vec<u32> = room(rooms, id).users.iter().map(|u| u.id).collect();
    ids.sort();
    ids
}

fn addr(port: u16) -> PeerAddr {
    PeerAddr::V4 { ip4: [127, 0, 0, 1], port }
}

#[test]
fn ids_count_up_and_wrap() {
    let mut next = 1u32;
    assert_eq!(new_user_id(&mut next), 1);
    assert_eq!(new_user_id(&mut next), 2);
    assert_eq!(next, 3);
    let mut last = u32::MAX;
    assert_eq!(new_room_id(&mut last), u32::MAX);
    assert_eq!(last, 0);
}

#[test]
fn new_state_has_default_rooms() {
    let s = ServerState::new();
    let rooms = s.room_list();
    assert_eq!(sorted_ids(&rooms), vec![1, 2, 3]);
    assert_eq!(room(&rooms, 1).name, "general");
    assert_eq!(room(&rooms, 2).name, "dev");
    assert_eq!(room(&rooms, 3).name, "random");
    assert!(rooms.iter().all(|r| r.users.is_empty()));
}

#[test]
fn room_to_info_lists_members() {
    let mut r = Room::new(9, "lobby".to_string());
    r.users.insert(5, UserInfo { id: 5, username: "eve".to_string(), muted: false });
    r.users.insert(6, UserInfo { id: 6, username: "bob".to_string(), muted: true });
    let info = r.to_info();
    assert_eq!(info.id, 9);
    assert_eq!(info.name, "lobby");
    let mut names: Vec<String> = info.users.iter().map(|u| u.username.clone()).collect();
    names.sort();
    assert_eq!(names, vec!["bob".to_string(), "eve".to_string()]);
}

#[test]
fn register_hands_out_increasing_ids() {
    let mut s = ServerState::new();
    let (a, rooms) = s.register_user("alice".to_string());
    let (b, _) = s.register_user("bob".to_string());
    assert_eq!(a, 1);
    assert_eq!(b, 2);
    assert_eq!(rooms.len(), 3);
    assert_eq!(s.user_room(a), None);
    assert_eq!(s.user_room(77), None);
}

#[test]
fn join_moves_user_between_rooms() {
    let mut s = ServerState::new();
    let (a, _) = s.register_user("alice".to_string());
    let info = s.join_room(a, 1).unwrap();
    assert_eq!(info.id, a);
    assert_eq!(info.username, "alice");
    assert!(!info.muted);
    assert_eq!(s.user_room(a), Some(1));
    assert_eq!(member_ids(&s.room_list(), 1), vec![a]);
    s.join_room(a, 2).unwrap();
    let rooms = s.room_list();
    assert_eq!(member_ids(&rooms, 1), Vec::<u32>::new());
    assert_eq!(member_ids(&rooms, 2), vec![a]);
    assert_eq!(s.user_room(a), Some(2));
}

#[test]
fn join_refused_for_same_room_or_unknown_user() {
    let mut s = ServerState::new();
    let (a, _) = s.register_user("alice".to_string());
    assert!(s.join_room(a, 1).is_some());
    assert!(s.join_room(a, 1).is_none());
    assert!(s.join_room(42, 1).is_none());
    assert_eq!(member_ids(&s.room_list(), 1), vec![a]);
}

#[test]
fn join_of_missing_room_is_refused() {
    let mut s = ServerState::new();
    let (a, _) = s.register_user("alice".to_string());
    s.join_room(a, 1).unwrap();
    assert!(s.join_room(a, 99).is_none());
    assert_eq!(s.user_room(a), Some(1));
    assert_eq!(member_ids(&s.room_list(), 1), vec![a]);
    let out = handle_msg(&mut s, a, ClientMsg::JoinRoom { room_id: 99 });
    assert!(out.broadcast.is_none());
    match out.reply {
        ServerMsg::Error { message } => assert_eq!(message, "room 99 not found or already joined"),
        other => panic!("unexpected reply {:?}", other),
    }
    assert_eq!(s.user_room(a), Some(1));
}

#[test]
fn leave_clears_current_room() {
    let mut s = ServerState::new();
    let (a, _) = s.register_user("alice".to_string());
    s.join_room(a, 3).unwrap();
    s.leave_room(a, 2);
    assert_eq!(s.user_room(a), Some(3));
    assert_eq!(member_ids(&s.room_list(), 3), vec![a]);
    s.leave_room(a, 3);
    assert_eq!(s.user_room(a), None);
    assert_eq!(member_ids(&s.room_list(), 3), Vec::<u32>::new());
}

#[test]
fn remove_user_leaves_room() {
    let mut s = ServerState::new();
    let (a, _) = s.register_user("alice".to_string());
    let (b, _) = s.register_user("bob".to_string());
    s.join_room(a, 1).unwrap();
    s.join_room(b, 1).unwrap();
    s.remove_user(a);
    assert_eq!(member_ids(&s.room_list(), 1), vec![b]);
    assert_eq!(s.user_room(a), None);
    s.remove_user(a);
    assert_eq!(member_ids(&s.room_list(), 1), vec![b]);
}

#[test]
fn create_room_uses_next_id() {
    let mut s = ServerState::new();
    let info = s.create_room("music".to_string());
    assert_eq!(info.id, 4);
    assert_eq!(info.name, "music");
    assert!(info.users.is_empty());
    let info2 = s.create_room("games".to_string());
    assert_eq!(info2.id, 5);
    assert_eq!(sorted_ids(&s.room_list()), vec![1, 2, 3, 4, 5]);
}

#[test]
fn peers_skip_sender_and_unknown_endpoints() {
    let mut s = ServerState::new();
    let (a, _) = s.register_user("a".to_string());
    let (b, _) = s.register_user("b".to_string());
    let (c, _) = s.register_user("c".to_string());
    let (d, _) = s.register_user("d".to_string());
    for u in [a, b, c] {
        s.join_room(u, 1).unwrap();
    }
    s.join_room(d, 2).unwrap();
    s.set_udp_addr(a, addr(1000));
    s.set_udp_addr(b, addr(2000));
    s.set_udp_addr(d, addr(4000));
    assert_eq!(s.room_udp_peers(1, a), vec![addr(2000)]);
    let mut peers = s.room_udp_peers(1, c);
    peers.sort_by_key(|p| match p { PeerAddr::V4 { port, .. } => *port, PeerAddr::V6 { port, .. } => *port });
    assert_eq!(peers, vec![addr(1000), addr(2000)]);
    assert!(s.room_udp_peers(42, a).is_empty());
}

#[test]
fn forward_filter_hides_own_events() {
    let me = 5;
    assert!(!should_forward(me, &ServerMsg::UserLeft { user_id: 5, room_id: 0 }));
    assert!(should_forward(me, &ServerMsg::UserLeft { user_id: 6, room_id: 0 }));
    let user = UserInfo { id: 5, username: "me".to_string(), muted: false };
    assert!(!should_forward(me, &ServerMsg::UserJoined { user, room_id: 1 }));
    let other = UserInfo { id: 7, username: "x".to_string(), muted: false };
    assert!(should_forward(me, &ServerMsg::UserJoined { user: other, room_id: 1 }));
    assert!(should_forward(me, &ServerMsg::Pong));
}

#[test]
fn session_starts_only_with_connect() {
    let mut s = ServerState::new();
    let start = open_session(&mut s, ClientMsg::Ping);
    assert_eq!(start.user_id, None);
    match start.reply {
        ServerMsg::Error { message } => assert_eq!(message, "expected Connect as first message"),
        other => panic!("unexpected reply {:?}", other),
    }
    let start = open_session(&mut s, ClientMsg::Connect { username: "zoe".to_string() });
    assert_eq!(start.user_id, Some(1));
    match start.reply {
        ServerMsg::Connected { user_id, rooms } => {
            assert_eq!(user_id, 1);
            assert_eq!(sorted_ids(&rooms), vec![1, 2, 3]);
        }
        other => panic!("unexpected reply {:?}", other),
    }
}

#[test]
fn session_messages_get_their_replies() {
    let mut s = ServerState::new();
    let (a, _) = s.register_user("ann".to_string());

    let out = handle_msg(&mut s, a, ClientMsg::Ping);
    assert!(out.broadcast.is_none());
    assert!(matches!(out.reply, ServerMsg::Pong));

    let out = handle_msg(&mut s, a, ClientMsg::Connect { username: "again".to_string() });
    assert!(out.broadcast.is_none());
    match out.reply {
        ServerMsg::Error { message } => assert_eq!(message, "already connected"),
        other => panic!("unexpected reply {:?}", other),
    }

    let out = handle_msg(&mut s, a, ClientMsg::JoinRoom { room_id: 2 });
    match out.broadcast {
        Some(ServerMsg::UserJoined { user, room_id }) => {
            assert_eq!(user.id, a);
            assert_eq!(user.username, "ann");
            assert_eq!(room_id, 2);
        }
        other => panic!("unexpected event {:?}", other),
    }
    match out.reply {
        ServerMsg::RoomList { rooms } => assert_eq!(member_ids(&rooms, 2), vec![a]),
        other => panic!("unexpected reply {:?}", other),
    }

    let out = handle_msg(&mut s, a, ClientMsg::JoinRoom { room_id: 2 });
    assert!(out.broadcast.is_none());
    match out.reply {
        ServerMsg::Error { message } => assert_eq!(message, "room 2 not found or already joined"),
        other => panic!("unexpected reply {:?}", other),
    }

    let out = handle_msg(&mut s, a, ClientMsg::CreateRoom { name: "new".to_string() });
    match out.broadcast {
        Some(ServerMsg::RoomCreated { room }) => {
            assert_eq!(room.id, 4);
            assert_eq!(room.name, "new");
        }
        other => panic!("unexpected event {:?}", other),
    }
    match out.reply {
        ServerMsg::RoomList { rooms } => assert_eq!(sorted_ids(&rooms), vec![1, 2, 3, 4]),
        other => panic!("unexpected reply {:?}", other),
    }

    let out = handle_msg(&mut s, a, ClientMsg::LeaveRoom { room_id: 2 });
    assert!(matches!(out.broadcast, Some(ServerMsg::UserLeft { user_id, room_id: 2 }) if user_id == a));
    match out.reply {
        ServerMsg::RoomList { rooms } => assert_eq!(member_ids(&rooms, 2), Vec::<u32>::new()),
        other => panic!("unexpected reply {:?}", other),
    }
}

#[test]
fn refusal_text_spells_large_room_ids() {
    let mut s = ServerState::new();
    let out = handle_msg(&mut s, 123, ClientMsg::JoinRoom { room_id: 4294967295 });
    match out.reply {
        ServerMsg::Error { message } => assert_eq!(message, "room 4294967295 not found or already joined"),
        other => panic!("unexpected reply {:?}", other),
    }
    let out = handle_msg(&mut s, 123, ClientMsg::JoinRoom { room_id: 0 });
    match out.reply {
        ServerMsg::Error { message } => assert_eq!(message, "room 0 not found or already joined"),
        other => panic!("unexpected reply {:?}", other),
    }
}

#[test]
fn closing_a_session_forgets_the_user() {
    let mut s = ServerState::new();
    let (a, _) = s.register_user("ann".to_string());
    s.join_room(a, 1).unwrap();
    let event = close_session(&mut s, a);
    assert!(matches!(event, ServerMsg::UserLeft { user_id, room_id: 0 } if user_id == a));
    assert_eq!(s.user_room(a), None);
    assert_eq!(member_ids(&s.room_list(), 1), Vec::<u32>::new());
}

#[test]
fn relay_forwards_to_other_members() {
    let mut s = ServerState::new();
    let (a, _) = s.register_user("a".to_string());
    let (b, _) = s.register_user("b".to_string());
    s.join_room(a, 1).unwrap();
    s.join_room(b, 1).unwrap();
    let pkt = AudioPacket { user_id: a, room_id: 1, seq: 0, timestamp: 0, payload: vec![1, 2] };
    let bytes = pkt.encode().unwrap();
    // nobody else has an endpoint yet
    assert!(route_packet(&mut s, &bytes, addr(1111)).is_none());
    let from_b = AudioPacket { user_id: b, room_id: 1, seq: 0, timestamp: 0, payload: vec![3] }.encode().unwrap();
    let fwd = route_packet(&mut s, &from_b, addr(2222)).unwrap();
    assert_eq!(fwd.peers, vec![addr(1111)]);
    assert_eq!(fwd.bytes, from_b);
    let fwd = route_packet(&mut s, &bytes, addr(1111)).unwrap();
    assert_eq!(fwd.peers, vec![addr(2222)]);
    assert!(route_packet(&mut s, &[0xff], addr(3333)).is_none());
}

#[test]
fn connect_then_disconnect_restores_rooms() {
    let mut s = ServerState::new();
    let (a, _) = s.register_user("ann".to_string());
    s.join_room(a, 2).unwrap();
    let before: Vec<(u32, Vec<u32>)> = {
        let rooms = s.room_list();
        let mut v: Vec<(u32, Vec<u32>)> = rooms.iter().map(|r| (r.id, member_ids(&rooms, r.id))).collect();
        v.sort();
        v
    };
    let start = open_session(&mut s, ClientMsg::Connect { username: "bob".to_string() });
    let b = start.user_id.unwrap();
    assert_eq!(b, a + 1);
    close_session(&mut s, b);
    let rooms = s.room_list();
    let mut after: Vec<(u32, Vec<u32>)> = rooms.iter().map(|r| (r.id, member_ids(&rooms, r.id))).collect();
    after.sort();
    assert_eq!(before, after);
    assert_eq!(s.user_room(b), None);
    assert_eq!(s.user_room(a), Some(2));
    let (c, _) = s.register_user("cy".to_string());
    assert_eq!(c, b + 1);
}
