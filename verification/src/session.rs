//! Decisions of a signaling session: what a client message does to the
//! server state, what the server answers, and what it tells everyone else.

use vstd::prelude::*;
use vstd::string::StringExecFns;
use crate::client::string_push;
use crate::msg::{ClientMsg, RoomId, ServerMsg, UserId};
use crate::rooms::{lists_rooms, ServerState, ServerView};

verus! {

/// The character of decimal digit `d`.
pub open spec fn digit_char(d: nat) -> char {
    (48 + d) as char
}

/// The decimal notation of `n`, without leading zeros.
pub open spec fn decimal(n: nat) -> Seq<char>
    decreases n,
{
    if n < 10 {
        seq![digit_char(n)]
    } else {
        decimal(n / 10).push(digit_char(n % 10))
    }
}

/// The character of the decimal digit `d`.
fn digit(d: u32) -> (c: char)
    requires
        d < 10,
    ensures
        c == digit_char(d as nat),
{
    match d {
        0 => '0',
        1 => '1',
        2 => '2',
        3 => '3',
        4 => '4',
        5 => '5',
        6 => '6',
        7 => '7',
        8 => '8',
        _ => '9',
    }
}

/// Appends the decimal notation of `n` to `out`.
fn write_decimal(n: u32, out: &mut String)
    ensures
        final(out)@ == old(out)@ + decimal(n as nat),
    decreases n,
{
    if n >= 10 {
        write_decimal(n / 10, out);
    }
    string_push(out, digit(n % 10));
}

/// The text of the error a refused join request gets.
pub open spec fn join_error_text(room_id: RoomId) -> Seq<char> {
    "room "@ + decimal(room_id as nat) + " not found or already joined"@
}

/// Whether a broadcast event is passed on to the client of `user_id`:
/// a client is not told of its own arrival in or departure from a room.
pub open spec fn forwards(user_id: UserId, msg: ServerMsg) -> bool {
    match msg {
        ServerMsg::UserLeft { user_id: uid, .. } => uid != user_id,
        ServerMsg::UserJoined { user, .. } => user.id != user_id,
        _ => true,
    }
}

/// Decides whether a broadcast event goes to the client of `user_id`.
pub fn should_forward(user_id: UserId, msg: &ServerMsg) -> (r: bool)
    ensures
        r == forwards(user_id, *msg),
{
    match msg {
        ServerMsg::UserLeft { user_id: uid, .. } => *uid != user_id,
        ServerMsg::UserJoined { user, .. } => user.id != user_id,
        _ => true,
    }
}

/// What handling one client message produces: an event for every session,
/// and the reply to the sender.
#[derive(Debug)]
pub struct Outcome {
    pub broadcast: Option<ServerMsg>,
    pub reply: ServerMsg,
}

/// `reply` is a room list describing `rooms`.
pub open spec fn is_room_list(reply: ServerMsg, v: ServerView) -> bool {
    reply matches ServerMsg::RoomList { rooms } && lists_rooms(rooms@, v.rooms)
}

/// Handles a message of the connected client `user_id`.
pub fn handle_msg(state: &mut ServerState, user_id: UserId, msg: ClientMsg) -> (out: Outcome)
    requires
        old(state)@.wf(),
    ensures
        final(state)@.wf(),
        old(state)@.invariants() && old(state)@.next_room_id < u32::MAX ==> final(state)@.invariants(),
        match msg {
            ClientMsg::Connect { .. } => {
                &&& final(state)@ == old(state)@
                &&& out.broadcast is None
                &&& out.reply matches ServerMsg::Error { message } && message@ == "already connected"@
            },
            ClientMsg::JoinRoom { room_id } => {
                if old(state)@.join_refused(user_id, room_id) {
                    &&& final(state)@ == old(state)@
                    &&& out.broadcast is None
                    &&& out.reply matches ServerMsg::Error { message } && message@ == join_error_text(room_id)
                } else {
                    &&& out.broadcast matches Some(ServerMsg::UserJoined { user, room_id: rid })
                    &&& rid == room_id
                    &&& old(state)@.listing(user_id, out.broadcast->0->user)
                    &&& final(state)@ == old(state)@.join(user_id, room_id, out.broadcast->0->user)
                    &&& is_room_list(out.reply, final(state)@)
                }
            },
            ClientMsg::LeaveRoom { room_id } => {
                &&& final(state)@ == old(state)@.leave(user_id, room_id)
                &&& out.broadcast == Some(ServerMsg::UserLeft { user_id, room_id })
                &&& is_room_list(out.reply, final(state)@)
            },
            ClientMsg::CreateRoom { name } => {
                &&& final(state)@ == old(state)@.create_room(name@)
                &&& out.broadcast matches Some(ServerMsg::RoomCreated { room })
                &&& room.id == old(state)@.next_room_id
                &&& room.name@ == name@
                &&& room.users@.len() == 0
                &&& is_room_list(out.reply, final(state)@)
            },
            ClientMsg::Ping => {
                &&& final(state)@ == old(state)@
                &&& out.broadcast is None
                &&& out.reply == ServerMsg::Pong
            },
        },
{
    match msg {
        ClientMsg::Connect { .. } => {
            Outcome { broadcast: None, reply: ServerMsg::Error { message: "already connected".to_owned() } }
        },
        ClientMsg::JoinRoom { room_id } => {
            match state.join_room(user_id, room_id) {
                Some(user_info) => {
                    let event = ServerMsg::UserJoined { user: user_info.clone(), room_id };
                    Outcome { broadcast: Some(event), reply: ServerMsg::RoomList { rooms: state.room_list() } }
                },
                None => {
                    let mut message = "room ".to_owned();
                    write_decimal(room_id, &mut message);
                    message.append(" not found or already joined");
                    Outcome { broadcast: None, reply: ServerMsg::Error { message } }
                },
            }
        },
        ClientMsg::LeaveRoom { room_id } => {
            state.leave_room(user_id, room_id);
            Outcome {
                broadcast: Some(ServerMsg::UserLeft { user_id, room_id }),
                reply: ServerMsg::RoomList { rooms: state.room_list() },
            }
        },
        ClientMsg::CreateRoom { name } => {
            let room = state.create_room(name);
            Outcome {
                broadcast: Some(ServerMsg::RoomCreated { room }),
                reply: ServerMsg::RoomList { rooms: state.room_list() },
            }
        },
        ClientMsg::Ping => Outcome { broadcast: None, reply: ServerMsg::Pong },
    }
}

/// How a session starts: the id of the registered user and the reply to
/// its first message; no id where that message was not `Connect`.
#[derive(Debug)]
pub struct SessionStart {
    pub user_id: Option<UserId>,
    pub reply: ServerMsg,
}

/// Handles the first message of a session, which must be `Connect`.
pub fn open_session(state: &mut ServerState, first: ClientMsg) -> (s: SessionStart)
    requires
        old(state)@.wf(),
    ensures
        final(state)@.wf(),
        old(state)@.invariants() && old(state)@.next_user_id < u32::MAX ==> final(state)@.invariants(),
        match first {
            ClientMsg::Connect { username } => {
                &&& final(state)@ == old(state)@.register(username@)
                &&& s.user_id == Some(old(state)@.next_user_id)
                &&& s.reply matches ServerMsg::Connected { user_id, rooms }
                &&& user_id == old(state)@.next_user_id
                &&& lists_rooms(rooms@, final(state)@.rooms)
            },
            _ => {
                &&& final(state)@ == old(state)@
                &&& s.user_id is None
                &&& s.reply matches ServerMsg::Error { message }
                &&& message@ == "expected Connect as first message"@
            },
        },
{
    match first {
        ClientMsg::Connect { username } => {
            let (id, rooms) = state.register_user(username);
            SessionStart { user_id: Some(id), reply: ServerMsg::Connected { user_id: id, rooms } }
        },
        _ => SessionStart {
            user_id: None,
            reply: ServerMsg::Error { message: "expected Connect as first message".to_owned() },
        },
    }
}

/// Ends the session of `user_id`: forgets the user and returns the event
/// to broadcast, a departure from every room (room id 0).
pub fn close_session(state: &mut ServerState, user_id: UserId) -> (event: ServerMsg)
    requires
        old(state)@.wf(),
    ensures
        final(state)@.wf(),
        final(state)@ == old(state)@.remove_user(user_id),
        old(state)@.invariants() ==> final(state)@.invariants(),
        event == (ServerMsg::UserLeft { user_id, room_id: 0 }),
{
    state.remove_user(user_id);
    ServerMsg::UserLeft { user_id, room_id: 0 }
}

} // verus!
