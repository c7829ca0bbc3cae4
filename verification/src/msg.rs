//! Messages exchanged between client and server over the signaling channel.

use vstd::prelude::*;

verus! {

/// Identifier of a connected user.
pub type UserId = u32;

/// Identifier of a room.
pub type RoomId = u32;

/// Public metadata of a user, as listed in a room.
#[derive(Debug)]
pub struct UserInfo {
    pub id: UserId,
    pub username: String,
    pub muted: bool,
}

impl Clone for UserInfo {
    fn clone(&self) -> (r: Self)
        ensures
            r == *self,
    {
        UserInfo { id: self.id, username: self.username.clone(), muted: self.muted }
    }
}

/// Public metadata of a room together with its current members.
#[derive(Debug, Clone)]
pub struct RoomInfo {
    pub id: RoomId,
    pub name: String,
    pub users: Vec<UserInfo>,
}

/// Plain-value model of a room listing.
pub struct RoomInfoView {
    pub id: RoomId,
    pub name: Seq<char>,
    pub users: Seq<UserInfo>,
}

impl View for RoomInfo {
    type V = RoomInfoView;

    open spec fn view(&self) -> RoomInfoView {
        RoomInfoView { id: self.id, name: self.name@, users: self.users@ }
    }
}

/// Messages from a client to the server.
#[derive(Debug, Clone)]
pub enum ClientMsg {
    /// First message of a session: announces the user's name.
    Connect { username: String },
    /// Enter a room.
    JoinRoom { room_id: RoomId },
    /// Leave a room.
    LeaveRoom { room_id: RoomId },
    /// Create a new room.
    CreateRoom { name: String },
    /// Heartbeat.
    Ping,
}

/// Messages from the server to a client.
#[derive(Debug, Clone)]
pub enum ServerMsg {
    /// Reply to `Connect`: the id assigned to the user and the room list.
    Connected { user_id: UserId, rooms: Vec<RoomInfo> },
    /// Updated list of rooms.
    RoomList { rooms: Vec<RoomInfo> },
    /// A room was created.
    RoomCreated { room: RoomInfo },
    /// A user entered a room.
    UserJoined { user: UserInfo, room_id: RoomId },
    /// A user left a room; room id 0 means every room.
    UserLeft { user_id: UserId, room_id: RoomId },
    /// Volume level of a user; the level (0.0 to 1.0) travels as the bit
    /// pattern of a 32-bit float.
    VolumeUpdate { user_id: UserId, room_id: RoomId, level_bits: u32 },
    /// An error report.
    Error { message: String },
    /// Reply to `Ping`.
    Pong,
}

} // verus!
