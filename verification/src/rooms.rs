//! The server's registry of connected users and rooms.

use vstd::prelude::*;
use std::collections::HashMap;
use dashmap::DashMap;
use vstd::std_specs::hash::spec_keys_iter;
use vstd::std_specs::iter::IteratorSpec;
use crate::msg::{RoomId, RoomInfo, UserId, UserInfo};

verus! {

broadcast use vstd::std_specs::hash::group_hash_axioms;

/// `ks` lists every element of `dom` exactly once.
pub open spec fn enumerates(ks: Seq<u32>, dom: Set<u32>) -> bool {
    &&& ks.no_duplicates()
    &&& ks.to_set() == dom
}

/// `s` lists the values of `m`, each once, in some order.
pub open spec fn lists_members(s: Seq<UserInfo>, m: Map<UserId, UserInfo>) -> bool {
    exists|ks: Seq<u32>|
        #![trigger enumerates(ks, m.dom())]
        enumerates(ks, m.dom()) && s.len() == ks.len() && forall|i: int|
            0 <= i < ks.len() ==> s[i] == #[trigger] m[ks[i]]
}

/// The keys a `HashMap` iterator yields list each key of the map once.
proof fn lemma_keys_enumerate<V>(m: &HashMap<u32, V>)
    ensures
        enumerates(spec_keys_iter(m).remaining().unref(), m@.dom()),
{
    let rem = spec_keys_iter(m).remaining();
    let ks = rem.unref();
    assert(ks.no_duplicates()) by {
        assert forall|i: int, j: int| 0 <= i < ks.len() && 0 <= j < ks.len() && i != j implies ks[i] != ks[j] by {
            assert(rem[i] != rem[j]);
        }
    }
}

/// A room.
#[derive(Debug)]
pub struct Room {
    pub id: RoomId,
    pub name: String,
    /// user id -> user
    pub users: HashMap<UserId, UserInfo>,
}

/// Plain-value model of a room.
pub struct RoomView {
    pub id: RoomId,
    pub name: Seq<char>,
    pub users: Map<UserId, UserInfo>,
}

impl View for Room {
    type V = RoomView;

    open spec fn view(&self) -> RoomView {
        RoomView { id: self.id, name: self.name@, users: self.users@ }
    }
}

/// `info` describes the room `r`: same id and name, and its members in
/// some order.
pub open spec fn describes(info: RoomInfo, r: RoomView) -> bool {
    &&& info.id == r.id
    &&& info.name@ == r.name
    &&& lists_members(info.users@, r.users)
}

impl Room {
    /// An empty room.
    pub fn new(id: RoomId, name: String) -> (r: Room)
        ensures
            r@ == (RoomView { id, name: name@, users: Map::empty() }),
    {
        Room { id, name, users: HashMap::new() }
    }

    /// A copy of the room.
    pub fn duplicate(&self) -> (r: Room)
        ensures
            r@ == self@,
    {
        Room { id: self.id, name: self.name.clone(), users: self.users.clone() }
    }

    /// The room's public metadata, its members listed in map order.
    pub fn to_info(&self) -> (info: RoomInfo)
        ensures
            describes(info, self@),
    {
        let mut users: Vec<UserInfo> = Vec::new();
        let ghost mut ks: Seq<u32> = Seq::empty();
        for k in it: self.users.keys()
            invariant
                users.len() == it.index(),
                ks.len() == it.index(),
                it.seq() == spec_keys_iter(&self.users).remaining(),
                forall|i: int| 0 <= i < it.index() ==> ks[i] == *it.seq()[i],
                forall|i: int| 0 <= i < it.index() ==> users@[i] == #[trigger] self.users@[ks[i]],
        {
            proof {
                ks = ks.push(*k);
            }
            match self.users.get(k) {
                Some(v) => users.push(v.clone()),
                None => {},
            }
        }
        proof {
            lemma_keys_enumerate(&self.users);
            assert(ks =~= spec_keys_iter(&self.users).remaining().unref());
        }
        RoomInfo { id: self.id, name: self.name.clone(), users }
    }
}


/// A UDP endpoint of a client, as plain values.
#[derive(Debug, Clone, Copy, PartialEq, Eq)]
pub enum PeerAddr {
    V4 { ip4: [u8; 4], port: u16 },
    V6 { ip6: [u8; 16], port: u16, flowinfo: u32, scope_id: u32 },
}

/// A connected client, as the server keeps it.
#[derive(Debug, Clone)]
pub struct ConnectedUser {
    pub id: UserId,
    pub username: String,
    pub room_id: Option<RoomId>,
    /// UDP endpoint of the client, known once its first audio packet came.
    pub udp_addr: Option<PeerAddr>,
}

/// Plain-value model of a connected client.
pub struct ConnectedUserView {
    pub id: UserId,
    pub username: Seq<char>,
    pub room_id: Option<RoomId>,
    pub udp_addr: Option<PeerAddr>,
}

impl View for ConnectedUser {
    type V = ConnectedUserView;

    open spec fn view(&self) -> ConnectedUserView {
        ConnectedUserView {
            id: self.id,
            username: self.username@,
            room_id: self.room_id,
            udp_addr: self.udp_addr,
        }
    }
}

impl ConnectedUser {
    /// A copy of the record.
    pub fn duplicate(&self) -> (r: ConnectedUser)
        ensures
            r@ == self@,
    {
        ConnectedUser {
            id: self.id,
            username: self.username.clone(),
            room_id: self.room_id,
            udp_addr: self.udp_addr,
        }
    }
}

#[verifier::external_type_specification]
#[verifier::external_body]
#[verifier::reject_recursive_types(K)]
#[verifier::reject_recursive_types(V)]
#[verifier::reject_recursive_types(S)]
pub struct ExDashMap<K, V, S>(DashMap<K, V, S>);

/// What a table of connected users holds, by user id.
pub uninterp spec fn user_table(m: DashMap<UserId, ConnectedUser>) -> Map<UserId, ConnectedUserView>;

/// What a table of rooms holds, by room id.
pub uninterp spec fn room_table(m: DashMap<RoomId, Room>) -> Map<RoomId, RoomView>;

/// Calls `DashMap::new`, which makes an empty map.
#[verifier::external_body]
fn users_new() -> (m: DashMap<UserId, ConnectedUser>)
    ensures
        user_table(m) == (Map::<UserId, ConnectedUserView>::empty()),
{
    DashMap::new()
}

/// Calls `DashMap::insert`, which maps `k` to `v` and hands back the value
/// it replaced, if any.
#[verifier::external_body]
fn users_insert(m: &mut DashMap<UserId, ConnectedUser>, k: UserId, v: ConnectedUser) -> (prev: Option<ConnectedUser>)
    ensures
        user_table(*final(m)) == user_table(*old(m)).insert(k, v@),
        prev is Some <==> user_table(*old(m)).contains_key(k),
        prev is Some ==> prev.unwrap()@ == user_table(*old(m))[k],
{
    m.insert(k, v)
}

/// Calls `DashMap::remove`, which takes the entry of `k` out of the map and
/// hands back its value, if there was one.
#[verifier::external_body]
fn users_remove(m: &mut DashMap<UserId, ConnectedUser>, k: UserId) -> (r: Option<ConnectedUser>)
    ensures
        user_table(*final(m)) == user_table(*old(m)).remove(k),
        r is Some <==> user_table(*old(m)).contains_key(k),
        r is Some ==> r.unwrap()@ == user_table(*old(m))[k],
{
    m.remove(&k).map(|(_, v)| v)
}

/// Calls `DashMap::get` and copies the value found, if any.
#[verifier::external_body]
fn users_get(m: &DashMap<UserId, ConnectedUser>, k: UserId) -> (r: Option<ConnectedUser>)
    ensures
        r is Some <==> user_table(*m).contains_key(k),
        r is Some ==> r.unwrap()@ == user_table(*m)[k],
{
    m.get(&k).map(|e| e.duplicate())
}

/// Calls `DashMap::new`, which makes an empty map.
#[verifier::external_body]
fn rooms_new() -> (m: DashMap<RoomId, Room>)
    ensures
        room_table(m) == (Map::<RoomId, RoomView>::empty()),
{
    DashMap::new()
}

/// Calls `DashMap::insert`, which maps `k` to `v` and hands back the value
/// it replaced, if any.
#[verifier::external_body]
fn rooms_insert(m: &mut DashMap<RoomId, Room>, k: RoomId, v: Room) -> (prev: Option<Room>)
    ensures
        room_table(*final(m)) == room_table(*old(m)).insert(k, v@),
        prev is Some <==> room_table(*old(m)).contains_key(k),
        prev is Some ==> prev.unwrap()@ == room_table(*old(m))[k],
{
    m.insert(k, v)
}

/// Calls `DashMap::remove`, which takes the entry of `k` out of the map and
/// hands back its value, if there was one.
#[verifier::external_body]
fn rooms_remove(m: &mut DashMap<RoomId, Room>, k: RoomId) -> (r: Option<Room>)
    ensures
        room_table(*final(m)) == room_table(*old(m)).remove(k),
        r is Some <==> room_table(*old(m)).contains_key(k),
        r is Some ==> r.unwrap()@ == room_table(*old(m))[k],
{
    m.remove(&k).map(|(_, v)| v)
}

/// Calls `DashMap::contains_key`, which tells whether `k` has an entry.
#[verifier::external_body]
fn rooms_contains(m: &DashMap<RoomId, Room>, k: RoomId) -> (r: bool)
    ensures
        r == room_table(*m).contains_key(k),
{
    m.contains_key(&k)
}

/// Calls `DashMap::get` and copies the room found, if any.
#[verifier::external_body]
fn rooms_get(m: &DashMap<RoomId, Room>, k: RoomId) -> (r: Option<Room>)
    ensures
        r is Some <==> room_table(*m).contains_key(k),
        r is Some ==> r.unwrap()@ == room_table(*m)[k],
{
    m.get(&k).map(|e| e.duplicate())
}

/// Calls `DashMap::iter` and collects the key of each entry; the iterator
/// visits every entry of every shard once, in an order that depends on the
/// hashes.
#[verifier::external_body]
fn room_ids(m: &DashMap<RoomId, Room>) -> (r: Vec<RoomId>)
    ensures
        enumerates(r@, room_table(*m).dom()),
{
    m.iter().map(|e| *e.key()).collect()
}


/// The id that follows `n` in allocation order; allocation wraps around
/// after `u32::MAX`, as an atomic `fetch_add` does.
pub open spec fn next_id(n: u32) -> u32 {
    if n == u32::MAX { 0 } else { (n + 1) as u32 }
}

fn take_id(next: &mut u32) -> (id: u32)
    ensures
        id == *old(next),
        *final(next) == next_id(*old(next)),
{
    let id = *next;
    *next = if id == u32::MAX { 0 } else { id + 1 };
    id
}

/// Hands out a fresh user id from the counter `next` and advances it.
pub fn new_user_id(next: &mut u32) -> (id: UserId)
    ensures
        id == *old(next),
        *final(next) == next_id(*old(next)),
{
    take_id(next)
}

/// Hands out a fresh room id from the counter `next` and advances it.
pub fn new_room_id(next: &mut u32) -> (id: RoomId)
    ensures
        id == *old(next),
        *final(next) == next_id(*old(next)),
{
    take_id(next)
}

/// Plain-value model of the server's state.
pub struct ServerView {
    pub users: Map<UserId, ConnectedUserView>,
    pub rooms: Map<RoomId, RoomView>,
    pub next_user_id: u32,
    pub next_room_id: u32,
}

impl ServerView {
    /// Every record sits under its own id, and the tables are finite.
    pub open spec fn wf(self) -> bool {
        &&& self.users.dom().finite()
        &&& self.rooms.dom().finite()
        &&& forall|u: UserId| #[trigger] self.users.contains_key(u) ==> self.users[u].id == u
        &&& forall|r: RoomId| #[trigger] self.rooms.contains_key(r) ==> self.rooms[r].id == r
        &&& forall|r: RoomId, u: UserId|
            self.rooms.contains_key(r) && #[trigger] self.rooms[r].users.contains_key(u)
                ==> self.rooms[r].users[u].id == u
    }

    /// The rooms after `uid` left room `rid` (no change where there is no
    /// such room).
    pub open spec fn rooms_without(self, rid: RoomId, uid: UserId) -> Map<RoomId, RoomView> {
        if self.rooms.contains_key(rid) {
            let r = self.rooms[rid];
            self.rooms.insert(rid, RoomView { id: r.id, name: r.name, users: r.users.remove(uid) })
        } else {
            self.rooms
        }
    }

    /// The rooms after `info` entered room `rid` (no change where there is
    /// no such room).
    pub open spec fn rooms_with(self, rid: RoomId, info: UserInfo) -> Map<RoomId, RoomView> {
        if self.rooms.contains_key(rid) {
            let r = self.rooms[rid];
            self.rooms.insert(rid, RoomView { id: r.id, name: r.name, users: r.users.insert(info.id, info) })
        } else {
            self.rooms
        }
    }

    /// The state with `uid` taken out of room `rid`.
    pub open spec fn leave_inner(self, uid: UserId, rid: RoomId) -> ServerView {
        ServerView { rooms: self.rooms_without(rid, uid), ..self }
    }

    /// Whether the request of `uid` to join `rid` is refused: the user is
    /// unknown, already in that room, or there is no such room.
    pub open spec fn join_refused(self, uid: UserId, rid: RoomId) -> bool {
        ||| !self.users.contains_key(uid)
        ||| self.users[uid].room_id == Some(rid)
        ||| !self.rooms.contains_key(rid)
    }

    /// The state after user `uid` joined the existing room `rid`, with
    /// `info` the listing made for the user: it leaves its current room, its
    /// current room becomes `rid`, and `info` is added to the members of
    /// `rid`.
    pub open spec fn join(self, uid: UserId, rid: RoomId, info: UserInfo) -> ServerView {
        let u = self.users[uid];
        let left = match u.room_id {
            Some(old_room) => self.leave_inner(uid, old_room),
            None => self,
        };
        let moved = ServerView {
            users: left.users.insert(uid, ConnectedUserView { room_id: Some(rid), ..u }),
            ..left
        };
        ServerView { rooms: moved.rooms_with(rid, info), ..moved }
    }

    /// The listing a user gets when entering a room.
    pub open spec fn listing(self, uid: UserId, info: UserInfo) -> bool {
        &&& info.id == uid
        &&& info.username@ == self.users[uid].username
        &&& !info.muted
    }

    /// The state after user `uid` asked to leave room `rid`.
    pub open spec fn leave(self, uid: UserId, rid: RoomId) -> ServerView {
        let users = if self.users.contains_key(uid) && self.users[uid].room_id == Some(rid) {
            self.users.insert(uid, ConnectedUserView { room_id: None, ..self.users[uid] })
        } else {
            self.users
        };
        ServerView { users, rooms: self.rooms_without(rid, uid), ..self }
    }

    /// The state after user `uid` disconnected.
    pub open spec fn remove_user(self, uid: UserId) -> ServerView {
        if self.users.contains_key(uid) {
            let gone = ServerView { users: self.users.remove(uid), ..self };
            match self.users[uid].room_id {
                Some(rid) => gone.leave_inner(uid, rid),
                None => gone,
            }
        } else {
            self
        }
    }

    /// The state after a user named `username` registered.
    pub open spec fn register(self, username: Seq<char>) -> ServerView {
        let id = self.next_user_id;
        ServerView {
            users: self.users.insert(id, ConnectedUserView { id, username, room_id: None, udp_addr: None }),
            next_user_id: next_id(id),
            ..self
        }
    }

    /// The state after a room named `name` was created.
    pub open spec fn create_room(self, name: Seq<char>) -> ServerView {
        let id = self.next_room_id;
        ServerView {
            rooms: self.rooms.insert(id, RoomView { id, name, users: Map::empty() }),
            next_room_id: next_id(id),
            ..self
        }
    }

    /// The state after the UDP endpoint of `uid` became `addr`.
    pub open spec fn set_udp_addr(self, uid: UserId, addr: PeerAddr) -> ServerView {
        if self.users.contains_key(uid) {
            ServerView {
                users: self.users.insert(uid, ConnectedUserView { udp_addr: Some(addr), ..self.users[uid] }),
                ..self
            }
        } else {
            self
        }
    }

    /// The UDP endpoints known for the users `ks`, skipping `sender` and
    /// users without an endpoint, in the order of `ks`.
    pub open spec fn endpoints(self, ks: Seq<UserId>, sender: UserId) -> Seq<PeerAddr>
        decreases ks.len(),
    {
        if ks.len() == 0 {
            Seq::empty()
        } else {
            let rest = self.endpoints(ks.drop_last(), sender);
            let k = ks.last();
            if k != sender && self.users.contains_key(k) && self.users[k].udp_addr is Some {
                rest.push(self.users[k].udp_addr.unwrap())
            } else {
                rest
            }
        }
    }

    /// `addrs` are the endpoints of the other members of room `rid`, in
    /// some order of the members.
    pub open spec fn peers(self, rid: RoomId, sender: UserId, addrs: Seq<PeerAddr>) -> bool {
        if self.rooms.contains_key(rid) {
            exists|ks: Seq<UserId>|
                #![trigger enumerates(ks, self.rooms[rid].users.dom())]
                enumerates(ks, self.rooms[rid].users.dom()) && addrs == self.endpoints(ks, sender)
        } else {
            addrs.len() == 0
        }
    }
}

/// `s` describes the rooms of `rooms`, each once, in some order.
pub open spec fn lists_rooms(s: Seq<RoomInfo>, rooms: Map<RoomId, RoomView>) -> bool {
    exists|ks: Seq<u32>|
        #![trigger enumerates(ks, rooms.dom())]
        enumerates(ks, rooms.dom()) && s.len() == ks.len() && forall|i: int|
            0 <= i < ks.len() ==> describes(s[i], #[trigger] rooms[ks[i]])
}

/// The server's shared state: connected users and rooms, plus the counters
/// that hand out their ids.
pub struct ServerState {
    users: DashMap<UserId, ConnectedUser>,
    rooms: DashMap<RoomId, Room>,
    next_user_id: u32,
    next_room_id: u32,
}

impl View for ServerState {
    type V = ServerView;

    closed spec fn view(&self) -> ServerView {
        ServerView {
            users: user_table(self.users),
            rooms: room_table(self.rooms),
            next_user_id: self.next_user_id,
            next_room_id: self.next_room_id,
        }
    }
}

impl ServerState {
    /// A state with no users and the three default rooms.
    pub fn new() -> (s: ServerState)
        ensures
            s@.wf(),
            s@.users == Map::<UserId, ConnectedUserView>::empty(),
            s@.rooms == map![
                1u32 => RoomView { id: 1, name: "general"@, users: Map::empty() },
                2u32 => RoomView { id: 2, name: "dev"@, users: Map::empty() },
                3u32 => RoomView { id: 3, name: "random"@, users: Map::empty() },
            ],
            s@.next_user_id == 1,
            s@.next_room_id == 4,
            s@.invariants(),
    {
        let mut s = ServerState { users: users_new(), rooms: rooms_new(), next_user_id: 1, next_room_id: 1 };
        let id = new_room_id(&mut s.next_room_id);
        rooms_insert(&mut s.rooms, id, Room::new(id, "general".to_owned()));
        let id = new_room_id(&mut s.next_room_id);
        rooms_insert(&mut s.rooms, id, Room::new(id, "dev".to_owned()));
        let id = new_room_id(&mut s.next_room_id);
        rooms_insert(&mut s.rooms, id, Room::new(id, "random".to_owned()));
        proof {
            assert(s@.rooms =~= map![
                1u32 => RoomView { id: 1, name: "general"@, users: Map::empty() },
                2u32 => RoomView { id: 2, name: "dev"@, users: Map::empty() },
                3u32 => RoomView { id: 3, name: "random"@, users: Map::empty() },
            ]);
        }
        s
    }

    /// Lists every room.
    pub fn room_list(&self) -> (rooms: Vec<RoomInfo>)
        ensures
            lists_rooms(rooms@, self@.rooms),
    {
        let ids = room_ids(&self.rooms);
        let mut out: Vec<RoomInfo> = Vec::new();
        let mut i: usize = 0;
        while i < ids.len()
            invariant
                i <= ids@.len(),
                enumerates(ids@, self@.rooms.dom()),
                out@.len() == i,
                forall|j: int| 0 <= j < i ==> describes(out@[j], #[trigger] self@.rooms[ids@[j]]),
            decreases ids@.len() - i,
        {
            assert(ids@.to_set().contains(ids@[i as int]));
            match rooms_get(&self.rooms, ids[i]) {
                Some(room) => out.push(room.to_info()),
                None => {},
            }
            i = i + 1;
        }
        out
    }

    /// Registers a user under a fresh id; returns the id and the room list.
    pub fn register_user(&mut self, username: String) -> (r: (UserId, Vec<RoomInfo>))
        requires
            old(self)@.wf(),
        ensures
            final(self)@ == old(self)@.register(username@),
            final(self)@.wf(),
            r.0 == old(self)@.next_user_id,
            lists_rooms(r.1@, final(self)@.rooms),
            old(self)@.invariants() ==> !old(self)@.users.contains_key(r.0) && final(self)@.consistent()
                && final(self)@.room_ids_below_next(),
            old(self)@.invariants() && old(self)@.next_user_id < u32::MAX ==> final(self)@.invariants(),
    {
        let id = new_user_id(&mut self.next_user_id);
        users_insert(&mut self.users, id, ConnectedUser { id, username, room_id: None, udp_addr: None });
        assert(self@.users =~= old(self)@.register(username@).users);
        proof {
            if old(self)@.invariants() {
                lemma_register_keeps_consistency(old(self)@, username@);
            }
        }
        let rooms = self.room_list();
        (id, rooms)
    }

    /// Takes `user_id` out of room `room_id`, if that room exists.
    fn leave_room_inner(&mut self, user_id: UserId, room_id: RoomId)
        requires
            old(self)@.wf(),
        ensures
            final(self)@ == old(self)@.leave_inner(user_id, room_id),
            final(self)@.wf(),
    {
        match rooms_remove(&mut self.rooms, room_id) {
            Some(mut room) => {
                let ghost before = room@;
                room.users.remove(&user_id);
                assert(room@.users =~= before.users.remove(user_id));
                rooms_insert(&mut self.rooms, room_id, room);
                proof {
                    assert(self@.rooms =~= old(self)@.rooms_without(room_id, user_id));
                }
            },
            None => {
                assert(self@.rooms =~= old(self)@.rooms);
            },
        }
    }

    /// Forgets a user and takes it out of its room.
    pub fn remove_user(&mut self, user_id: UserId)
        requires
            old(self)@.wf(),
        ensures
            final(self)@ == old(self)@.remove_user(user_id),
            final(self)@.wf(),
            old(self)@.invariants() ==> final(self)@.invariants(),
    {
        proof {
            if old(self)@.invariants() {
                lemma_remove_user_keeps_consistency(old(self)@, user_id);
            }
        }
        match users_remove(&mut self.users, user_id) {
            Some(user) => {
                assert(self@.users =~= old(self)@.users.remove(user_id));
                assert(self@.rooms == old(self)@.rooms);
                assert forall|u: UserId| #[trigger] self@.users.contains_key(u) implies self@.users[u].id == u by {
                    assert(old(self)@.users.contains_key(u));
                }
                assert(self@.wf());
                match user.room_id {
                    Some(room_id) => self.leave_room_inner(user_id, room_id),
                    None => {},
                }
            },
            None => {
                assert(self@.users =~= old(self)@.users);
            },
        }
    }

    /// Enters a room, leaving the current one first. Returns the user's
    /// listing, or `None` where the user is unknown, already in that room,
    /// or the room does not exist; a refused request changes nothing.
    pub fn join_room(&mut self, user_id: UserId, room_id: RoomId) -> (r: Option<UserInfo>)
        requires
            old(self)@.wf(),
        ensures
            final(self)@.wf(),
            r is None <==> old(self)@.join_refused(user_id, room_id),
            r is None ==> final(self)@ == old(self)@,
            r matches Some(info) ==> old(self)@.listing(user_id, info)
                && final(self)@ == old(self)@.join(user_id, room_id, info),
            old(self)@.invariants() ==> final(self)@.invariants(),
    {
        let user = match users_get(&self.users, user_id) {
            Some(u) => u,
            None => return None,
        };
        if user.room_id == Some(room_id) {
            return None;
        }
        if !rooms_contains(&self.rooms, room_id) {
            return None;
        }
        let ghost before = self@;
        match user.room_id {
            Some(old_room) => {
                self.leave_room_inner(user_id, old_room);
            },
            None => {},
        }
        let info = UserInfo { id: user_id, username: user.username.clone(), muted: false };
        let moved = ConnectedUser { room_id: Some(room_id), ..user };
        users_insert(&mut self.users, user_id, moved);
        match rooms_remove(&mut self.rooms, room_id) {
            Some(mut room) => {
                room.users.insert(user_id, info.clone());
                rooms_insert(&mut self.rooms, room_id, room);
            },
            None => {},
        }
        proof {
            let left = match before.users[user_id].room_id {
                Some(o) => before.leave_inner(user_id, o),
                None => before,
            };
            let mv = ServerView {
                users: left.users.insert(user_id, ConnectedUserView { room_id: Some(room_id), ..before.users[user_id] }),
                ..left
            };
            assert(self@.users =~= mv.users);
            assert(self@.rooms =~= mv.rooms_with(room_id, info));
            if before.invariants() {
                lemma_join_keeps_consistency(before, user_id, room_id, info);
            }
        }
        Some(info)
    }

    /// Leaves a room: clears the user's current room where it is that room,
    /// and takes the user out of the room's member list.
    pub fn leave_room(&mut self, user_id: UserId, room_id: RoomId)
        requires
            old(self)@.wf(),
        ensures
            final(self)@ == old(self)@.leave(user_id, room_id),
            final(self)@.wf(),
            old(self)@.invariants() ==> final(self)@.invariants(),
    {
        proof {
            if old(self)@.invariants() {
                lemma_leave_keeps_consistency(old(self)@, user_id, room_id);
            }
        }
        match users_get(&self.users, user_id) {
            Some(u) => {
                if u.room_id == Some(room_id) {
                    let cleared = ConnectedUser { room_id: None, ..u };
                    users_insert(&mut self.users, user_id, cleared);
                }
            },
            None => {},
        }
        assert(self@.users =~= old(self)@.leave(user_id, room_id).users);
        assert(self@.wf());
        self.leave_room_inner(user_id, room_id);
    }

    /// Creates an empty room under a fresh id and returns its listing.
    pub fn create_room(&mut self, name: String) -> (info: RoomInfo)
        requires
            old(self)@.wf(),
        ensures
            final(self)@ == old(self)@.create_room(name@),
            final(self)@.wf(),
            info.id == old(self)@.next_room_id,
            info.name@ == name@,
            info.users@.len() == 0,
            final(self)@.rooms.contains_key(info.id),
            final(self)@.rooms[info.id].name == name@,
            final(self)@.rooms[info.id].users.dom().is_empty(),
            old(self)@.invariants() ==> !old(self)@.rooms.contains_key(info.id)
                && final(self)@.rooms.dom().len() == old(self)@.rooms.dom().len() + 1
                && final(self)@.consistent() && final(self)@.ids_below_next(),
            old(self)@.invariants() && old(self)@.next_room_id < u32::MAX ==> final(self)@.invariants(),
    {
        proof {
            if old(self)@.invariants() {
                lemma_create_room_keeps_consistency(old(self)@, name@);
            }
        }
        let id = new_room_id(&mut self.next_room_id);
        let room = Room::new(id, name);
        let info = room.to_info();
        rooms_insert(&mut self.rooms, id, room);
        proof {
            let ks = choose|ks: Seq<u32>| #![trigger enumerates(ks, Map::<UserId, UserInfo>::empty().dom())]
                enumerates(ks, Map::<UserId, UserInfo>::empty().dom()) && info.users@.len() == ks.len();
            assert(ks.to_set().len() == 0);
            ks.unique_seq_to_set();
        }
        info
    }

    /// Records the UDP endpoint of a user.
    pub fn set_udp_addr(&mut self, user_id: UserId, addr: PeerAddr)
        requires
            old(self)@.wf(),
        ensures
            final(self)@ == old(self)@.set_udp_addr(user_id, addr),
            final(self)@.wf(),
            old(self)@.invariants() ==> final(self)@.invariants(),
    {
        proof {
            if old(self)@.invariants() {
                lemma_endpoint_keeps_consistency(old(self)@, user_id, addr);
            }
        }
        match users_get(&self.users, user_id) {
            Some(u) => {
                let updated = ConnectedUser { udp_addr: Some(addr), ..u };
                users_insert(&mut self.users, user_id, updated);
                assert(self@.users =~= old(self)@.set_udp_addr(user_id, addr).users);
                assert forall|k: UserId| #[trigger] self@.users.contains_key(k) implies self@.users[k].id == k by {
                    assert(old(self)@.users.contains_key(k));
                }
            },
            None => {},
        }
    }

    /// UDP endpoints of the members of a room other than `sender_id`, for
    /// the members whose endpoint is known; empty where there is no such
    /// room.
    pub fn room_udp_peers(&self, room_id: RoomId, sender_id: UserId) -> (addrs: Vec<PeerAddr>)
        ensures
            self@.peers(room_id, sender_id, addrs@),
    {
        let room = match rooms_get(&self.rooms, room_id) {
            Some(r) => r,
            None => return Vec::new(),
        };
        let mut out: Vec<PeerAddr> = Vec::new();
        let ghost mut ks: Seq<u32> = Seq::empty();
        for k in it: room.users.keys()
            invariant
                ks.len() == it.index(),
                it.seq() == spec_keys_iter(&room.users).remaining(),
                forall|i: int| 0 <= i < it.index() ==> ks[i] == *it.seq()[i],
                out@ == self@.endpoints(ks, sender_id),
        {
            let ghost prev = ks;
            proof {
                ks = ks.push(*k);
                assert(ks.drop_last() =~= prev);
            }
            if *k != sender_id {
                match users_get(&self.users, *k) {
                    Some(u) => match u.udp_addr {
                        Some(a) => out.push(a),
                        None => {},
                    },
                    None => {},
                }
            }
        }
        proof {
            lemma_keys_enumerate(&room.users);
            assert(ks =~= spec_keys_iter(&room.users).remaining().unref());
            assert(room@.users == self@.rooms[room_id].users);
            assert(enumerates(ks, self@.rooms[room_id].users.dom()));
        }
        out
    }

    /// The room a user is in.
    pub fn user_room(&self, user_id: UserId) -> (r: Option<RoomId>)
        ensures
            r == (if self@.users.contains_key(user_id) { self@.users[user_id].room_id } else { None }),
    {
        match users_get(&self.users, user_id) {
            Some(u) => u.room_id,
            None => None,
        }
    }
}

impl ServerView {
    /// Membership index consistency: a room lists a user only where that
    /// user is connected and has that room as its current room.
    pub open spec fn consistent(self) -> bool {
        forall|r: RoomId, u: UserId|
            self.rooms.contains_key(r) && #[trigger] self.rooms[r].users.contains_key(u)
                ==> self.users.contains_key(u) && self.users[u].room_id == Some(r)
    }

    /// Every connected user's id lies below the next id to hand out.
    pub open spec fn ids_below_next(self) -> bool {
        forall|u: UserId| #[trigger] self.users.contains_key(u) ==> u < self.next_user_id
    }

    /// Every room's id lies below the next id to hand out.
    pub open spec fn room_ids_below_next(self) -> bool {
        forall|r: RoomId| #[trigger] self.rooms.contains_key(r) ==> r < self.next_room_id
    }

    /// The invariants every reachable state keeps while the id counters
    /// have not wrapped around.
    pub open spec fn invariants(self) -> bool {
        &&& self.consistent()
        &&& self.ids_below_next()
        &&& self.room_ids_below_next()
    }
}

/// Registering hands out an id no connected user holds and keeps the index
/// consistent; it keeps every id below the counter as long as the counter
/// has not reached its last value.
pub proof fn lemma_register_keeps_consistency(v: ServerView, username: Seq<char>)
    requires
        v.wf(),
        v.invariants(),
    ensures
        !v.users.contains_key(v.next_user_id),
        v.register(username).wf(),
        v.register(username).consistent(),
        v.register(username).room_ids_below_next(),
        v.next_user_id < u32::MAX ==> v.register(username).invariants(),
{
    let w = v.register(username);
    assert forall|r: RoomId, u: UserId| w.rooms.contains_key(r) && #[trigger] w.rooms[r].users.contains_key(u)
        implies w.users.contains_key(u) && w.users[u].room_id == Some(r) by {
        assert(v.users.contains_key(u));
    }
}

/// Disconnecting keeps the index consistent, and the user is listed in no
/// room afterwards.
pub proof fn lemma_remove_user_keeps_consistency(v: ServerView, uid: UserId)
    requires
        v.wf(),
        v.invariants(),
    ensures
        v.remove_user(uid).wf(),
        v.remove_user(uid).invariants(),
        !v.remove_user(uid).users.contains_key(uid),
        forall|r: RoomId| #[trigger] v.remove_user(uid).rooms.contains_key(r)
            ==> !v.remove_user(uid).rooms[r].users.contains_key(uid),
{
    let w = v.remove_user(uid);
    if v.users.contains_key(uid) {
        assert forall|r: RoomId, u: UserId| w.rooms.contains_key(r) && #[trigger] w.rooms[r].users.contains_key(u)
            implies w.users.contains_key(u) && w.users[u].room_id == Some(r) by {
            assert(v.rooms[r].users.contains_key(u));
        }
        assert forall|r: RoomId| #[trigger] w.rooms.contains_key(r) implies !w.rooms[r].users.contains_key(uid) by {
            if v.rooms[r].users.contains_key(uid) {
                assert(v.users[uid].room_id == Some(r));
            }
        }
    } else {
        assert forall|r: RoomId| #[trigger] w.rooms.contains_key(r) implies !w.rooms[r].users.contains_key(uid) by {
            if v.rooms[r].users.contains_key(uid) {
                assert(v.users.contains_key(uid));
            }
        }
    }
}

/// Joining keeps the invariants; the user is listed in the joined room
/// with its listing, has it as its current room, and is listed in no other
/// room.
pub proof fn lemma_join_keeps_consistency(v: ServerView, uid: UserId, rid: RoomId, info: UserInfo)
    requires
        v.wf(),
        v.invariants(),
        !v.join_refused(uid, rid),
        v.listing(uid, info),
    ensures
        v.join(uid, rid, info).wf(),
        v.join(uid, rid, info).invariants(),
        v.join(uid, rid, info).users[uid].room_id == Some(rid),
        v.join(uid, rid, info).rooms[rid].users.contains_key(uid),
        v.join(uid, rid, info).rooms[rid].users[uid] == info,
        forall|r: RoomId| r != rid && #[trigger] v.join(uid, rid, info).rooms.contains_key(r)
            ==> !v.join(uid, rid, info).rooms[r].users.contains_key(uid),
{
    let w = v.join(uid, rid, info);
    assert forall|r: RoomId, u: UserId| w.rooms.contains_key(r) && #[trigger] w.rooms[r].users.contains_key(u)
        implies w.users.contains_key(u) && w.users[u].room_id == Some(r) by {
        if u != uid {
            assert(v.rooms[r].users.contains_key(u));
        }
    }
    assert forall|r: RoomId| r != rid && #[trigger] w.rooms.contains_key(r) implies !w.rooms[r].users.contains_key(uid) by {
        if v.rooms[r].users.contains_key(uid) {
            assert(v.users[uid].room_id == Some(r));
        }
    }
}

/// Joining moves only the joining user: every other user keeps its record
/// and is listed in each room exactly where it was before, with the same
/// listing; no room appears, disappears or changes id or name; the joining
/// user keeps its name and endpoint, has the joined room as its current
/// room and is listed there with `info`, and (where the index was
/// consistent) is listed in no other room.
pub proof fn lemma_join_moves_only_the_joiner(v: ServerView, uid: UserId, rid: RoomId, info: UserInfo)
    requires
        v.wf(),
        !v.join_refused(uid, rid),
        v.listing(uid, info),
    ensures
        v.join(uid, rid, info).rooms.dom() == v.rooms.dom(),
        v.join(uid, rid, info).users.dom() == v.users.dom(),
        v.join(uid, rid, info).next_user_id == v.next_user_id,
        v.join(uid, rid, info).next_room_id == v.next_room_id,
        forall|r: RoomId| #[trigger] v.rooms.contains_key(r) ==> v.join(uid, rid, info).rooms[r].id == v.rooms[r].id
            && v.join(uid, rid, info).rooms[r].name == v.rooms[r].name,
        forall|r: RoomId, u: UserId|
            #![trigger v.join(uid, rid, info).rooms[r].users.contains_key(u)]
            #![trigger v.rooms[r].users.contains_key(u)]
            v.rooms.contains_key(r) && u != uid ==> (v.join(uid, rid, info).rooms[r].users.contains_key(u)
                <==> v.rooms[r].users.contains_key(u)),
        forall|r: RoomId, u: UserId|
            v.rooms.contains_key(r) && u != uid && #[trigger] v.rooms[r].users.contains_key(u)
                ==> v.join(uid, rid, info).rooms[r].users[u] == v.rooms[r].users[u],
        forall|u: UserId| u != uid && #[trigger] v.users.contains_key(u) ==> v.join(uid, rid, info).users[u] == v.users[u],
        v.join(uid, rid, info).users[uid] == (ConnectedUserView { room_id: Some(rid), ..v.users[uid] }),
        v.join(uid, rid, info).rooms[rid].users.contains_key(uid),
        v.join(uid, rid, info).rooms[rid].users[uid] == info,
        v.consistent() ==> forall|r: RoomId| r != rid && #[trigger] v.rooms.contains_key(r)
            ==> !v.join(uid, rid, info).rooms[r].users.contains_key(uid),
{
    let w = v.join(uid, rid, info);
    assert(w.rooms.dom() =~= v.rooms.dom());
    assert(w.users.dom() =~= v.users.dom());
    if v.consistent() {
        assert forall|r: RoomId| r != rid && #[trigger] v.rooms.contains_key(r) implies !w.rooms[r].users.contains_key(uid) by {
            if v.rooms[r].users.contains_key(uid) {
                assert(v.users[uid].room_id == Some(r));
            }
        }
    }
}

/// Leaving takes only the leaving user out, and only of the room it names:
/// every other member of every room stays listed as before, no room
/// appears or disappears, every other user keeps its record, and the
/// leaving user's current room is cleared exactly where it was that room.
pub proof fn lemma_leave_moves_only_the_leaver(v: ServerView, uid: UserId, rid: RoomId)
    requires
        v.wf(),
    ensures
        v.leave(uid, rid).rooms.dom() == v.rooms.dom(),
        v.leave(uid, rid).users.dom() == v.users.dom(),
        forall|r: RoomId| #[trigger] v.rooms.contains_key(r) ==> v.leave(uid, rid).rooms[r].id == v.rooms[r].id
            && v.leave(uid, rid).rooms[r].name == v.rooms[r].name,
        forall|r: RoomId, u: UserId|
            #![trigger v.leave(uid, rid).rooms[r].users.contains_key(u)]
            #![trigger v.rooms[r].users.contains_key(u)]
            v.rooms.contains_key(r) && (u != uid || r != rid) ==> (v.leave(uid, rid).rooms[r].users.contains_key(u)
                <==> v.rooms[r].users.contains_key(u)),
        forall|r: RoomId, u: UserId|
            v.rooms.contains_key(r) && (u != uid || r != rid) && #[trigger] v.rooms[r].users.contains_key(u)
                ==> v.leave(uid, rid).rooms[r].users[u] == v.rooms[r].users[u],
        v.rooms.contains_key(rid) ==> !v.leave(uid, rid).rooms[rid].users.contains_key(uid),
        forall|u: UserId| u != uid && #[trigger] v.users.contains_key(u) ==> v.leave(uid, rid).users[u] == v.users[u],
        v.users.contains_key(uid) ==> v.leave(uid, rid).users[uid] == (ConnectedUserView {
            room_id: if v.users[uid].room_id == Some(rid) { None } else { v.users[uid].room_id },
            ..v.users[uid]
        }),
{
    assert(v.leave(uid, rid).rooms.dom() =~= v.rooms.dom());
    assert(v.leave(uid, rid).users.dom() =~= v.users.dom());
}

/// A disconnect forgets only that user: it is no longer connected, every
/// other user keeps its record, no room appears or disappears, every other
/// member stays listed as before, and (where the index was consistent) the
/// user is listed in no room.
pub proof fn lemma_remove_user_forgets_only_that_user(v: ServerView, uid: UserId)
    requires
        v.wf(),
    ensures
        v.remove_user(uid).users.dom() == v.users.dom().remove(uid),
        v.remove_user(uid).rooms.dom() == v.rooms.dom(),
        forall|u: UserId| u != uid && #[trigger] v.users.contains_key(u) ==> v.remove_user(uid).users[u] == v.users[u],
        forall|r: RoomId, u: UserId|
            #![trigger v.remove_user(uid).rooms[r].users.contains_key(u)]
            #![trigger v.rooms[r].users.contains_key(u)]
            v.rooms.contains_key(r) && u != uid ==> (v.remove_user(uid).rooms[r].users.contains_key(u)
                <==> v.rooms[r].users.contains_key(u)),
        v.consistent() ==> forall|r: RoomId| #[trigger] v.rooms.contains_key(r)
            ==> !v.remove_user(uid).rooms[r].users.contains_key(uid),
{
    let w = v.remove_user(uid);
    assert(w.users.dom() =~= v.users.dom().remove(uid));
    assert(w.rooms.dom() =~= v.rooms.dom());
    if v.consistent() {
        assert forall|r: RoomId| #[trigger] v.rooms.contains_key(r) implies !w.rooms[r].users.contains_key(uid) by {
            if v.rooms[r].users.contains_key(uid) {
                assert(v.users[uid].room_id == Some(r));
            }
        }
    }
}

/// Registering adds, under the id the counter held, a user with the given
/// name in no room and without an endpoint; every other user and every
/// room stay as they were.
pub proof fn lemma_register_adds_named_user(v: ServerView, username: Seq<char>)
    ensures
        v.register(username).users.contains_key(v.next_user_id),
        v.register(username).users[v.next_user_id] == (ConnectedUserView {
            id: v.next_user_id,
            username,
            room_id: None,
            udp_addr: None,
        }),
        forall|u: UserId| u != v.next_user_id ==> (#[trigger] v.register(username).users.contains_key(u)
            <==> v.users.contains_key(u)),
        forall|u: UserId| u != v.next_user_id && #[trigger] v.users.contains_key(u)
            ==> v.register(username).users[u] == v.users[u],
        v.register(username).rooms == v.rooms,
        v.register(username).next_room_id == v.next_room_id,
        v.register(username).next_user_id != v.next_user_id,
{
}

/// Creating a room adds, under the id the counter held, an empty room with
/// the given name; every other room and every user stays as it was.
pub proof fn lemma_create_room_adds_named_room(v: ServerView, name: Seq<char>)
    ensures
        v.create_room(name).rooms.contains_key(v.next_room_id),
        v.create_room(name).rooms[v.next_room_id].id == v.next_room_id,
        v.create_room(name).rooms[v.next_room_id].name == name,
        v.create_room(name).rooms[v.next_room_id].users.dom().is_empty(),
        forall|r: RoomId| r != v.next_room_id ==> (#[trigger] v.create_room(name).rooms.contains_key(r)
            <==> v.rooms.contains_key(r)),
        forall|r: RoomId| r != v.next_room_id && #[trigger] v.rooms.contains_key(r)
            ==> v.create_room(name).rooms[r] == v.rooms[r],
        v.create_room(name).users == v.users,
        v.create_room(name).next_user_id == v.next_user_id,
        v.create_room(name).next_room_id != v.next_room_id,
{
}

/// Leaving keeps the index consistent; afterwards the user is not listed
/// in that room, and where it was its current room the user is in none.
pub proof fn lemma_leave_keeps_consistency(v: ServerView, uid: UserId, rid: RoomId)
    requires
        v.wf(),
        v.invariants(),
    ensures
        v.leave(uid, rid).wf(),
        v.leave(uid, rid).invariants(),
        v.leave(uid, rid).rooms.contains_key(rid) ==> !v.leave(uid, rid).rooms[rid].users.contains_key(uid),
        v.users.contains_key(uid) && v.users[uid].room_id == Some(rid) ==> v.leave(uid, rid).users[uid].room_id is None,
{
    let w = v.leave(uid, rid);
    assert forall|r: RoomId, u: UserId| w.rooms.contains_key(r) && #[trigger] w.rooms[r].users.contains_key(u)
        implies w.users.contains_key(u) && w.users[u].room_id == Some(r) by {
        assert(v.rooms[r].users.contains_key(u));
    }
}

/// Creating a room uses an id no room holds, so there is one room more, and
/// keeps the index consistent; it keeps every room id below the counter as
/// long as the counter has not reached its last value.
pub proof fn lemma_create_room_keeps_consistency(v: ServerView, name: Seq<char>)
    requires
        v.wf(),
        v.invariants(),
    ensures
        !v.rooms.contains_key(v.next_room_id),
        v.create_room(name).rooms.dom().len() == v.rooms.dom().len() + 1,
        v.create_room(name).wf(),
        v.create_room(name).consistent(),
        v.create_room(name).ids_below_next(),
        v.next_room_id < u32::MAX ==> v.create_room(name).invariants(),
{
    let w = v.create_room(name);
    assert forall|r: RoomId, u: UserId| w.rooms.contains_key(r) && #[trigger] w.rooms[r].users.contains_key(u)
        implies w.users.contains_key(u) && w.users[u].room_id == Some(r) by {
        assert(v.rooms[r].users.contains_key(u));
    }
}

/// Recording an endpoint keeps the invariants.
pub proof fn lemma_endpoint_keeps_consistency(v: ServerView, uid: UserId, addr: PeerAddr)
    requires
        v.wf(),
        v.invariants(),
    ensures
        v.set_udp_addr(uid, addr).wf(),
        v.set_udp_addr(uid, addr).invariants(),
{
    let x = v.set_udp_addr(uid, addr);
    assert forall|r: RoomId, u: UserId| x.rooms.contains_key(r) && #[trigger] x.rooms[r].users.contains_key(u)
        implies x.users.contains_key(u) && x.users[u].room_id == Some(r) by {
        assert(v.rooms[r].users.contains_key(u));
    }
}

/// Each endpoint chosen for relaying belongs to a user among `ks` other
/// than the sender.
proof fn lemma_endpoints_from_others(v: ServerView, ks: Seq<UserId>, sender: UserId)
    ensures
        forall|i: int| 0 <= i < v.endpoints(ks, sender).len() ==> exists|j: int|
            0 <= j < ks.len() && ks[j] != sender && v.users.contains_key(ks[j])
                && #[trigger] v.endpoints(ks, sender)[i] == v.users[ks[j]].udp_addr.unwrap()
                && v.users[ks[j]].udp_addr is Some,
    decreases ks.len(),
{
    if ks.len() > 0 {
        let rest = ks.drop_last();
        lemma_endpoints_from_others(v, rest, sender);
        assert forall|i: int| 0 <= i < v.endpoints(ks, sender).len() implies exists|j: int|
            0 <= j < ks.len() && ks[j] != sender && v.users.contains_key(ks[j])
                && #[trigger] v.endpoints(ks, sender)[i] == v.users[ks[j]].udp_addr.unwrap()
                && v.users[ks[j]].udp_addr is Some by {
            if i < v.endpoints(rest, sender).len() {
                let j = choose|j: int| 0 <= j < rest.len() && rest[j] != sender && v.users.contains_key(rest[j])
                    && #[trigger] v.endpoints(rest, sender)[i] == v.users[rest[j]].udp_addr.unwrap()
                    && v.users[rest[j]].udp_addr is Some;
                assert(ks[j] == rest[j]);
            } else {
                assert(ks[ks.len() - 1] == ks.last());
            }
        }
    }
}

/// The relay never sends a packet back to its sender: every chosen
/// endpoint is the known endpoint of another member of the room.
pub proof fn lemma_peers_exclude_sender(v: ServerView, rid: RoomId, sender: UserId, addrs: Seq<PeerAddr>)
    requires
        v.peers(rid, sender, addrs),
    ensures
        forall|i: int| 0 <= i < addrs.len() ==> exists|u: UserId|
            u != sender && v.rooms[rid].users.contains_key(u) && v.users.contains_key(u)
                && v.users[u].udp_addr == Some(#[trigger] addrs[i]),
{
    if v.rooms.contains_key(rid) {
        let ks = choose|ks: Seq<UserId>| #![trigger enumerates(ks, v.rooms[rid].users.dom())]
            enumerates(ks, v.rooms[rid].users.dom()) && addrs == v.endpoints(ks, sender);
        lemma_endpoints_from_others(v, ks, sender);
        assert forall|i: int| 0 <= i < addrs.len() implies exists|u: UserId|
            u != sender && v.rooms[rid].users.contains_key(u) && v.users.contains_key(u)
                && v.users[u].udp_addr == Some(#[trigger] addrs[i]) by {
            let j = choose|j: int| 0 <= j < ks.len() && ks[j] != sender && v.users.contains_key(ks[j])
                && #[trigger] v.endpoints(ks, sender)[i] == v.users[ks[j]].udp_addr.unwrap()
                && v.users[ks[j]].udp_addr is Some;
            assert(ks.to_set().contains(ks[j]));
        }
    }
}

/// A session that connects and disconnects leaves users and rooms as they
/// were; only the id counter has moved on.
pub proof fn lemma_connect_then_disconnect(v: ServerView, username: Seq<char>)
    requires
        !v.users.contains_key(v.next_user_id),
    ensures
        v.register(username).remove_user(v.next_user_id) == (ServerView { next_user_id: next_id(v.next_user_id), ..v }),
{
    let w = v.register(username);
    assert(w.users.remove(v.next_user_id) =~= v.users);
}

} // verus!
