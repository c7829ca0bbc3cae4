//! The client's screen state and how server messages update it.

use vstd::prelude::*;
use vstd::string::StringExecFns;
use crate::msg::{RoomId, RoomInfo, RoomInfoView, ServerMsg, UserId, UserInfo};

verus! {

/// Screens of the client.
#[derive(Debug, Clone, Copy, PartialEq, Eq, Structural)]
pub enum Screen {
    /// Connection form.
    Connect,
    /// Rooms and voice.
    Main,
    /// Audio device overlay.
    DeviceSelect,
}

/// The active field of the connection form.
#[derive(Debug, Clone, Copy, PartialEq, Eq, Structural)]
pub enum ConnectField {
    Server,
    Username,
}

/// The focused list of the main screen.
#[derive(Debug, Clone, Copy, PartialEq, Eq, Structural)]
pub enum Focus {
    Rooms,
    Users,
}

/// Connection status.
#[derive(Debug, Clone, PartialEq)]
pub enum ConnStatus {
    Disconnected,
    Connecting,
    Connected,
    Error(String),
}

/// The focused list of the device overlay.
#[derive(Debug, Clone, Copy, PartialEq, Eq, Structural)]
pub enum DeviceFocus {
    Input,
    Output,
}

/// The client's state, apart from audio levels and the time a
/// notification appeared.
#[derive(Debug)]
pub struct AppState {
    pub screen: Screen,
    pub conn_status: ConnStatus,
    // connection form
    pub server_input: String,
    pub username_input: String,
    pub connect_field: ConnectField,
    // main screen
    pub my_user_id: Option<UserId>,
    pub rooms: Vec<RoomInfo>,
    pub current_room: Option<RoomId>,
    pub focus: Focus,
    pub room_list_idx: usize,
    pub user_list_idx: usize,
    // audio
    pub is_muted: bool,
    pub is_deafened: bool,
    // device choice
    pub input_devices: Vec<String>,
    pub output_devices: Vec<String>,
    pub selected_input: usize,
    pub selected_output: usize,
    pub device_focus: DeviceFocus,
    // notification text
    pub notification: Option<String>,
    pub should_quit: bool,
}

/// Plain-value model of a connection status.
pub enum ConnStatusView {
    Disconnected,
    Connecting,
    Connected,
    Error(Seq<char>),
}

impl View for ConnStatus {
    type V = ConnStatusView;

    open spec fn view(&self) -> ConnStatusView {
        match self {
            ConnStatus::Disconnected => ConnStatusView::Disconnected,
            ConnStatus::Connecting => ConnStatusView::Connecting,
            ConnStatus::Connected => ConnStatusView::Connected,
            ConnStatus::Error(e) => ConnStatusView::Error(e@),
        }
    }
}

/// Plain-value model of the client's state.
pub struct AppView {
    pub screen: Screen,
    pub conn_status: ConnStatusView,
    pub server_input: Seq<char>,
    pub username_input: Seq<char>,
    pub connect_field: ConnectField,
    pub my_user_id: Option<UserId>,
    pub rooms: Seq<RoomInfoView>,
    pub current_room: Option<RoomId>,
    pub focus: Focus,
    pub room_list_idx: usize,
    pub user_list_idx: usize,
    pub is_muted: bool,
    pub is_deafened: bool,
    pub input_devices: Seq<Seq<char>>,
    pub output_devices: Seq<Seq<char>>,
    pub selected_input: usize,
    pub selected_output: usize,
    pub device_focus: DeviceFocus,
    pub notification: Option<Seq<char>>,
    pub should_quit: bool,
}

/// The plain values of a list of rooms.
pub open spec fn rooms_view(rooms: Seq<RoomInfo>) -> Seq<RoomInfoView> {
    rooms.map_values(|r: RoomInfo| r@)
}

impl View for AppState {
    type V = AppView;

    open spec fn view(&self) -> AppView {
        AppView {
            screen: self.screen,
            conn_status: self.conn_status@,
            server_input: self.server_input@,
            username_input: self.username_input@,
            connect_field: self.connect_field,
            my_user_id: self.my_user_id,
            rooms: rooms_view(self.rooms@),
            current_room: self.current_room,
            focus: self.focus,
            room_list_idx: self.room_list_idx,
            user_list_idx: self.user_list_idx,
            is_muted: self.is_muted,
            is_deafened: self.is_deafened,
            input_devices: self.input_devices@.map_values(|d: String| d@),
            output_devices: self.output_devices@.map_values(|d: String| d@),
            selected_input: self.selected_input,
            selected_output: self.selected_output,
            device_focus: self.device_focus,
            notification: match self.notification {
                Some(n) => Some(n@),
                None => None,
            },
            should_quit: self.should_quit,
        }
    }
}

/// Whether some room of `s` has id `id`.
pub open spec fn has_room(s: Seq<RoomInfoView>, id: RoomId) -> bool {
    exists|i: int| 0 <= i < s.len() && (#[trigger] s[i]).id == id
}

/// `i` is the first position of a room with id `id` in `s`.
pub open spec fn is_first_room(s: Seq<RoomInfoView>, id: RoomId, i: int) -> bool {
    &&& 0 <= i < s.len()
    &&& s[i].id == id
    &&& forall|j: int| 0 <= j < i ==> (#[trigger] s[j]).id != id
}

/// The first position of a room with id `id` in `s` (meaningful where
/// `has_room(s, id)`).
pub open spec fn room_index(s: Seq<RoomInfoView>, id: RoomId) -> int {
    choose|i: int| is_first_room(s, id, i)
}

/// `i` is the first position of `name` in `names`.
pub open spec fn is_first_name(names: Seq<Seq<char>>, name: Seq<char>, i: int) -> bool {
    &&& 0 <= i < names.len()
    &&& names[i] == name
    &&& forall|j: int| 0 <= j < i ==> names[j] != name
}

/// Finds the first entry of `list` equal to `name`.
fn find_name(list: &Vec<String>, name: &String) -> (r: Option<usize>)
    ensures
        r matches Some(i) ==> is_first_name(list@.map_values(|d: String| d@), name@, i as int),
        r is None ==> forall|j: int| 0 <= j < list@.len() ==> list@[j]@ != name@,
{
    let mut i: usize = 0;
    while i < list.len()
        invariant
            i <= list@.len(),
            forall|j: int| 0 <= j < i ==> list@[j]@ != name@,
        decreases list@.len() - i,
    {
        if list[i] == *name {
            return Some(i);
        }
        i = i + 1;
    }
    None
}

/// Whether some user of `s` has id `id`.
pub open spec fn has_user(s: Seq<UserInfo>, id: UserId) -> bool {
    exists|i: int| 0 <= i < s.len() && (#[trigger] s[i]).id == id
}

/// `s` without the users whose id is `uid`, in the same order.
pub open spec fn without_user(s: Seq<UserInfo>, uid: UserId) -> Seq<UserInfo>
    decreases s.len(),
{
    if s.len() == 0 {
        s
    } else {
        let rest = without_user(s.drop_last(), uid);
        if s.last().id == uid { rest } else { rest.push(s.last()) }
    }
}

/// The room `r` without the user `uid`.
pub open spec fn room_without(r: RoomInfoView, uid: UserId) -> RoomInfoView {
    RoomInfoView { users: without_user(r.users, uid), ..r }
}

/// The rooms after the listing of `user` arrived for room `room_id`: the
/// user is added to the first room with that id, unless it is there
/// already.
pub open spec fn rooms_after_join(s: Seq<RoomInfoView>, user: UserInfo, room_id: RoomId) -> Seq<RoomInfoView> {
    if has_room(s, room_id) {
        let i = room_index(s, room_id);
        if has_user(s[i].users, user.id) {
            s
        } else {
            s.update(i, RoomInfoView { users: s[i].users.push(user), ..s[i] })
        }
    } else {
        s
    }
}

/// The rooms after user `uid` left room `room_id`; room id 0 stands for
/// every room.
pub open spec fn rooms_after_leave(s: Seq<RoomInfoView>, uid: UserId, room_id: RoomId) -> Seq<RoomInfoView> {
    if room_id == 0 {
        s.map_values(|r: RoomInfoView| room_without(r, uid))
    } else if has_room(s, room_id) {
        let i = room_index(s, room_id);
        s.update(i, room_without(s[i], uid))
    } else {
        s
    }
}

/// The rooms after `room` was announced: added at the end unless a room
/// with its id is listed already.
pub open spec fn rooms_after_create(s: Seq<RoomInfoView>, room: RoomInfoView) -> Seq<RoomInfoView> {
    if has_room(s, room.id) { s } else { s.push(room) }
}

/// Finds the first room with id `id`.
fn find_room(rooms: &Vec<RoomInfo>, id: RoomId) -> (r: Option<usize>)
    ensures
        r matches Some(i) ==> is_first_room(rooms_view(rooms@), id, i as int),
        r is None ==> !has_room(rooms_view(rooms@), id),
{
    let ghost v = rooms_view(rooms@);
    let mut i: usize = 0;
    while i < rooms.len()
        invariant
            i <= rooms@.len(),
            v == rooms_view(rooms@),
            forall|j: int| 0 <= j < i ==> (#[trigger] v[j]).id != id,
        decreases rooms@.len() - i,
    {
        if rooms[i].id == id {
            return Some(i);
        }
        i = i + 1;
    }
    None
}

/// Whether a user with id `id` is listed.
fn find_user(users: &Vec<UserInfo>, id: UserId) -> (r: bool)
    ensures
        r == has_user(users@, id),
{
    let mut i: usize = 0;
    while i < users.len()
        invariant
            i <= users@.len(),
            forall|j: int| 0 <= j < i ==> (#[trigger] users@[j]).id != id,
        decreases users@.len() - i,
    {
        if users[i].id == id {
            return true;
        }
        i = i + 1;
    }
    false
}

/// A copy of `users` without the users whose id is `uid`.
fn retain_others(users: Vec<UserInfo>, uid: UserId) -> (r: Vec<UserInfo>)
    ensures
        r@ == without_user(users@, uid),
{
    let mut out: Vec<UserInfo> = Vec::new();
    let mut i: usize = 0;
    while i < users.len()
        invariant
            i <= users@.len(),
            out@ == without_user(users@.take(i as int), uid),
        decreases users@.len() - i,
    {
        assert(users@.take(i + 1).drop_last() =~= users@.take(i as int));
        if users[i].id != uid {
            out.push(users[i].clone());
        }
        i = i + 1;
    }
    assert(users@.take(users@.len() as int) =~= users@);
    out
}

/// A room listed at position `j` has a first position, at or before `j`.
proof fn lemma_first_room_exists(s: Seq<RoomInfoView>, id: RoomId, j: int)
    requires
        0 <= j < s.len(),
        s[j].id == id,
    ensures
        exists|i: int| is_first_room(s, id, i),
    decreases j,
{
    if exists|k: int| 0 <= k < j && (#[trigger] s[k]).id == id {
        let k = choose|k: int| 0 <= k < j && (#[trigger] s[k]).id == id;
        lemma_first_room_exists(s, id, k);
    } else {
        assert(is_first_room(s, id, j));
    }
}

/// Where a room is listed, `room_index` is its first position.
proof fn lemma_room_index(s: Seq<RoomInfoView>, id: RoomId)
    requires
        has_room(s, id),
    ensures
        is_first_room(s, id, room_index(s, id)),
{
    let j = choose|j: int| 0 <= j < s.len() && (#[trigger] s[j]).id == id;
    lemma_first_room_exists(s, id, j);
}

proof fn lemma_first_room_unique(s: Seq<RoomInfoView>, id: RoomId, i: int)
    requires
        is_first_room(s, id, i),
    ensures
        has_room(s, id),
        room_index(s, id) == i,
{
    assert(s[i].id == id);
    let k = room_index(s, id);
    assert(is_first_room(s, id, k));
    if k < i {
        assert(s[k].id != id);
    } else if i < k {
        assert(s[i].id != id);
    }
}

/// The keys the client reacts to; every other key is `Other`.
#[derive(Debug, Clone, Copy, PartialEq, Eq, Structural)]
pub enum Key {
    Char(char),
    Enter,
    Esc,
    Tab,
    Backspace,
    Up,
    Down,
    Other,
}

/// What the connection form asks of the caller.
#[derive(Debug)]
pub enum ConnectAction {
    Nothing,
    /// Connect to `server` and announce `username`.
    Connect { server: String, username: String },
}

/// What the main screen asks of the caller.
#[derive(Debug, Clone, Copy, PartialEq, Eq, Structural)]
pub enum MainAction {
    Nothing,
    /// Flip the microphone mute flag.
    ToggleMute,
    /// Flip the speaker mute flag.
    ToggleDeafen,
    /// Leave room `leave` (where there is one) and join room `join`.
    EnterRoom { leave: Option<RoomId>, join: RoomId },
}

/// What the device overlay asks of the caller.
#[derive(Debug, Clone, Copy, PartialEq, Eq, Structural)]
pub enum DeviceAction {
    Nothing,
    /// Restart the audio streams on the selected devices.
    RestartAudio,
}

/// A list cursor one step down, where a next entry exists among `len`.
pub open spec fn step_down(idx: usize, len: int) -> usize {
    if idx + 1 < len && idx < usize::MAX { (idx + 1) as usize } else { idx }
}

/// A list cursor one step up, stopping at the top.
pub open spec fn step_up(idx: usize) -> usize {
    if idx == 0 { 0 } else { (idx - 1) as usize }
}

/// The number of members over all rooms.
pub open spec fn total_users(s: Seq<RoomInfoView>) -> nat
    decreases s.len(),
{
    if s.len() == 0 { 0 } else { total_users(s.drop_last()) + s.last().users.len() }
}

/// Whether the members of all rooms number more than `idx + 1`: the
/// count stops growing once it passes that bound.
fn more_users_than(rooms: &Vec<RoomInfo>, idx: usize) -> (r: bool)
    requires
        idx < usize::MAX,
    ensures
        r == (idx + 1 < total_users(rooms_view(rooms@))),
{
    let bound: usize = idx + 1;
    let mut count: usize = 0;
    let mut i: usize = 0;
    while i < rooms.len()
        invariant
            i <= rooms@.len(),
            bound == idx + 1,
            count == total_users(rooms_view(rooms@).take(i as int)),
            count <= bound,
        decreases rooms@.len() - i,
    {
        assert(rooms_view(rooms@).take(i + 1).drop_last() =~= rooms_view(rooms@).take(i as int));
        let n = rooms[i].users.len();
        if n > bound - count {
            proof {
                lemma_total_users_prefix(rooms_view(rooms@), i + 1);
            }
            return true;
        }
        count = count + n;
        i = i + 1;
    }
    assert(rooms_view(rooms@).take(rooms@.len() as int) =~= rooms_view(rooms@));
    bound < count
}

/// The members of a prefix number at most the members of the whole list.
proof fn lemma_total_users_prefix(s: Seq<RoomInfoView>, n: int)
    requires
        0 <= n <= s.len(),
    ensures
        total_users(s.take(n)) <= total_users(s),
    decreases s.len() - n,
{
    if n < s.len() {
        lemma_total_users_prefix(s, n + 1);
        assert(s.take(n + 1).drop_last() =~= s.take(n));
    } else {
        assert(s.take(n) =~= s);
    }
}

/// Calls `String::push`, which appends `c`.
#[verifier::external_body]
pub(crate) fn string_push(s: &mut String, c: char)
    ensures
        final(s)@ == old(s)@.push(c),
{
    s.push(c)
}

/// Calls `String::pop`, which removes and hands back the last character,
/// or `None` for an empty string.
#[verifier::external_body]
fn string_pop(s: &mut String) -> (r: Option<char>)
    ensures
        old(s)@.len() == 0 ==> r is None && final(s)@ == old(s)@,
        old(s)@.len() > 0 ==> r == Some(old(s)@.last()) && final(s)@ == old(s)@.drop_last(),
{
    s.pop()
}

/// The notice for the microphone flag `muted`.
pub open spec fn mute_text(muted: bool) -> Seq<char> {
    if muted { "🔇 Микрофон выключен"@ } else { "🎙 Микрофон включён"@ }
}

/// The notice for the speaker flag `deafened`.
pub open spec fn deafen_text(deafened: bool) -> Seq<char> {
    if deafened { "🎧 Звук выключен"@ } else { "🔊 Звук включён"@ }
}

/// The notice shown after the microphone flag flipped to `muted`.
pub fn mute_notice(muted: bool) -> (s: String)
    ensures
        s@ == mute_text(muted),
{
    if muted { "🔇 Микрофон выключен".to_owned() } else { "🎙 Микрофон включён".to_owned() }
}

/// The notice shown after the speaker flag flipped to `deafened`.
pub fn deafen_notice(deafened: bool) -> (s: String)
    ensures
        s@ == deafen_text(deafened),
{
    if deafened { "🎧 Звук выключен".to_owned() } else { "🔊 Звук включён".to_owned() }
}

/// The state after the microphone flag became `muted`.
pub open spec fn muted_next(v: AppView, muted: bool) -> AppView {
    AppView { notification: Some(mute_text(muted)), ..v }
}

/// The state after the speaker flag became `deafened`.
pub open spec fn deafened_next(v: AppView, deafened: bool) -> AppView {
    AppView { notification: Some(deafen_text(deafened)), ..v }
}

/// The line the device overlay shows for device `name`: a marker before
/// the selected one, two blanks before the others.
pub open spec fn device_label(name: Seq<char>, selected: bool) -> Seq<char> {
    (if selected { "● "@ } else { "  "@ }) + name
}

/// The overlay's lines for `devices`, of which the one at `selected` is
/// marked.
pub fn device_labels(devices: &Vec<String>, selected: usize) -> (r: Vec<String>)
    ensures
        r@.len() == devices@.len(),
        forall|i: int| 0 <= i < devices@.len() ==> (#[trigger] r@[i])@ == device_label(devices@[i]@, i == selected),
{
    let mut r: Vec<String> = Vec::new();
    for i in 0..devices.len()
        invariant
            r@.len() == i,
            forall|j: int| 0 <= j < i ==> (#[trigger] r@[j])@ == device_label(devices@[j]@, j == selected),
    {
        let mut line = if i == selected { "● ".to_owned() } else { "  ".to_owned() };
        line.append(devices[i].as_str());
        r.push(line);
    }
    r
}

/// `s` after a backspace.
pub open spec fn backspace(s: Seq<char>) -> Seq<char> {
    if s.len() == 0 { s } else { s.drop_last() }
}

/// The text shown when the connection form is sent without a name.
pub open spec fn missing_name_text() -> Seq<char> {
    "Введите имя пользователя"@
}

/// The state after `key` on the connection form.
pub open spec fn connect_key_next(v: AppView, key: Key) -> AppView {
    match key {
        Key::Esc => AppView { should_quit: true, ..v },
        Key::Tab => AppView {
            connect_field: match v.connect_field {
                ConnectField::Server => ConnectField::Username,
                ConnectField::Username => ConnectField::Server,
            },
            ..v
        },
        Key::Char(c) => match v.connect_field {
            ConnectField::Server => AppView { server_input: v.server_input.push(c), ..v },
            ConnectField::Username => AppView { username_input: v.username_input.push(c), ..v },
        },
        Key::Backspace => match v.connect_field {
            ConnectField::Server => AppView { server_input: backspace(v.server_input), ..v },
            ConnectField::Username => AppView { username_input: backspace(v.username_input), ..v },
        },
        Key::Enter => if v.username_input.len() == 0 {
            AppView { notification: Some(missing_name_text()), ..v }
        } else {
            AppView { conn_status: ConnStatusView::Connecting, ..v }
        },
        _ => v,
    }
}

/// The state after `key` on the main screen.
pub open spec fn main_key_next(v: AppView, key: Key) -> AppView {
    if key == Key::Esc || key == Key::Char('q') {
        AppView { should_quit: true, ..v }
    } else if key == Key::Char('o') {
        AppView { screen: Screen::DeviceSelect, ..v }
    } else if key == Key::Tab {
        AppView {
            focus: match v.focus {
                Focus::Rooms => Focus::Users,
                Focus::Users => Focus::Rooms,
            },
            ..v
        }
    } else if key == Key::Down || key == Key::Char('j') {
        match v.focus {
            Focus::Rooms => AppView { room_list_idx: step_down(v.room_list_idx, v.rooms.len() as int), ..v },
            Focus::Users => AppView { user_list_idx: step_down(v.user_list_idx, total_users(v.rooms) as int), ..v },
        }
    } else if key == Key::Up || key == Key::Char('k') {
        match v.focus {
            Focus::Rooms => AppView { room_list_idx: step_up(v.room_list_idx), ..v },
            Focus::Users => AppView { user_list_idx: step_up(v.user_list_idx), ..v },
        }
    } else if key == Key::Enter {
        if v.focus == Focus::Rooms && v.room_list_idx < v.rooms.len() {
            let r = v.rooms[v.room_list_idx as int];
            AppView { current_room: Some(r.id), notification: Some("Вошли в #"@ + r.name), ..v }
        } else {
            v
        }
    } else if key == Key::Char('n') {
        AppView { notification: Some(create_room_hint()), ..v }
    } else {
        v
    }
}

/// What the main screen asks of the caller after `key`.
pub open spec fn main_key_action(v: AppView, key: Key) -> MainAction {
    if key == Key::Char('m') {
        MainAction::ToggleMute
    } else if key == Key::Char('d') {
        MainAction::ToggleDeafen
    } else if key == Key::Enter && v.focus == Focus::Rooms && v.room_list_idx < v.rooms.len() {
        MainAction::EnterRoom { leave: v.current_room, join: v.rooms[v.room_list_idx as int].id }
    } else {
        MainAction::Nothing
    }
}

/// The text shown for the room creation key.
pub open spec fn create_room_hint() -> Seq<char> {
    "Функция создания комнаты: введите имя (TODO)"@
}

/// The state after `key` on the device overlay.
pub open spec fn device_key_next(v: AppView, key: Key) -> AppView {
    if key == Key::Esc {
        AppView { screen: Screen::Main, ..v }
    } else if key == Key::Tab {
        AppView {
            device_focus: match v.device_focus {
                DeviceFocus::Input => DeviceFocus::Output,
                DeviceFocus::Output => DeviceFocus::Input,
            },
            ..v
        }
    } else if key == Key::Down || key == Key::Char('j') {
        match v.device_focus {
            DeviceFocus::Input => AppView { selected_input: step_down(v.selected_input, v.input_devices.len() as int), ..v },
            DeviceFocus::Output => AppView { selected_output: step_down(v.selected_output, v.output_devices.len() as int), ..v },
        }
    } else if key == Key::Up || key == Key::Char('k') {
        match v.device_focus {
            DeviceFocus::Input => AppView { selected_input: step_up(v.selected_input), ..v },
            DeviceFocus::Output => AppView { selected_output: step_up(v.selected_output), ..v },
        }
    } else if key == Key::Enter {
        AppView { screen: Screen::Main, notification: Some("Аудиоустройства обновлены"@), ..v }
    } else {
        v
    }
}

impl AppState {
    /// The state of a client that has not connected yet.
    pub fn new() -> (s: AppState)
        ensures
            s@ == (AppView {
                screen: Screen::Connect,
                conn_status: ConnStatusView::Disconnected,
                server_input: "81.31.246.215:7878"@,
                username_input: Seq::empty(),
                connect_field: ConnectField::Server,
                my_user_id: None,
                rooms: Seq::empty(),
                current_room: None,
                focus: Focus::Rooms,
                room_list_idx: 0,
                user_list_idx: 0,
                is_muted: false,
                is_deafened: false,
                input_devices: Seq::empty(),
                output_devices: Seq::empty(),
                selected_input: 0,
                selected_output: 0,
                device_focus: DeviceFocus::Input,
                notification: None,
                should_quit: false,
            }),
    {
        let s = AppState {
            screen: Screen::Connect,
            conn_status: ConnStatus::Disconnected,
            server_input: "81.31.246.215:7878".to_owned(),
            username_input: String::new(),
            connect_field: ConnectField::Server,
            my_user_id: None,
            rooms: Vec::new(),
            current_room: None,
            focus: Focus::Rooms,
            room_list_idx: 0,
            user_list_idx: 0,
            is_muted: false,
            is_deafened: false,
            input_devices: Vec::new(),
            output_devices: Vec::new(),
            selected_input: 0,
            selected_output: 0,
            device_focus: DeviceFocus::Input,
            notification: None,
            should_quit: false,
        };
        assert(s@.rooms =~= Seq::empty());
        assert(s@.input_devices =~= Seq::empty());
        assert(s@.output_devices =~= Seq::empty());
        s
    }

    /// Shows a notification.
    pub fn notify(&mut self, msg: String)
        ensures
            final(self)@ == (AppView { notification: Some(msg@), ..old(self)@ }),
    {
        self.notification = Some(msg);
    }

    /// Takes user `uid` out of the room at position `i`.
    fn drop_user_at(&mut self, i: usize, uid: UserId)
        requires
            i < old(self).rooms@.len(),
        ensures
            final(self)@ == (AppView {
                rooms: old(self)@.rooms.update(i as int, room_without(old(self)@.rooms[i as int], uid)),
                ..old(self)@
            }),
            final(self).rooms@.len() == old(self).rooms@.len(),
    {
        let r = self.rooms.remove(i);
        let users = retain_others(r.users, uid);
        self.rooms.insert(i, RoomInfo { id: r.id, name: r.name, users });
        assert(self@.rooms =~= old(self)@.rooms.update(i as int, room_without(old(self)@.rooms[i as int], uid)));
    }

    /// Applies a server message to the state. Volume updates carry float
    /// levels, which this state does not hold: they leave it unchanged.
    pub fn apply(&mut self, msg: ServerMsg)
        ensures
            match msg {
                ServerMsg::Connected { user_id, rooms } => final(self)@ == (AppView {
                    my_user_id: Some(user_id),
                    rooms: rooms_view(rooms@),
                    screen: Screen::Main,
                    conn_status: ConnStatusView::Connected,
                    ..old(self)@
                }),
                ServerMsg::RoomList { rooms } => final(self)@ == (AppView { rooms: rooms_view(rooms@), ..old(self)@ }),
                ServerMsg::RoomCreated { room } => final(self)@ == (AppView {
                    rooms: rooms_after_create(old(self)@.rooms, room@),
                    ..old(self)@
                }),
                ServerMsg::UserJoined { user, room_id } => final(self)@ == (AppView {
                    rooms: rooms_after_join(old(self)@.rooms, user, room_id),
                    ..old(self)@
                }),
                ServerMsg::UserLeft { user_id, room_id } => final(self)@ == (AppView {
                    rooms: rooms_after_leave(old(self)@.rooms, user_id, room_id),
                    ..old(self)@
                }),
                ServerMsg::Error { message } => final(self)@ == (AppView {
                    notification: Some("⚠ "@ + message@),
                    ..old(self)@
                }),
                _ => final(self)@ == old(self)@,
            },
    {
        match msg {
            ServerMsg::Connected { user_id, rooms } => {
                self.my_user_id = Some(user_id);
                self.rooms = rooms;
                self.screen = Screen::Main;
                self.conn_status = ConnStatus::Connected;
            },
            ServerMsg::RoomList { rooms } => {
                self.rooms = rooms;
            },
            ServerMsg::RoomCreated { room } => {
                match find_room(&self.rooms, room.id) {
                    Some(i) => {
                        proof {
                            lemma_first_room_unique(self@.rooms, room.id, i as int);
                        }
                    },
                    None => {
                        self.rooms.push(room);
                        assert(self@.rooms =~= old(self)@.rooms.push(room@));
                    },
                }
            },
            ServerMsg::UserJoined { user, room_id } => {
                match find_room(&self.rooms, room_id) {
                    Some(i) => {
                        proof {
                            lemma_first_room_unique(self@.rooms, room_id, i as int);
                        }
                        if !find_user(&self.rooms[i].users, user.id) {
                            let mut r = self.rooms.remove(i);
                            let ghost before = r@;
                            r.users.push(user);
                            self.rooms.insert(i, r);
                            assert(self@.rooms =~= old(self)@.rooms.update(
                                i as int,
                                RoomInfoView { users: before.users.push(user), ..before },
                            ));
                        }
                    },
                    None => {},
                }
            },
            ServerMsg::UserLeft { user_id, room_id } => {
                if room_id == 0 {
                    let mut i: usize = 0;
                    while i < self.rooms.len()
                        invariant
                            i <= self.rooms@.len(),
                            self.rooms@.len() == old(self).rooms@.len(),
                            self@ == (AppView { rooms: self@.rooms, ..old(self)@ }),
                            forall|j: int| 0 <= j < i ==> #[trigger] self@.rooms[j] == room_without(old(self)@.rooms[j], user_id),
                            forall|j: int| i <= j < self.rooms@.len() ==> #[trigger] self@.rooms[j] == old(self)@.rooms[j],
                        decreases self.rooms@.len() - i,
                    {
                        self.drop_user_at(i, user_id);
                        i = i + 1;
                    }
                    assert(self@.rooms =~= old(self)@.rooms.map_values(|r: RoomInfoView| room_without(r, user_id)));
                } else {
                    match find_room(&self.rooms, room_id) {
                        Some(i) => {
                            proof {
                                lemma_first_room_unique(self@.rooms, room_id, i as int);
                            }
                            self.drop_user_at(i, user_id);
                        },
                        None => {},
                    }
                }
            },
            ServerMsg::VolumeUpdate { .. } => {},
            ServerMsg::Error { message } => {
                let mut text = "⚠ ".to_owned();
                text.append(message.as_str());
                self.notify(text);
            },
            ServerMsg::Pong => {},
        }
    }

    /// Handles a key on the connection form. `Enter` with a name asks the
    /// caller to connect.
    pub fn handle_connect_key(&mut self, key: Key) -> (a: ConnectAction)
        ensures
            final(self)@ == connect_key_next(old(self)@, key),
            match a {
                ConnectAction::Connect { server, username } => {
                    &&& key == Key::Enter
                    &&& old(self)@.username_input.len() > 0
                    &&& server@ == old(self)@.server_input
                    &&& username@ == old(self)@.username_input
                },
                ConnectAction::Nothing => !(key == Key::Enter && old(self)@.username_input.len() > 0),
            },
    {
        match key {
            Key::Esc => {
                self.should_quit = true;
                ConnectAction::Nothing
            },
            Key::Tab => {
                self.connect_field = match self.connect_field {
                    ConnectField::Server => ConnectField::Username,
                    ConnectField::Username => ConnectField::Server,
                };
                ConnectAction::Nothing
            },
            Key::Char(c) => {
                match self.connect_field {
                    ConnectField::Server => string_push(&mut self.server_input, c),
                    ConnectField::Username => string_push(&mut self.username_input, c),
                }
                ConnectAction::Nothing
            },
            Key::Backspace => {
                match self.connect_field {
                    ConnectField::Server => {
                        string_pop(&mut self.server_input);
                    },
                    ConnectField::Username => {
                        string_pop(&mut self.username_input);
                    },
                }
                ConnectAction::Nothing
            },
            Key::Enter => {
                if self.username_input.as_str().is_empty() {
                    self.notify("Введите имя пользователя".to_owned());
                    return ConnectAction::Nothing;
                }
                self.conn_status = ConnStatus::Connecting;
                ConnectAction::Connect { server: self.server_input.clone(), username: self.username_input.clone() }
            },
            _ => ConnectAction::Nothing,
        }
    }

    /// Records a successful connection: the main screen opens.
    pub fn on_connected(&mut self)
        ensures
            final(self)@ == (AppView { conn_status: ConnStatusView::Connected, screen: Screen::Main, ..old(self)@ }),
    {
        self.conn_status = ConnStatus::Connected;
        self.screen = Screen::Main;
    }

    /// Records a failed connection with the error's text.
    pub fn on_connect_error(&mut self, error: String)
        ensures
            final(self)@ == (AppView {
                conn_status: ConnStatusView::Error(error@),
                notification: Some("Ошибка: "@ + error@),
                ..old(self)@
            }),
    {
        let mut text = "Ошибка: ".to_owned();
        text.append(error.as_str());
        self.conn_status = ConnStatus::Error(error);
        self.notify(text);
    }

    /// Handles a key on the main screen.
    pub fn handle_main_key(&mut self, key: Key) -> (a: MainAction)
        ensures
            final(self)@ == main_key_next(old(self)@, key),
            a == main_key_action(old(self)@, key),
    {
        match key {
            Key::Esc | Key::Char('q') => {
                self.should_quit = true;
                MainAction::Nothing
            },
            Key::Char('m') => MainAction::ToggleMute,
            Key::Char('d') => MainAction::ToggleDeafen,
            Key::Char('o') => {
                self.screen = Screen::DeviceSelect;
                MainAction::Nothing
            },
            Key::Tab => {
                self.focus = match self.focus {
                    Focus::Rooms => Focus::Users,
                    Focus::Users => Focus::Rooms,
                };
                MainAction::Nothing
            },
            Key::Char('j') | Key::Down => {
                match self.focus {
                    Focus::Rooms => {
                        if self.room_list_idx < self.rooms.len() && self.room_list_idx + 1 < self.rooms.len() {
                            self.room_list_idx = self.room_list_idx + 1;
                        }
                    },
                    Focus::Users => {
                        if self.user_list_idx < usize::MAX && more_users_than(&self.rooms, self.user_list_idx) {
                            self.user_list_idx = self.user_list_idx + 1;
                        }
                    },
                }
                MainAction::Nothing
            },
            Key::Char('k') | Key::Up => {
                match self.focus {
                    Focus::Rooms => {
                        self.room_list_idx = if self.room_list_idx == 0 { 0 } else { self.room_list_idx - 1 };
                    },
                    Focus::Users => {
                        self.user_list_idx = if self.user_list_idx == 0 { 0 } else { self.user_list_idx - 1 };
                    },
                }
                MainAction::Nothing
            },
            Key::Enter => {
                if self.focus == Focus::Rooms && self.room_list_idx < self.rooms.len() {
                    let room_id = self.rooms[self.room_list_idx].id;
                    let leave = self.current_room;
                    self.current_room = Some(room_id);
                    let mut text = "Вошли в #".to_owned();
                    text.append(self.rooms[self.room_list_idx].name.as_str());
                    self.notify(text);
                    MainAction::EnterRoom { leave, join: room_id }
                } else {
                    MainAction::Nothing
                }
            },
            Key::Char('n') => {
                self.notify("Функция создания комнаты: введите имя (TODO)".to_owned());
                MainAction::Nothing
            },
            _ => MainAction::Nothing,
        }
    }

    /// Flips the microphone flag `muted` and shows the notice for its new
    /// value, which it returns.
    pub fn toggle_mute(&mut self, muted: bool) -> (m: bool)
        ensures
            m == !muted,
            final(self)@ == muted_next(old(self)@, m),
    {
        let m = !muted;
        self.notify(mute_notice(m));
        m
    }

    /// Flips the speaker flag `deafened` and shows the notice for its new
    /// value, which it returns.
    pub fn toggle_deafen(&mut self, deafened: bool) -> (d: bool)
        ensures
            d == !deafened,
            final(self)@ == deafened_next(old(self)@, d),
    {
        let d = !deafened;
        self.notify(deafen_notice(d));
        d
    }

    /// Hides the notification once it has been shown for more than three
    /// seconds; `elapsed_secs` is how long it has been shown.
    pub fn clear_expired_notification(&mut self, elapsed_secs: u64)
        ensures
            final(self)@ == (if elapsed_secs > 3 { AppView { notification: None, ..old(self)@ } } else { old(self)@ }),
    {
        if self.notification.is_some() && elapsed_secs > 3 {
            self.notification = None;
        }
    }

    /// Handles a key on the device overlay; `Enter` asks the caller to
    /// restart audio on the selected devices.
    pub fn handle_device_key(&mut self, key: Key) -> (a: DeviceAction)
        ensures
            final(self)@ == device_key_next(old(self)@, key),
            a == (if key == Key::Enter { DeviceAction::RestartAudio } else { DeviceAction::Nothing }),
    {
        match key {
            Key::Esc => {
                self.screen = Screen::Main;
                DeviceAction::Nothing
            },
            Key::Tab => {
                self.device_focus = match self.device_focus {
                    DeviceFocus::Input => DeviceFocus::Output,
                    DeviceFocus::Output => DeviceFocus::Input,
                };
                DeviceAction::Nothing
            },
            Key::Char('j') | Key::Down => {
                match self.device_focus {
                    DeviceFocus::Input => {
                        if self.selected_input < self.input_devices.len() && self.selected_input + 1 < self.input_devices.len() {
                            self.selected_input = self.selected_input + 1;
                        }
                    },
                    DeviceFocus::Output => {
                        if self.selected_output < self.output_devices.len() && self.selected_output + 1 < self.output_devices.len() {
                            self.selected_output = self.selected_output + 1;
                        }
                    },
                }
                DeviceAction::Nothing
            },
            Key::Char('k') | Key::Up => {
                match self.device_focus {
                    DeviceFocus::Input => {
                        self.selected_input = if self.selected_input == 0 { 0 } else { self.selected_input - 1 };
                    },
                    DeviceFocus::Output => {
                        self.selected_output = if self.selected_output == 0 { 0 } else { self.selected_output - 1 };
                    },
                }
                DeviceAction::Nothing
            },
            Key::Enter => {
                self.screen = Screen::Main;
                self.notify("Аудиоустройства обновлены".to_owned());
                DeviceAction::RestartAudio
            },
            _ => DeviceAction::Nothing,
        }
    }

    /// The listing of the current room, where it is listed.
    pub fn current_room_info(&self) -> (r: Option<&RoomInfo>)
        ensures
            match self.current_room {
                Some(id) => if has_room(self@.rooms, id) {
                    r matches Some(info) && info@ == self@.rooms[room_index(self@.rooms, id)]
                } else {
                    r is None
                },
                None => r is None,
            },
    {
        let id = match self.current_room {
            Some(id) => id,
            None => return None,
        };
        match find_room(&self.rooms, id) {
            Some(i) => {
                proof {
                    lemma_first_room_unique(self@.rooms, id, i as int);
                }
                Some(&self.rooms[i])
            },
            None => None,
        }
    }

    /// The members of the current room; none where there is no current
    /// room.
    pub fn current_users(&self) -> (r: Vec<&UserInfo>)
        ensures
            match self.current_room {
                Some(id) => if has_room(self@.rooms, id) {
                    r@.unref() == self@.rooms[room_index(self@.rooms, id)].users
                } else {
                    r@.len() == 0
                },
                None => r@.len() == 0,
            },
    {
        let mut out: Vec<&UserInfo> = Vec::new();
        match self.current_room_info() {
            Some(room) => {
                let mut i: usize = 0;
                while i < room.users.len()
                    invariant
                        i <= room.users@.len(),
                        out@.len() == i,
                        forall|j: int| 0 <= j < i ==> *out@[j] == room.users@[j],
                    decreases room.users@.len() - i,
                {
                    out.push(&room.users[i]);
                    i = i + 1;
                }
                assert(out@.unref() =~= room.users@);
            },
            None => {},
        }
        out
    }

    /// Selects the input device called `name`, where it is listed (its
    /// first entry); otherwise the selection stays.
    pub fn select_input_named(&mut self, name: &String)
        ensures
            forall|i: int| is_first_name(old(self)@.input_devices, name@, i)
                ==> final(self)@ == (AppView { selected_input: i as usize, ..old(self)@ }),
            (forall|j: int| 0 <= j < old(self)@.input_devices.len() ==> old(self)@.input_devices[j] != name@)
                ==> final(self)@ == old(self)@,
    {
        match find_name(&self.input_devices, name) {
            Some(i) => {
                self.selected_input = i;
                proof {
                    assert forall|k: int| is_first_name(old(self)@.input_devices, name@, k) implies k == i by {
                        if k < i {
                            assert(old(self)@.input_devices[k] == name@);
                        } else if i < k {
                            assert(old(self)@.input_devices[i as int] == name@);
                        }
                    }
                }
            },
            None => {},
        }
    }

    /// Selects the output device called `name`, where it is listed (its
    /// first entry); otherwise the selection stays.
    pub fn select_output_named(&mut self, name: &String)
        ensures
            forall|i: int| is_first_name(old(self)@.output_devices, name@, i)
                ==> final(self)@ == (AppView { selected_output: i as usize, ..old(self)@ }),
            (forall|j: int| 0 <= j < old(self)@.output_devices.len() ==> old(self)@.output_devices[j] != name@)
                ==> final(self)@ == old(self)@,
    {
        match find_name(&self.output_devices, name) {
            Some(i) => {
                self.selected_output = i;
                proof {
                    assert forall|k: int| is_first_name(old(self)@.output_devices, name@, k) implies k == i by {
                        if k < i {
                            assert(old(self)@.output_devices[k] == name@);
                        } else if i < k {
                            assert(old(self)@.output_devices[i as int] == name@);
                        }
                    }
                }
            },
            None => {},
        }
    }
}

/// Removing a user from a list that does not hold it changes nothing.
proof fn lemma_without_absent(s: Seq<UserInfo>, uid: UserId)
    requires
        !has_user(s, uid),
    ensures
        without_user(s, uid) == s,
    decreases s.len(),
{
    if s.len() > 0 {
        let rest = s.drop_last();
        assert(!has_user(rest, uid)) by {
            if has_user(rest, uid) {
                let j = choose|j: int| 0 <= j < rest.len() && (#[trigger] rest[j]).id == uid;
                assert(s[j] == rest[j]);
            }
        }
        lemma_without_absent(rest, uid);
        assert(s[s.len() - 1].id != uid);
        assert(rest.push(s.last()) =~= s);
    }
}

/// A user announced twice in a room is listed once: applying the same
/// arrival again changes nothing.
pub proof fn lemma_join_idempotent(s: Seq<RoomInfoView>, user: UserInfo, room_id: RoomId)
    ensures
        rooms_after_join(rooms_after_join(s, user, room_id), user, room_id) == rooms_after_join(s, user, room_id),
{
    let t = rooms_after_join(s, user, room_id);
    if has_room(s, room_id) {
        let i = room_index(s, room_id);
        lemma_room_index(s, room_id);
        assert(is_first_room(t, room_id, i));
        lemma_first_room_unique(t, room_id, i);
        let n = t[i].users.len() - 1;
        if !has_user(s[i].users, user.id) {
            assert(t[i].users[n] == user);
        }
        assert(has_user(t[i].users, user.id));
    }
}

/// A room announced twice is listed once.
pub proof fn lemma_create_idempotent(s: Seq<RoomInfoView>, room: RoomInfoView)
    ensures
        rooms_after_create(rooms_after_create(s, room), room) == rooms_after_create(s, room),
{
    if !has_room(s, room.id) {
        let t = s.push(room);
        assert(t[s.len() as int].id == room.id);
    }
}

/// A user who arrives in a room where it was not listed and then leaves
/// it leaves the room list as it was.
pub proof fn lemma_leave_undoes_join(s: Seq<RoomInfoView>, user: UserInfo, room_id: RoomId)
    requires
        room_id != 0,
        has_room(s, room_id) ==> !has_user(s[room_index(s, room_id)].users, user.id),
    ensures
        rooms_after_leave(rooms_after_join(s, user, room_id), user.id, room_id) == s,
{
    let t = rooms_after_join(s, user, room_id);
    if has_room(s, room_id) {
        let i = room_index(s, room_id);
        lemma_room_index(s, room_id);
        assert(is_first_room(t, room_id, i));
        lemma_first_room_unique(t, room_id, i);
        let us = s[i].users;
        lemma_without_absent(us, user.id);
        assert(us.push(user).drop_last() =~= us);
        assert(without_user(us.push(user), user.id) == us);
        assert(t.update(i, room_without(t[i], user.id)) =~= s);
    }
}

/// A list cursor that points into its list still does after a step down
/// or up.
pub proof fn lemma_cursor_stays_in_list(idx: usize, len: int)
    requires
        idx < len,
    ensures
        step_down(idx, len) < len,
        step_up(idx) < len,
{
}

/// Pressing Tab twice on the main screen moves the focus to the other
/// list and back, asks nothing of the caller, and leaves the state as it was.
pub proof fn lemma_tab_twice(v: AppView)
    ensures
        main_key_next(v, Key::Tab).focus != v.focus,
        main_key_next(main_key_next(v, Key::Tab), Key::Tab) == v,
        main_key_action(v, Key::Tab) == MainAction::Nothing,
        main_key_action(main_key_next(v, Key::Tab), Key::Tab) == MainAction::Nothing,
{
}

/// Pressing `m` twice on the main screen: each press asks for the
/// microphone flag to flip, and after the second flip the flag is back where
/// it started and the state differs from the start only by the notice for
/// that flag.
pub proof fn lemma_mute_twice(v: AppView, muted: bool)
    ensures
        ({
            let k = Key::Char('m');
            let m1 = !muted;
            let v1 = muted_next(main_key_next(v, k), m1);
            let m2 = !m1;
            let v2 = muted_next(main_key_next(v1, k), m2);
            &&& main_key_action(v, k) == MainAction::ToggleMute
            &&& main_key_action(v1, k) == MainAction::ToggleMute
            &&& m2 == muted
            &&& v2 == muted_next(v, muted)
        }),
{
}

/// Pressing `d` twice on the main screen: each press asks for the speaker
/// flag to flip, and after the second flip the flag is back where it started
/// and the state differs from the start only by the notice for that flag.
pub proof fn lemma_deafen_twice(v: AppView, deafened: bool)
    ensures
        ({
            let k = Key::Char('d');
            let d1 = !deafened;
            let v1 = deafened_next(main_key_next(v, k), d1);
            let d2 = !d1;
            let v2 = deafened_next(main_key_next(v1, k), d2);
            &&& main_key_action(v, k) == MainAction::ToggleDeafen
            &&& main_key_action(v1, k) == MainAction::ToggleDeafen
            &&& d2 == deafened
            &&& v2 == deafened_next(v, deafened)
        }),
{
}

/// Removing a user from a member list keeps exactly the members with
/// another id, in their order.
pub proof fn lemma_without_user_filters(s: Seq<UserInfo>, uid: UserId)
    ensures
        without_user(s, uid) == s.filter(|u: UserInfo| u.id != uid),
        !has_user(without_user(s, uid), uid),
    decreases s.len(),
{
    reveal(Seq::filter);
    if s.len() > 0 {
        lemma_without_user_filters(s.drop_last(), uid);
    }
    let t = without_user(s, uid);
    let f = s.filter(|u: UserInfo| u.id != uid);
    assert(t == f);
    if has_user(t, uid) {
        let j = choose|j: int| 0 <= j < t.len() && (#[trigger] t[j]).id == uid;
        s.filter_lemma(|u: UserInfo| u.id != uid);
        assert(f.contains(t[j]));
    }
}

/// A departure from one room takes every entry of that user out of the
/// first room with that id, keeps its other members in their order, and
/// leaves every other room as it was; a departure from room 0 does so in
/// every room.
pub proof fn lemma_user_left_removes_only_that_user(s: Seq<RoomInfoView>, uid: UserId, room_id: RoomId)
    ensures
        rooms_after_leave(s, uid, room_id).len() == s.len(),
        room_id == 0 ==> forall|j: int| 0 <= j < s.len() ==> {
            let t = #[trigger] rooms_after_leave(s, uid, room_id)[j];
            &&& t.id == s[j].id
            &&& t.name == s[j].name
            &&& t.users == s[j].users.filter(|u: UserInfo| u.id != uid)
            &&& !has_user(t.users, uid)
        },
        room_id != 0 && has_room(s, room_id) ==> {
            let i = room_index(s, room_id);
            let t = rooms_after_leave(s, uid, room_id);
            &&& 0 <= i < s.len()
            &&& s[i].id == room_id
            &&& t[i].id == s[i].id
            &&& t[i].name == s[i].name
            &&& t[i].users == s[i].users.filter(|u: UserInfo| u.id != uid)
            &&& !has_user(t[i].users, uid)
            &&& forall|j: int| 0 <= j < s.len() && j != i ==> #[trigger] t[j] == s[j]
        },
        room_id != 0 && !has_room(s, room_id) ==> rooms_after_leave(s, uid, room_id) == s,
{
    if room_id == 0 {
        assert forall|j: int| 0 <= j < s.len() implies {
            let t = #[trigger] rooms_after_leave(s, uid, room_id)[j];
            &&& t.id == s[j].id
            &&& t.name == s[j].name
            &&& t.users == s[j].users.filter(|u: UserInfo| u.id != uid)
            &&& !has_user(t.users, uid)
        } by {
            lemma_without_user_filters(s[j].users, uid);
        }
    } else if has_room(s, room_id) {
        let i = room_index(s, room_id);
        lemma_room_index(s, room_id);
        lemma_without_user_filters(s[i].users, uid);
    }
}

/// With the room list focused, Up and `k` move the cursor one room up,
/// stopping at the first; Down and `j` move it one room down where a next
/// room exists. Nothing else changes and nothing is asked of the caller.
pub proof fn lemma_room_cursor_moves_by_one(v: AppView, key: Key)
    requires
        v.focus == Focus::Rooms,
        v.rooms.len() <= usize::MAX,
    ensures
        key == Key::Up || key == Key::Char('k') ==> main_key_next(v, key) == (AppView {
            room_list_idx: if v.room_list_idx > 0 { (v.room_list_idx - 1) as usize } else { 0 },
            ..v
        }),
        key == Key::Down || key == Key::Char('j') ==> main_key_next(v, key) == (AppView {
            room_list_idx: if v.room_list_idx + 1 < v.rooms.len() { (v.room_list_idx + 1) as usize } else { v.room_list_idx },
            ..v
        }),
        key == Key::Up || key == Key::Char('k') || key == Key::Down || key == Key::Char('j')
            ==> main_key_action(v, key) == MainAction::Nothing,
{
}

/// With the user list focused, Up and `k` move the cursor one user up,
/// stopping at the first; Down and `j` move it one user down where the
/// rooms together list a next user. Nothing else changes.
pub proof fn lemma_user_cursor_moves_by_one(v: AppView, key: Key)
    requires
        v.focus == Focus::Users,
    ensures
        key == Key::Up || key == Key::Char('k') ==> main_key_next(v, key) == (AppView {
            user_list_idx: if v.user_list_idx > 0 { (v.user_list_idx - 1) as usize } else { 0 },
            ..v
        }),
        key == Key::Down || key == Key::Char('j') ==> main_key_next(v, key) == (AppView {
            user_list_idx: if v.user_list_idx + 1 < total_users(v.rooms) && v.user_list_idx < usize::MAX {
                (v.user_list_idx + 1) as usize
            } else {
                v.user_list_idx
            },
            ..v
        }),
{
}

/// On the device overlay, Up and `k` move the focused list's selection one
/// device up, stopping at the first; Down and `j` move it one device down
/// where a next device exists. The other list's selection and everything
/// else stay, and nothing is asked of the caller.
pub proof fn lemma_device_cursor_moves_by_one(v: AppView, key: Key)
    requires
        v.input_devices.len() <= usize::MAX,
        v.output_devices.len() <= usize::MAX,
    ensures
        v.device_focus == DeviceFocus::Input && (key == Key::Up || key == Key::Char('k')) ==> device_key_next(v, key) == (AppView {
            selected_input: if v.selected_input > 0 { (v.selected_input - 1) as usize } else { 0 },
            ..v
        }),
        v.device_focus == DeviceFocus::Input && (key == Key::Down || key == Key::Char('j')) ==> device_key_next(v, key) == (AppView {
            selected_input: if v.selected_input + 1 < v.input_devices.len() { (v.selected_input + 1) as usize } else { v.selected_input },
            ..v
        }),
        v.device_focus == DeviceFocus::Output && (key == Key::Up || key == Key::Char('k')) ==> device_key_next(v, key) == (AppView {
            selected_output: if v.selected_output > 0 { (v.selected_output - 1) as usize } else { 0 },
            ..v
        }),
        v.device_focus == DeviceFocus::Output && (key == Key::Down || key == Key::Char('j')) ==> device_key_next(v, key) == (AppView {
            selected_output: if v.selected_output + 1 < v.output_devices.len() { (v.selected_output + 1) as usize } else { v.selected_output },
            ..v
        }),
{
}

/// An arrival in a listed room appends the user to the first room with
/// that id unless the user is listed there already; no other room changes.
/// An arrival in a room that is not listed changes nothing.
pub proof fn lemma_user_joined_adds_only_that_user(s: Seq<RoomInfoView>, user: UserInfo, room_id: RoomId)
    ensures
        rooms_after_join(s, user, room_id).len() == s.len(),
        !has_room(s, room_id) ==> rooms_after_join(s, user, room_id) == s,
        has_room(s, room_id) ==> {
            let i = room_index(s, room_id);
            let t = rooms_after_join(s, user, room_id);
            &&& 0 <= i < s.len()
            &&& s[i].id == room_id
            &&& t[i].id == s[i].id
            &&& t[i].name == s[i].name
            &&& t[i].users == if has_user(s[i].users, user.id) { s[i].users } else { s[i].users.push(user) }
            &&& has_user(t[i].users, user.id)
            &&& forall|j: int| 0 <= j < s.len() && j != i ==> #[trigger] t[j] == s[j]
        },
{
    if has_room(s, room_id) {
        let i = room_index(s, room_id);
        lemma_room_index(s, room_id);
        let t = rooms_after_join(s, user, room_id);
        if !has_user(s[i].users, user.id) {
            assert(t[i].users[s[i].users.len() as int] == user);
        }
    }
}

} // verus!
