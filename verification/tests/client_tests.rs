use tucha::client::{
    deafen_notice, device_labels, mute_notice, AppState, ConnStatus, ConnectAction, ConnectField, DeviceAction, DeviceFocus,
    Focus, Key, MainAction, Screen,
};
use tucha::msg::{RoomInfo, ServerMsg, UserInfo};
use tucha::stream::OutgoingAudio;

fn user(id: u32, name: &str) -> UserInfo {
    UserInfo { id, username: name.to_string(), muted: false }
}

fn room(id: u32, name: &str, users: Vec<UserInfo>) -> RoomInfo {
    RoomInfo { id, name: name.to_string(), users }
}

fn ids(r: &RoomInfo) -> Vec<u32> {
    r.users.iter().map(|u| u.id).collect()
}

fn connected() -> AppState {
    let mut s = AppState::new();
    s.apply(ServerMsg::Connected {
        user_id: 7,
        rooms: vec![room(1, "general", vec![user(1, "a")]), room(2, "dev", vec![])],
    });
    s
}

#[test]
fn new_state_shows_connect_form() {
    let s = AppState::new();
    assert_eq!(s.screen, Screen::Connect);
    assert!(matches!(s.conn_status, ConnStatus::Disconnected));
    assert_eq!(s.server_input, "81.31.246.215:7878");
    assert_eq!(s.username_input, "");
    assert_eq!(s.connect_field, ConnectField::Server);
    assert!(s.rooms.is_empty());
    assert_eq!(s.focus, Focus::Rooms);
    assert_eq!(s.device_focus, DeviceFocus::Input);
    assert!(!s.should_quit);
}

#[test]
fn connected_opens_main_screen() {
    let s = connected();
    assert_eq!(s.screen, Screen::Main);
    assert!(matches!(s.conn_status, ConnStatus::Connected));
    assert_eq!(s.my_user_id, Some(7));
    assert_eq!(s.rooms.len(), 2);
}

#[test]
fn room_created_is_added_once() {
    let mut s = connected();
    s.apply(ServerMsg::RoomCreated { room: room(3, "new", vec![]) });
    s.apply(ServerMsg::RoomCreated { room: room(3, "new", vec![]) });
    assert_eq!(s.rooms.len(), 3);
    assert_eq!(s.rooms[2].name, "new");
}

#[test]
fn user_joined_is_added_once() {
    let mut s = connected();
    s.apply(ServerMsg::UserJoined { user: user(9, "z"), room_id: 2 });
    s.apply(ServerMsg::UserJoined { user: user(9, "z"), room_id: 2 });
    assert_eq!(ids(&s.rooms[1]), vec![9]);
    s.apply(ServerMsg::UserJoined { user: user(9, "z"), room_id: 55 });
    assert_eq!(ids(&s.rooms[0]), vec![1]);
}

#[test]
fn user_left_from_one_room_or_all() {
    let mut s = connected();
    s.apply(ServerMsg::UserJoined { user: user(1, "a"), room_id: 2 });
    s.apply(ServerMsg::UserLeft { user_id: 1, room_id: 2 });
    assert_eq!(ids(&s.rooms[0]), vec![1]);
    assert!(s.rooms[1].users.is_empty());
    s.apply(ServerMsg::UserJoined { user: user(1, "a"), room_id: 2 });
    s.apply(ServerMsg::UserLeft { user_id: 1, room_id: 0 });
    assert!(s.rooms[0].users.is_empty());
    assert!(s.rooms[1].users.is_empty());
}

#[test]
fn join_then_leave_restores_rooms() {
    let mut s = connected();
    s.apply(ServerMsg::UserJoined { user: user(4, "q"), room_id: 1 });
    s.apply(ServerMsg::UserLeft { user_id: 4, room_id: 1 });
    assert_eq!(ids(&s.rooms[0]), vec![1]);
    assert!(s.rooms[1].users.is_empty());
}

#[test]
fn error_becomes_notification() {
    let mut s = connected();
    s.apply(ServerMsg::Error { message: "boom".to_string() });
    assert_eq!(s.notification.as_deref(), Some("⚠ boom"));
}

#[test]
fn pong_and_volume_leave_state() {
    let mut s = connected();
    s.apply(ServerMsg::Pong);
    s.apply(ServerMsg::VolumeUpdate { user_id: 1, room_id: 1, level_bits: 0x3f00_0000 });
    assert_eq!(s.rooms.len(), 2);
    assert!(s.notification.is_none());
}

#[test]
fn room_list_replaces_rooms() {
    let mut s = connected();
    s.apply(ServerMsg::RoomList { rooms: vec![room(5, "x", vec![])] });
    assert_eq!(s.rooms.len(), 1);
    assert_eq!(s.rooms[0].id, 5);
}

#[test]
fn current_room_and_users() {
    let mut s = connected();
    assert!(s.current_room_info().is_none());
    assert!(s.current_users().is_empty());
    s.current_room = Some(1);
    assert_eq!(s.current_room_info().unwrap().name, "general");
    let users = s.current_users();
    assert_eq!(users.len(), 1);
    assert_eq!(users[0].username, "a");
    s.current_room = Some(42);
    assert!(s.current_room_info().is_none());
}

#[test]
fn connect_form_editing() {
    let mut s = AppState::new();
    assert!(matches!(s.handle_connect_key(Key::Backspace), ConnectAction::Nothing));
    assert_eq!(s.server_input, "81.31.246.215:787");
    s.handle_connect_key(Key::Tab);
    assert_eq!(s.connect_field, ConnectField::Username);
    s.handle_connect_key(Key::Backspace);
    assert_eq!(s.username_input, "");
    s.handle_connect_key(Key::Char('b'));
    s.handle_connect_key(Key::Char('o'));
    assert_eq!(s.username_input, "bo");
    s.handle_connect_key(Key::Tab);
    assert_eq!(s.connect_field, ConnectField::Server);
    s.handle_connect_key(Key::Char('8'));
    assert_eq!(s.server_input, "81.31.246.215:7878");
}

#[test]
fn connect_needs_a_name() {
    let mut s = AppState::new();
    assert!(matches!(s.handle_connect_key(Key::Enter), ConnectAction::Nothing));
    assert_eq!(s.notification.as_deref(), Some("Введите имя пользователя"));
    assert!(matches!(s.conn_status, ConnStatus::Disconnected));
    s.handle_connect_key(Key::Tab);
    s.handle_connect_key(Key::Char('x'));
    match s.handle_connect_key(Key::Enter) {
        ConnectAction::Connect { server, username } => {
            assert_eq!(server, "81.31.246.215:7878");
            assert_eq!(username, "x");
        }
        ConnectAction::Nothing => panic!("expected a connection request"),
    }
    assert!(matches!(s.conn_status, ConnStatus::Connecting));
    s.on_connected();
    assert!(matches!(s.conn_status, ConnStatus::Connected));
    assert_eq!(s.screen, Screen::Main);
}

#[test]
fn connect_error_is_shown() {
    let mut s = AppState::new();
    s.on_connect_error("refused".to_string());
    assert!(matches!(&s.conn_status, ConnStatus::Error(e) if e == "refused"));
    assert_eq!(s.notification.as_deref(), Some("Ошибка: refused"));
}

#[test]
fn escape_quits_connect_form() {
    let mut s = AppState::new();
    s.handle_connect_key(Key::Esc);
    assert!(s.should_quit);
}

#[test]
fn main_keys_navigate_rooms() {
    let mut s = connected();
    assert_eq!(s.handle_main_key(Key::Down), MainAction::Nothing);
    assert_eq!(s.room_list_idx, 1);
    s.handle_main_key(Key::Char('j'));
    assert_eq!(s.room_list_idx, 1);
    s.handle_main_key(Key::Char('k'));
    s.handle_main_key(Key::Up);
    assert_eq!(s.room_list_idx, 0);
    assert_eq!(s.handle_main_key(Key::Enter), MainAction::EnterRoom { leave: None, join: 1 });
    assert_eq!(s.current_room, Some(1));
    assert_eq!(s.notification.as_deref(), Some("Вошли в #general"));
    s.handle_main_key(Key::Down);
    assert_eq!(s.handle_main_key(Key::Enter), MainAction::EnterRoom { leave: Some(1), join: 2 });
    assert_eq!(s.current_room, Some(2));
}

#[test]
fn main_keys_navigate_users() {
    let mut s = connected();
    s.apply(ServerMsg::UserJoined { user: user(2, "b"), room_id: 2 });
    s.handle_main_key(Key::Tab);
    assert_eq!(s.focus, Focus::Users);
    s.handle_main_key(Key::Down);
    assert_eq!(s.user_list_idx, 1);
    s.handle_main_key(Key::Down);
    assert_eq!(s.user_list_idx, 1);
    assert_eq!(s.handle_main_key(Key::Enter), MainAction::Nothing);
    assert_eq!(s.current_room, None);
    s.handle_main_key(Key::Tab);
    assert_eq!(s.focus, Focus::Rooms);
}

#[test]
fn main_keys_toggle_and_quit() {
    let mut s = connected();
    assert_eq!(s.handle_main_key(Key::Char('m')), MainAction::ToggleMute);
    assert_eq!(s.handle_main_key(Key::Char('d')), MainAction::ToggleDeafen);
    s.handle_main_key(Key::Char('o'));
    assert_eq!(s.screen, Screen::DeviceSelect);
    s.handle_main_key(Key::Char('n'));
    assert_eq!(s.notification.as_deref(), Some("Функция создания комнаты: введите имя (TODO)"));
    s.handle_main_key(Key::Char('q'));
    assert!(s.should_quit);
}

#[test]
fn notices_for_toggles() {
    assert_eq!(mute_notice(true), "🔇 Микрофон выключен");
    assert_eq!(mute_notice(false), "🎙 Микрофон включён");
    assert_eq!(deafen_notice(true), "🎧 Звук выключен");
    assert_eq!(deafen_notice(false), "🔊 Звук включён");
}

#[test]
fn device_keys_select_devices() {
    let mut s = connected();
    s.screen = Screen::DeviceSelect;
    s.input_devices = vec!["mic1".to_string(), "mic2".to_string()];
    s.output_devices = vec!["spk".to_string()];
    s.handle_device_key(Key::Down);
    s.handle_device_key(Key::Down);
    assert_eq!(s.selected_input, 1);
    s.handle_device_key(Key::Tab);
    assert_eq!(s.device_focus, DeviceFocus::Output);
    s.handle_device_key(Key::Char('j'));
    assert_eq!(s.selected_output, 0);
    s.handle_device_key(Key::Tab);
    s.handle_device_key(Key::Up);
    assert_eq!(s.selected_input, 0);
    assert_eq!(s.handle_device_key(Key::Enter), DeviceAction::RestartAudio);
    assert_eq!(s.screen, Screen::Main);
    assert_eq!(s.notification.as_deref(), Some("Аудиоустройства обновлены"));
    s.screen = Screen::DeviceSelect;
    assert_eq!(s.handle_device_key(Key::Esc), DeviceAction::Nothing);
    assert_eq!(s.screen, Screen::Main);
}

#[test]
fn outgoing_packets_are_numbered() {
    let mut out = OutgoingAudio::new(3);
    assert!(out.next_packet(None, vec![1]).is_none());
    assert_eq!(out.seq, 0);
    let p = out.next_packet(Some(2), vec![1, 2]).unwrap();
    assert_eq!((p.user_id, p.room_id, p.seq, p.timestamp), (3, 2, 0, 0));
    assert_eq!(p.payload, vec![1, 2]);
    let p = out.next_packet(Some(2), vec![]).unwrap();
    assert_eq!((p.seq, p.timestamp), (1, 960));
    out.seq = u32::MAX;
    out.timestamp = u32::MAX - 100;
    let p = out.next_packet(Some(2), vec![]).unwrap();
    assert_eq!(p.seq, u32::MAX);
    assert_eq!((out.seq, out.timestamp), (0, 859));
}

#[test]
fn default_devices_are_selected_by_name() {
    let mut s = AppState::new();
    s.input_devices = vec!["a".to_string(), "mic".to_string(), "mic".to_string()];
    s.output_devices = vec!["spk".to_string()];
    s.select_input_named(&"mic".to_string());
    assert_eq!(s.selected_input, 1);
    s.select_input_named(&"none".to_string());
    assert_eq!(s.selected_input, 1);
    s.select_output_named(&"spk".to_string());
    assert_eq!(s.selected_output, 0);
}

#[test]
fn kth_packet_carries_k_and_960k() {
    let mut out = OutgoingAudio::new(1);
    for k in 0u32..300 {
        if k % 7 == 3 {
            assert!(out.next_packet(None, vec![]).is_none());
        }
        let p = out.next_packet(Some(1), vec![]).unwrap();
        assert_eq!(p.seq, k);
        assert_eq!(p.timestamp, k.wrapping_mul(960));
    }
}

#[test]
fn device_types_hold_their_values() {
    let d = tucha::audio::DeviceInfo { name: "mic".to_string(), is_default: true };
    let c = d.clone();
    assert_eq!(c.name, "mic");
    assert!(c.is_default);
    assert!(matches!(tucha::audio::AudioCmd::SetMuted(true), tucha::audio::AudioCmd::SetMuted(true)));
}

#[test]
fn pressing_m_twice_restores_the_flag() {
    let mut s = connected();
    let mut muted = false;
    assert_eq!(s.handle_main_key(Key::Char('m')), MainAction::ToggleMute);
    muted = s.toggle_mute(muted);
    assert!(muted);
    assert_eq!(s.notification.as_deref(), Some("🔇 Микрофон выключен"));
    assert_eq!(s.handle_main_key(Key::Char('m')), MainAction::ToggleMute);
    muted = s.toggle_mute(muted);
    assert!(!muted);
    assert_eq!(s.notification.as_deref(), Some("🎙 Микрофон включён"));
}

#[test]
fn pressing_d_twice_restores_the_flag() {
    let mut s = connected();
    let mut deafened = false;
    assert_eq!(s.handle_main_key(Key::Char('d')), MainAction::ToggleDeafen);
    deafened = s.toggle_deafen(deafened);
    assert!(deafened);
    assert_eq!(s.notification.as_deref(), Some("🎧 Звук выключен"));
    assert_eq!(s.handle_main_key(Key::Char('d')), MainAction::ToggleDeafen);
    deafened = s.toggle_deafen(deafened);
    assert!(!deafened);
    assert_eq!(s.notification.as_deref(), Some("🔊 Звук включён"));
}

#[test]
fn pressing_tab_twice_restores_focus() {
    let mut s = connected();
    assert_eq!(s.focus, Focus::Rooms);
    assert_eq!(s.handle_main_key(Key::Tab), MainAction::Nothing);
    assert_eq!(s.focus, Focus::Users);
    assert_eq!(s.handle_main_key(Key::Tab), MainAction::Nothing);
    assert_eq!(s.focus, Focus::Rooms);
}

#[test]
fn notification_expires_after_three_seconds() {
    let mut s = connected();
    s.notify("hello".to_string());
    s.clear_expired_notification(3);
    assert_eq!(s.notification.as_deref(), Some("hello"));
    s.clear_expired_notification(4);
    assert_eq!(s.notification, None);
    s.clear_expired_notification(10);
    assert_eq!(s.notification, None);
}

#[test]
fn device_lines_mark_the_selected_one() {
    let devices = vec!["Built-in".to_string(), "USB Микрофон".to_string()];
    assert_eq!(device_labels(&devices, 1), vec!["  Built-in".to_string(), "● USB Микрофон".to_string()]);
    assert_eq!(device_labels(&devices, 0), vec!["● Built-in".to_string(), "  USB Микрофон".to_string()]);
    assert_eq!(device_labels(&devices, 5), vec!["  Built-in".to_string(), "  USB Микрофон".to_string()]);
    assert!(device_labels(&Vec::new(), 0).is_empty());
}
