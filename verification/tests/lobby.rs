use sets::game::GameState;
use sets::lobby::{is_gamepad_seat, remote_gamepad, sync_remote_seat, GamepadId, InputDevice, LobbyInput, LobbySlots};

fn pad(index: u32) -> GamepadId {
    GamepadId { index, generation: 1 }
}

fn input() -> LobbyInput {
    LobbyInput {
        keyboard_join: false,
        keyboard_leave: false,
        escape: false,
        gamepad_joins: Vec::new(),
        gamepad_leaves: Vec::new(),
    }
}

#[test]
fn keyboard_joins_once_in_the_first_free_seat() {
    let mut l = LobbySlots::new();
    l.slots[0] = Some(InputDevice::Gamepad(pad(7)));
    l.join(InputDevice::KeyboardMouse);
    assert_eq!(l.slots[1], Some(InputDevice::KeyboardMouse));
    l.join(InputDevice::KeyboardMouse);
    assert_eq!(l.active_count(), 2);
    assert!(l.is_seated(InputDevice::KeyboardMouse));
    assert!(!l.is_seated(InputDevice::Gamepad(pad(8))));
}

#[test]
fn full_lobby_turns_devices_away() {
    let mut l = LobbySlots::new();
    for g in 0..8u32 {
        l.join(InputDevice::Gamepad(pad(g)));
    }
    assert_eq!(l.active_count(), 8);
    l.join(InputDevice::KeyboardMouse);
    assert!(!l.is_seated(InputDevice::KeyboardMouse));
    assert_eq!(l.slots[7], Some(InputDevice::Gamepad(pad(7))));
}

#[test]
fn leaving_undoes_joining() {
    let mut l = LobbySlots::new();
    l.join(InputDevice::Gamepad(pad(3)));
    let before = l.slots;
    l.join(InputDevice::KeyboardMouse);
    l.leave(InputDevice::KeyboardMouse);
    assert_eq!(l.slots, before);
    l.leave(InputDevice::Gamepad(pad(3)));
    assert!(l.is_empty());
}

#[test]
fn local_frame_joins_then_leaves() {
    let mut l = LobbySlots::new();
    let mut i = input();
    i.keyboard_join = true;
    i.gamepad_joins = vec![pad(11), pad(12), pad(11)];
    assert!(!l.handle_local_input(&i));
    assert_eq!(l.slots[0], Some(InputDevice::KeyboardMouse));
    assert_eq!(l.slots[1], Some(InputDevice::Gamepad(pad(11))));
    assert_eq!(l.slots[2], Some(InputDevice::Gamepad(pad(12))));
    assert_eq!(l.active_count(), 3);
    assert!(l.can_start());
    let mut j = input();
    j.keyboard_leave = true;
    j.gamepad_leaves = vec![pad(12)];
    assert!(!l.handle_local_input(&j));
    assert_eq!(l.active_count(), 1);
    assert!(!l.can_start());
    assert_eq!(l.active_indices(), vec![1]);
}

#[test]
fn empty_local_lobby_goes_back_on_escape_or_east() {
    let mut l = LobbySlots::new();
    let mut i = input();
    assert!(!l.handle_local_input(&i));
    i.escape = true;
    assert!(l.handle_local_input(&i));
    let mut j = input();
    j.gamepad_leaves = vec![pad(5)];
    assert!(l.handle_local_input(&j));
    l.join(InputDevice::KeyboardMouse);
    assert!(!l.handle_local_input(&i));
}

#[test]
fn online_frame_changes_only_the_local_seat() {
    let mut l = LobbySlots::new();
    l.slots[0] = Some(InputDevice::KeyboardMouse);
    let mut i = input();
    i.gamepad_joins = vec![pad(4), pad(5)];
    assert!(!l.handle_online_input(3, &i));
    assert_eq!(l.slots[3], Some(InputDevice::Gamepad(pad(4))));
    assert_eq!(l.slots[0], Some(InputDevice::KeyboardMouse));
    let mut j = input();
    j.gamepad_leaves = vec![pad(5)];
    j.escape = true;
    assert!(l.handle_online_input(3, &j));
    assert_eq!(l.slots[3], Some(InputDevice::Gamepad(pad(4))));
    j.gamepad_leaves = vec![pad(4)];
    l.handle_online_input(3, &j);
    assert_eq!(l.slots[3], None);
    let mut k = input();
    k.keyboard_join = true;
    l.handle_online_input(3, &k);
    assert_eq!(l.slots[3], Some(InputDevice::KeyboardMouse));
    k.keyboard_join = false;
    k.keyboard_leave = true;
    l.handle_online_input(3, &k);
    assert_eq!(l.slots[3], None);
}

#[test]
fn shown_players_default_to_the_first_two_seats() {
    let mut l = LobbySlots::new();
    assert_eq!(l.active_indices(), vec![0, 1]);
    l.slots[5] = Some(InputDevice::KeyboardMouse);
    l.slots[2] = Some(InputDevice::Gamepad(pad(1)));
    assert_eq!(l.active_indices(), vec![2, 5]);
}

#[test]
fn remote_seats_follow_the_packet() {
    assert_eq!(sync_remote_seat(None, true, false), Some(InputDevice::KeyboardMouse));
    assert_eq!(sync_remote_seat(None, true, true), Some(InputDevice::Gamepad(remote_gamepad())));
    assert_eq!(sync_remote_seat(Some(InputDevice::KeyboardMouse), true, true), Some(InputDevice::KeyboardMouse));
    assert_eq!(sync_remote_seat(Some(InputDevice::Gamepad(pad(2))), false, true), None);
    assert!(is_gamepad_seat(&Some(InputDevice::Gamepad(pad(2)))));
    assert!(!is_gamepad_seat(&Some(InputDevice::KeyboardMouse)));
    assert!(!is_gamepad_seat(&None));
}

#[test]
fn gamepads_differ_by_generation_too() {
    let mut l = LobbySlots::new();
    l.join(InputDevice::Gamepad(GamepadId { index: 3, generation: 1 }));
    l.join(InputDevice::Gamepad(GamepadId { index: 3, generation: 2 }));
    assert_eq!(l.active_count(), 2);
}

#[test]
fn seat_status_lines() {
    let mut l = LobbySlots::new();
    l.slots[0] = Some(InputDevice::KeyboardMouse);
    l.slots[2] = Some(InputDevice::Gamepad(GamepadId { index: 17, generation: 4 }));
    assert_eq!(l.status_text(0), "P1 ACTIVE (KB/M)");
    assert_eq!(l.status_text(1), "P2 INACTIVE");
    assert_eq!(l.status_text(2), "P3 ACTIVE (GP17)");
    assert_eq!(l.status_text(7), "P8 INACTIVE");
}

#[test]
fn host_starts_play_once_both_seats_are_taken() {
    let mut l = LobbySlots::new();
    l.slots[0] = Some(InputDevice::KeyboardMouse);
    assert!(!l.host_auto_start(GameState::Lobby));
    l.slots[1] = Some(InputDevice::Gamepad(remote_gamepad()));
    assert!(l.host_auto_start(GameState::Lobby));
    assert!(!l.host_auto_start(GameState::Gameplay));
    l.slots[0] = None;
    l.slots[2] = Some(InputDevice::KeyboardMouse);
    assert!(!l.host_auto_start(GameState::Lobby));
}
