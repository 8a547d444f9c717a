use sets::game::GameState;
use sets::hud::{ammo_display, ammo_dot_cell, counter_digits, digit_segments, AmmoDisplay};
use sets::join_code::{ActiveJoinCodeTyping, TypingKey};
use sets::menu::{
    matchmaking_texts, online_menu_keyboard_input, press_online_button, MenuButton, MenuCommand, MenuState,
    OnlineCodeResource, OnlineMenuButton,
};
use sets::settings::{control_of, edit_setting_text, ActiveSettingInput, SettingKeyOutcome, SettingType};
use sets::controls::{apply_control_setting, control_setting_value, ControlSetting, ControllerControls, KeyboardControls};

#[test]
fn seven_segment_digits() {
    assert_eq!(digit_segments(8), [true; 7]);
    assert_eq!(digit_segments(1), [false, true, true, false, false, false, false]);
    assert_eq!(digit_segments(10), [false; 7]);
    for a in 0..10 {
        for b in 0..a {
            assert_ne!(digit_segments(a), digit_segments(b));
        }
    }
}

#[test]
fn counter_spells_the_number() {
    assert_eq!(counter_digits(0), vec![0]);
    assert_eq!(counter_digits(19), vec![1, 9]);
    assert_eq!(counter_digits(4_000_000_207), vec![4, 0, 0, 0, 0, 0, 0, 2, 0, 7]);
}

#[test]
fn ammo_gauges() {
    assert_eq!(ammo_display(true, 30), AmmoDisplay::Reloading);
    assert_eq!(ammo_display(false, 19), AmmoDisplay::Counter);
    assert_eq!(ammo_display(false, 18), AmmoDisplay::Dots);
    assert_eq!(ammo_display(false, 0), AmmoDisplay::Empty);
    assert_eq!(ammo_dot_cell(0), (0, 0));
    assert_eq!(ammo_dot_cell(7), (2, 1));
}

#[test]
fn settings_boxes_filter_typing() {
    let mut t = String::from("1");
    assert_eq!(edit_setting_text(&mut t, &TypingKey::Character(".5".to_string()), false), SettingKeyOutcome::Editing);
    edit_setting_text(&mut t, &TypingKey::Character("a".to_string()), false);
    assert_eq!(t, "1.5");
    edit_setting_text(&mut t, &TypingKey::Character("-".to_string()), false);
    assert_eq!(t, "1.5-");
    edit_setting_text(&mut t, &TypingKey::Backspace, false);
    assert_eq!(t, "1.5");
    let mut k = String::new();
    edit_setting_text(&mut k, &TypingKey::Character("KeyQ".to_string()), true);
    assert_eq!(k, "KeyQ");
    assert_eq!(edit_setting_text(&mut k, &TypingKey::Enter, true), SettingKeyOutcome::Commit);
    assert_eq!(edit_setting_text(&mut k, &TypingKey::Escape, true), SettingKeyOutcome::Cancel);
    assert_eq!(k, "KeyQ");
}

#[test]
fn escape_pauses_and_closes_settings() {
    let mut m = MenuState { paused: false, is_settings_open: false };
    assert!(!m.on_escape(&mut ActiveSettingInput::new(), false));
    assert!(!m.paused);
    assert!(m.on_escape(&mut ActiveSettingInput::new(), true));
    assert!(m.paused);
    assert!(m.shows_pause_menu());
    assert_eq!(m.press(&mut ActiveSettingInput::new(), MenuButton::OpenSettings), MenuCommand::Stay);
    assert!(m.shows_settings());
    assert!(!m.shows_pause_menu());
    m.on_escape(&mut ActiveSettingInput::new(), true);
    assert!(m.paused);
    assert!(!m.is_settings_open);
    m.on_escape(&mut ActiveSettingInput::new(), true);
    assert!(!m.paused);
}

#[test]
fn menu_buttons() {
    let mut m = MenuState { paused: true, is_settings_open: true };
    assert_eq!(m.press(&mut ActiveSettingInput::new(), MenuButton::StartGame), MenuCommand::GoTo(GameState::Lobby));
    assert_eq!(m.press(&mut ActiveSettingInput::new(), MenuButton::FindMatch), MenuCommand::GoTo(GameState::OnlineMenu));
    assert_eq!(m.press(&mut ActiveSettingInput::new(), MenuButton::Quit), MenuCommand::Quit);
    assert!(m.paused && m.is_settings_open);
    assert_eq!(m.press(&mut ActiveSettingInput::new(), MenuButton::CloseSettings), MenuCommand::Stay);
    assert!(!m.is_settings_open);
    assert_eq!(m.press(&mut ActiveSettingInput::new(), MenuButton::Continue), MenuCommand::Stay);
    assert!(!m.paused);
    m.paused = true;
    m.is_settings_open = true;
    assert_eq!(m.press(&mut ActiveSettingInput::new(), MenuButton::BackToMainMenu), MenuCommand::GoTo(GameState::MainMenu));
    assert!(!m.paused && !m.is_settings_open);
}

#[test]
fn online_buttons() {
    let mut typing = ActiveJoinCodeTyping::new();
    let mut res = OnlineCodeResource { code: "old".to_string(), is_host: true };
    assert_eq!(press_online_button(OnlineMenuButton::PublicMatch, &mut typing, &mut res, String::new()), Some(GameState::Matchmaking));
    assert_eq!(res.code, "");
    assert!(!res.is_host);
    assert_eq!(press_online_button(OnlineMenuButton::HostGame, &mut typing, &mut res, "482913".to_string()), Some(GameState::Lobby));
    assert_eq!(res.code, "482913");
    assert!(res.is_host);
    assert_eq!(press_online_button(OnlineMenuButton::JoinGame, &mut typing, &mut res, String::new()), None);
    assert!(typing.is_typing);
    typing.handle_key(&TypingKey::Character("12345".to_string()));
    assert_eq!(press_online_button(OnlineMenuButton::ConnectWithCode, &mut typing, &mut res, String::new()), None);
    assert_eq!(res.code, "482913");
    typing.handle_key(&TypingKey::Character("6".to_string()));
    assert_eq!(press_online_button(OnlineMenuButton::ConnectWithCode, &mut typing, &mut res, String::new()), Some(GameState::Matchmaking));
    assert_eq!(res.code, "123456");
    assert!(!res.is_host);
    assert_eq!(press_online_button(OnlineMenuButton::BackToOnlineMenu, &mut typing, &mut res, String::new()), Some(GameState::OnlineMenu));
    assert!(!typing.is_typing);
    assert_eq!(typing.code, "");
    assert_eq!(press_online_button(OnlineMenuButton::BackToMainMenu, &mut typing, &mut res, String::new()), Some(GameState::MainMenu));
}

fn sample_bindings() -> (KeyboardControls, ControllerControls) {
    let kb = KeyboardControls {
        move_left: "A".to_string(),
        move_right: "D".to_string(),
        jump: "W".to_string(),
        fast_fall: "S".to_string(),
        block: "F".to_string(),
        shoot: "Space".to_string(),
        reload: "R".to_string(),
    };
    let ctrl = ControllerControls {
        jump: "South".to_string(),
        block: "LeftTrigger".to_string(),
        shoot: "RightTrigger".to_string(),
        reload: "West".to_string(),
    };
    (kb, ctrl)
}

#[test]
fn control_binding_reads_back_what_was_written() {
    let (mut kb, mut ctrl) = sample_bindings();
    assert_eq!(control_setting_value(ControlSetting::KbShoot, &kb, &ctrl), "Space");
    apply_control_setting(ControlSetting::KbShoot, "J", &mut kb, &mut ctrl);
    assert_eq!(control_setting_value(ControlSetting::KbShoot, &kb, &ctrl), "J");
    assert_eq!(control_setting_value(ControlSetting::KbJump, &kb, &ctrl), "W");
    apply_control_setting(ControlSetting::CtrlReload, "North", &mut kb, &mut ctrl);
    assert_eq!(ctrl.reload, "North");
    assert_eq!(ctrl.jump, "South");
    assert_eq!(kb.shoot, "J");
    assert_eq!(kb.reload, "R");
}

#[test]
fn escape_in_play_clears_the_focused_box() {
    let mut m = MenuState { paused: false, is_settings_open: true };
    let mut input = ActiveSettingInput { focused_setting: Some(SettingType::Gravity), current_text: "98".to_string() };
    assert!(!m.on_escape(&mut input, false));
    assert_eq!(input.focused_setting, Some(SettingType::Gravity));
    assert_eq!(input.current_text, "98");
    assert!(m.on_escape(&mut input, true));
    assert_eq!(input.focused_setting, None);
    assert_eq!(input.current_text, "");
    assert!(!m.is_settings_open);
    assert!(!m.paused);
}

#[test]
fn menu_button_clears_the_focused_box() {
    let mut m = MenuState { paused: true, is_settings_open: true };
    let mut input = ActiveSettingInput { focused_setting: Some(SettingType::KbJump), current_text: "K".to_string() };
    assert_eq!(m.press(&mut input, MenuButton::CloseSettings), MenuCommand::Stay);
    assert_eq!(input.focused_setting, None);
    assert_eq!(input.current_text, "");
}

#[test]
fn control_rows_are_recognised() {
    assert_eq!(control_of(SettingType::KbMoveLeft), Some(ControlSetting::KbMoveLeft));
    assert_eq!(control_of(SettingType::CtrlReload), Some(ControlSetting::CtrlReload));
    assert_eq!(control_of(SettingType::Gravity), None);
    assert_eq!(control_of(SettingType::PlayerMaxAmmo(3)), None);
}

#[test]
fn settings_frame_commits_numbers_and_keeps_reading() {
    let (mut kb, mut ctrl) = sample_bindings();
    let mut input = ActiveSettingInput { focused_setting: Some(SettingType::Gravity), current_text: "9".to_string() };
    let keys = vec![
        TypingKey::Character("8".to_string()),
        TypingKey::Character("x".to_string()),
        TypingKey::Enter,
        TypingKey::Character("5".to_string()),
        TypingKey::Enter,
    ];
    let commits = input.settings_keyboard_input(&keys, &mut kb, &mut ctrl);
    assert_eq!(commits, vec!["98".to_string(), "5".to_string()]);
    assert_eq!(input.focused_setting, None);
    assert_eq!(input.current_text, "");
    assert_eq!(kb.jump, "W");

    let mut idle = ActiveSettingInput::new();
    assert!(idle.settings_keyboard_input(&keys, &mut kb, &mut ctrl).is_empty());
    assert_eq!(idle.current_text, "");
}

#[test]
fn settings_frame_binds_controls() {
    let (mut kb, mut ctrl) = sample_bindings();
    let mut input = ActiveSettingInput { focused_setting: Some(SettingType::KbJump), current_text: String::new() };
    let keys = vec![TypingKey::Character("Up".to_string()), TypingKey::Enter, TypingKey::Character("Z".to_string())];
    assert!(input.settings_keyboard_input(&keys, &mut kb, &mut ctrl).is_empty());
    assert_eq!(kb.jump, "Up");
    assert_eq!(kb.shoot, "Space");
    assert_eq!(input.focused_setting, None);
    assert_eq!(input.current_text, "Z");

    let mut escaped = ActiveSettingInput { focused_setting: Some(SettingType::CtrlJump), current_text: "A".to_string() };
    escaped.settings_keyboard_input(&vec![TypingKey::Escape, TypingKey::Backspace], &mut kb, &mut ctrl);
    assert_eq!(ctrl.jump, "South");
    assert_eq!(escaped.focused_setting, None);
}

#[test]
fn clicking_away_commits_the_focused_box() {
    let (mut kb, mut ctrl) = sample_bindings();
    let control = ActiveSettingInput { focused_setting: Some(SettingType::KbReload), current_text: "T".to_string() };
    assert!(control.commit_focused(&mut kb, &mut ctrl).is_none());
    assert_eq!(kb.reload, "T");
    let numeric = ActiveSettingInput { focused_setting: Some(SettingType::PlayerSpeed(1)), current_text: "450".to_string() };
    assert_eq!(numeric.commit_focused(&mut kb, &mut ctrl), Some((SettingType::PlayerSpeed(1), "450".to_string())));
    assert!(ActiveSettingInput::new().commit_focused(&mut kb, &mut ctrl).is_none());
    assert_eq!(kb.reload, "T");
}

#[test]
fn enter_on_a_complete_code_starts_matchmaking() {
    let mut typing = ActiveJoinCodeTyping::new();
    typing.start_typing();
    let mut res = OnlineCodeResource { code: String::new(), is_host: true };
    let short = vec![TypingKey::Character("123".to_string()), TypingKey::Enter];
    assert_eq!(online_menu_keyboard_input(&mut typing, &short, &mut res), None);
    assert!(res.is_host);
    let rest = vec![TypingKey::Character("456".to_string()), TypingKey::Enter];
    assert_eq!(online_menu_keyboard_input(&mut typing, &rest, &mut res), Some(GameState::Matchmaking));
    assert_eq!(res.code, "123456");
    assert!(!res.is_host);
}

#[test]
fn matchmaking_screen_texts() {
    let t = matchmaking_texts(&None);
    assert_eq!(t.title, "ONLINE MULTIPLAYER");
    assert_eq!(t.status, "CONNECTING...");
    let t = matchmaking_texts(&Some(OnlineCodeResource { code: String::new(), is_host: false }));
    assert_eq!(t.title, "PUBLIC MATCHMAKING");
    assert_eq!(t.status, "SEARCHING FOR PEER...");
    assert_eq!(t.detail, "Connecting to the public matchmaking lobby.\nThe game will start automatically when a peer joins.");
    let t = matchmaking_texts(&Some(OnlineCodeResource { code: "12 34 56".to_string(), is_host: true }));
    assert_eq!(t.title, "HOST PRIVATE GAME");
    assert_eq!(t.status, "ROOM CODE: 123 456");
    let t = matchmaking_texts(&Some(OnlineCodeResource { code: "1234".to_string(), is_host: false }));
    assert_eq!(t.title, "JOIN PRIVATE GAME");
    assert_eq!(t.status, "CONNECTING TO ROOM: 1234");
    assert_eq!(t.detail, "Establishing handshake with Host...\nWaiting for connection to finalize.");
}
