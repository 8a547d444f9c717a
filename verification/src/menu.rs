use vstd::prelude::*;
use crate::game::GameState;
use crate::settings::ActiveSettingInput;
use crate::join_code::{
    ActiveJoinCodeTyping, CODE_LENGTH, TypingKey, byte_len, frame_code, frame_connect, frame_has_escape, grouped_code,
    spec_grouped_code,
};
use crate::text::{spec_strip_spaces, strip_spaces};
use vstd::utf8::encode_utf8;
use vstd::utf8::is_char_boundary;

verus! {

/// Whether the game is paused and whether the settings overlay is open.
pub struct MenuState {
    pub paused: bool,
    pub is_settings_open: bool,
}

/// The buttons of the main and pause menus.
#[derive(Clone, Copy, Debug, PartialEq, Eq, Structural)]
pub enum MenuButton {
    StartGame,
    FindMatch,
    Continue,
    OpenSettings,
    CloseSettings,
    BackToMainMenu,
    Quit,
}

/// What a menu button asks of the game beyond the menu state.
#[derive(Clone, Copy, Debug, PartialEq, Eq, Structural)]
pub enum MenuCommand {
    Stay,
    GoTo(GameState),
    Quit,
}

/// What a menu button asks of the game: the lobby, the online menu, the main menu, quitting,
/// or nothing beyond the menu state.
pub open spec fn spec_menu_command(button: MenuButton) -> MenuCommand {
    match button {
        MenuButton::StartGame => MenuCommand::GoTo(GameState::Lobby),
        MenuButton::FindMatch => MenuCommand::GoTo(GameState::OnlineMenu),
        MenuButton::BackToMainMenu => MenuCommand::GoTo(GameState::MainMenu),
        MenuButton::Quit => MenuCommand::Quit,
        _ => MenuCommand::Stay,
    }
}

impl MenuState {
    /// Escape during play: it unfocuses the settings box and forgets its typed text, then closes
    /// the settings overlay if open, else pauses or resumes. Outside play it does nothing.
    /// Returns whether it acted.
    pub fn on_escape(&mut self, input: &mut ActiveSettingInput, in_gameplay: bool) -> (acted: bool)
        ensures
            acted == in_gameplay,
            final(self).is_settings_open == (old(self).is_settings_open && !in_gameplay),
            final(self).paused == (if in_gameplay && !old(self).is_settings_open {
                !old(self).paused
            } else {
                old(self).paused
            }),
            in_gameplay ==> final(input).focused_setting is None && final(input).current_text@
                == Seq::<char>::empty(),
            !in_gameplay ==> final(input).focused_setting == old(input).focused_setting
                && final(input).current_text@ == old(input).current_text@,
    {
        if !in_gameplay {
            return false;
        }
        input.clear();
        if self.is_settings_open {
            self.is_settings_open = false;
        } else {
            self.paused = !self.paused;
        }
        true
    }

    /// Whether the pause menu is shown: while paused with the settings closed.
    pub fn shows_pause_menu(&self) -> (r: bool)
        ensures
            r == (self.paused && !self.is_settings_open),
    {
        self.paused && !self.is_settings_open
    }

    /// Whether the in-game settings overlay is shown: while paused with the settings open.
    pub fn shows_settings(&self) -> (r: bool)
        ensures
            r == (self.paused && self.is_settings_open),
    {
        self.paused && self.is_settings_open
    }

    /// Presses a menu button: the settings box loses its focus and text, then the button acts.
    pub fn press(&mut self, input: &mut ActiveSettingInput, button: MenuButton) -> (cmd: MenuCommand)
        ensures
            cmd == spec_menu_command(button),
            final(input).focused_setting is None,
            final(input).current_text@ == Seq::<char>::empty(),
            final(self).paused == (match button {
                MenuButton::Continue | MenuButton::BackToMainMenu => false,
                _ => old(self).paused,
            }),
            final(self).is_settings_open == (match button {
                MenuButton::OpenSettings => true,
                MenuButton::CloseSettings | MenuButton::BackToMainMenu => false,
                _ => old(self).is_settings_open,
            }),
    {
        input.clear();
        match button {
            MenuButton::StartGame => MenuCommand::GoTo(GameState::Lobby),
            MenuButton::FindMatch => MenuCommand::GoTo(GameState::OnlineMenu),
            MenuButton::Continue => {
                self.paused = false;
                MenuCommand::Stay
            },
            MenuButton::OpenSettings => {
                self.is_settings_open = true;
                MenuCommand::Stay
            },
            MenuButton::CloseSettings => {
                self.is_settings_open = false;
                MenuCommand::Stay
            },
            MenuButton::BackToMainMenu => {
                self.paused = false;
                self.is_settings_open = false;
                MenuCommand::GoTo(GameState::MainMenu)
            },
            MenuButton::Quit => MenuCommand::Quit,
        }
    }
}

/// The room to connect to: an empty code means public matchmaking.
pub struct OnlineCodeResource {
    pub code: String,
    pub is_host: bool,
}

/// The buttons of the online menu.
#[derive(Clone, Copy, Debug, PartialEq, Eq, Structural)]
pub enum OnlineMenuButton {
    PublicMatch,
    HostGame,
    JoinGame,
    ConnectWithCode,
    BackToMainMenu,
    BackToOnlineMenu,
}

/// Presses an online menu button. `host_code` is the fresh room code that "HOST PRIVATE GAME"
/// takes. Returns the state to go to, if any; hosting goes straight to the lobby, the caller
/// then opening the room socket and taking seat 0.
pub fn press_online_button(
    button: OnlineMenuButton,
    typing: &mut ActiveJoinCodeTyping,
    code_res: &mut OnlineCodeResource,
    host_code: String,
) -> (next: Option<GameState>)
    ensures
        match button {
            OnlineMenuButton::PublicMatch => {
                &&& final(code_res).code@ == Seq::<char>::empty()
                &&& !final(code_res).is_host
                &&& next == Some(GameState::Matchmaking)
                &&& final(typing).code@ == old(typing).code@
                &&& final(typing).is_typing == old(typing).is_typing
            },
            OnlineMenuButton::HostGame => {
                &&& final(code_res).code@ == host_code@
                &&& final(code_res).is_host
                &&& next == Some(GameState::Lobby)
                &&& final(typing).code@ == old(typing).code@
                &&& final(typing).is_typing == old(typing).is_typing
            },
            OnlineMenuButton::JoinGame => {
                &&& final(typing).is_typing
                &&& final(typing).code@ == Seq::<char>::empty()
                &&& next is None
                &&& final(code_res).code@ == old(code_res).code@
                &&& final(code_res).is_host == old(code_res).is_host
            },
            OnlineMenuButton::ConnectWithCode => {
                &&& final(typing).code@ == old(typing).code@
                &&& final(typing).is_typing == old(typing).is_typing
                &&& if byte_len(old(typing).code@) == CODE_LENGTH {
                    &&& final(code_res).code@ == old(typing).code@
                    &&& !final(code_res).is_host
                    &&& next == Some(GameState::Matchmaking)
                } else {
                    &&& final(code_res).code@ == old(code_res).code@
                    &&& final(code_res).is_host == old(code_res).is_host
                    &&& next is None
                }
            },
            OnlineMenuButton::BackToMainMenu => {
                &&& next == Some(GameState::MainMenu)
                &&& final(typing).code@ == old(typing).code@
                &&& final(typing).is_typing == old(typing).is_typing
                &&& final(code_res).code@ == old(code_res).code@
                &&& final(code_res).is_host == old(code_res).is_host
            },
            OnlineMenuButton::BackToOnlineMenu => {
                &&& !final(typing).is_typing
                &&& final(typing).code@ == Seq::<char>::empty()
                &&& next == Some(GameState::OnlineMenu)
                &&& final(code_res).code@ == old(code_res).code@
                &&& final(code_res).is_host == old(code_res).is_host
            },
        },
{
    match button {
        OnlineMenuButton::PublicMatch => {
            code_res.code = String::new();
            code_res.is_host = false;
            Some(GameState::Matchmaking)
        },
        OnlineMenuButton::HostGame => {
            code_res.code = host_code;
            code_res.is_host = true;
            Some(GameState::Lobby)
        },
        OnlineMenuButton::JoinGame => {
            typing.start_typing();
            None
        },
        OnlineMenuButton::ConnectWithCode => {
            match typing.complete_code() {
                Some(code) => {
                    code_res.code = code;
                    code_res.is_host = false;
                    Some(GameState::Matchmaking)
                },
                None => None,
            }
        },
        OnlineMenuButton::BackToMainMenu => Some(GameState::MainMenu),
        OnlineMenuButton::BackToOnlineMenu => {
            typing.stop_typing();
            Some(GameState::OnlineMenu)
        },
    }
}

/// The keys of one frame on the join screen: when an Enter finds all six digits typed, the code
/// is taken as the room to join (not as host) and matchmaking starts. Returns the state to go to.
pub fn online_menu_keyboard_input(
    typing: &mut ActiveJoinCodeTyping,
    keys: &Vec<TypingKey>,
    code_res: &mut OnlineCodeResource,
) -> (next: Option<GameState>)
    ensures
        ({
            let connect = if old(typing).is_typing {
                frame_connect(old(typing).code@, keys@)
            } else {
                None
            };
            match connect {
                Some(c) => {
                    &&& next == Some(GameState::Matchmaking)
                    &&& final(code_res).code@ == c
                    &&& !final(code_res).is_host
                },
                None => {
                    &&& next is None
                    &&& final(code_res).code@ == old(code_res).code@
                    &&& final(code_res).is_host == old(code_res).is_host
                },
            }
        }),
        final(typing).is_typing == (if old(typing).is_typing {
            !frame_has_escape(keys@)
        } else {
            false
        }),
        final(typing).code@ == (if old(typing).is_typing {
            frame_code(old(typing).code@, keys@)
        } else {
            old(typing).code@
        }),
{
    match typing.handle_frame(keys) {
        Some(code) => {
            code_res.code = code;
            code_res.is_host = false;
            Some(GameState::Matchmaking)
        },
        None => None,
    }
}

/// The room code as the matchmaking screen shows it: spaces taken out, and grouped as "123 456"
/// when six bytes remain.
pub open spec fn spec_shown_code(code: Seq<char>) -> Seq<char> {
    let raw = spec_strip_spaces(code);
    if byte_len(raw) == 6 { spec_grouped_code(raw) } else { raw }
}

/// The title, status line and detail text of the matchmaking screen.
pub struct MatchmakingTexts {
    pub title: String,
    pub status: String,
    pub detail: String,
}

/// The texts of the matchmaking screen, from the room being joined: public matchmaking for an
/// empty code, else the host's or the joiner's view of the private room; without a room, a
/// plain connecting screen.
pub fn matchmaking_texts(code_res: &Option<OnlineCodeResource>) -> (t: MatchmakingTexts)
    requires
        code_res matches Some(r) ==> (byte_len(spec_strip_spaces(r.code@)) == 6 ==> is_char_boundary(
            encode_utf8(spec_strip_spaces(r.code@)),
            3,
        )),
    ensures
        match code_res {
            None => {
                &&& t.title@ == "ONLINE MULTIPLAYER"@
                &&& t.status@ == "CONNECTING..."@
                &&& t.detail@ == "Initiating online multiplayer connection..."@
            },
            Some(r) => if r.code@.len() == 0 {
                &&& t.title@ == "PUBLIC MATCHMAKING"@
                &&& t.status@ == "SEARCHING FOR PEER..."@
                &&& t.detail@ == "Connecting to the public matchmaking lobby.\nThe game will start automatically when a peer joins."@
            } else if r.is_host {
                &&& t.title@ == "HOST PRIVATE GAME"@
                &&& t.status@ == "ROOM CODE: "@ + spec_shown_code(r.code@)
                &&& t.detail@ == "Share this code with your friend!\nThe code has been copied to your clipboard automatically."@
            } else {
                &&& t.title@ == "JOIN PRIVATE GAME"@
                &&& t.status@ == "CONNECTING TO ROOM: "@ + spec_shown_code(r.code@)
                &&& t.detail@ == "Establishing handshake with Host...\nWaiting for connection to finalize."@
            },
        },
{
    let mut title = String::new();
    let mut status = String::new();
    let mut detail = String::new();
    match code_res {
        None => {
            title.append("ONLINE MULTIPLAYER");
            status.append("CONNECTING...");
            detail.append("Initiating online multiplayer connection...");
        },
        Some(r) => {
            if r.code.as_str().unicode_len() == 0 {
                title.append("PUBLIC MATCHMAKING");
                status.append("SEARCHING FOR PEER...");
                detail.append(
                    "Connecting to the public matchmaking lobby.\nThe game will start automatically when a peer joins.",
                );
            } else {
                let raw = strip_spaces(r.code.as_str());
                let shown = if raw.as_str().as_bytes().len() == 6 {
                    grouped_code(raw.as_str())
                } else {
                    raw
                };
                if r.is_host {
                    title.append("HOST PRIVATE GAME");
                    status.append("ROOM CODE: ");
                    status.append(shown.as_str());
                    detail.append(
                        "Share this code with your friend!\nThe code has been copied to your clipboard automatically.",
                    );
                } else {
                    title.append("JOIN PRIVATE GAME");
                    status.append("CONNECTING TO ROOM: ");
                    status.append(shown.as_str());
                    detail.append("Establishing handshake with Host...\nWaiting for connection to finalize.");
                }
            }
        },
    }
    MatchmakingTexts { title, status, detail }
}

} // verus!
