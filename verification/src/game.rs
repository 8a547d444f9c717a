use vstd::prelude::*;
use crate::text::{str_equals, spec_digit_char};

verus! {

/// The screen the game is on.
#[derive(Clone, Copy, Debug, PartialEq, Eq, Structural)]
pub enum GameState {
    MainMenu,
    Lobby,
    OnlineMenu,
    Matchmaking,
    Gameplay,
    CardSelection,
}

/// The name under which a game state travels in a host state packet (its variant name).
pub open spec fn spec_game_state_name(s: GameState) -> Seq<char> {
    match s {
        GameState::MainMenu => "MainMenu"@,
        GameState::Lobby => "Lobby"@,
        GameState::OnlineMenu => "OnlineMenu"@,
        GameState::Matchmaking => "Matchmaking"@,
        GameState::Gameplay => "Gameplay"@,
        GameState::CardSelection => "CardSelection"@,
    }
}

/// The game state that a received name stands for; an unknown name gives `Gameplay`.
pub open spec fn spec_parse_game_state(name: Seq<char>) -> GameState {
    if name == "MainMenu"@ {
        GameState::MainMenu
    } else if name == "Lobby"@ {
        GameState::Lobby
    } else if name == "OnlineMenu"@ {
        GameState::OnlineMenu
    } else if name == "Matchmaking"@ {
        GameState::Matchmaking
    } else if name == "Gameplay"@ {
        GameState::Gameplay
    } else if name == "CardSelection"@ {
        GameState::CardSelection
    } else {
        GameState::Gameplay
    }
}

impl GameState {
    /// The name of the state, as the host writes it into a state packet.
    pub fn name(&self) -> (s: &'static str)
        ensures
            s@ == spec_game_state_name(*self),
    {
        match self {
            GameState::MainMenu => "MainMenu",
            GameState::Lobby => "Lobby",
            GameState::OnlineMenu => "OnlineMenu",
            GameState::Matchmaking => "Matchmaking",
            GameState::Gameplay => "Gameplay",
            GameState::CardSelection => "CardSelection",
        }
    }
}

/// Reads the game state out of the name that a host state packet carries.
pub fn parse_game_state(name: &str) -> (s: GameState)
    ensures
        s == spec_parse_game_state(name@),
{
    if str_equals(name, "MainMenu") {
        GameState::MainMenu
    } else if str_equals(name, "Lobby") {
        GameState::Lobby
    } else if str_equals(name, "OnlineMenu") {
        GameState::OnlineMenu
    } else if str_equals(name, "Matchmaking") {
        GameState::Matchmaking
    } else if str_equals(name, "Gameplay") {
        GameState::Gameplay
    } else if str_equals(name, "CardSelection") {
        GameState::CardSelection
    } else {
        GameState::Gameplay
    }
}

/// The state a client moves to on a host packet: the state the packet names, or `None` when the
/// client is already in it.
pub fn client_state_change(current: GameState, name: &str) -> (next: Option<GameState>)
    ensures
        next == (if spec_parse_game_state(name@) == current {
            None
        } else {
            Some(spec_parse_game_state(name@))
        }),
{
    let target = parse_game_state(name);
    if target == current {
        None
    } else {
        Some(target)
    }
}

/// What the host sends is what the client reads: parsing the name of a game state gives that state back.
pub proof fn lemma_game_state_name_round_trip(s: GameState)
    ensures
        spec_parse_game_state(spec_game_state_name(s)) == s,
{
    reveal_strlit("MainMenu");
    reveal_strlit("Lobby");
    reveal_strlit("OnlineMenu");
    reveal_strlit("Matchmaking");
    reveal_strlit("Gameplay");
    reveal_strlit("CardSelection");
    let n = spec_game_state_name(s);
    assert(n.len() > 1);
    assert(n == "MainMenu"@ ==> "MainMenu"@.len() == n.len() && "MainMenu"@[0] == n[0] && "MainMenu"@[1] == n[1]);
    assert(n == "Lobby"@ ==> "Lobby"@.len() == n.len() && "Lobby"@[0] == n[0] && "Lobby"@[1] == n[1]);
    assert(n == "OnlineMenu"@ ==> "OnlineMenu"@.len() == n.len() && "OnlineMenu"@[0] == n[0] && "OnlineMenu"@[1] == n[1]);
    assert(n == "Matchmaking"@ ==> "Matchmaking"@.len() == n.len() && "Matchmaking"@[0] == n[0] && "Matchmaking"@[1] == n[1]);
    assert(n == "Gameplay"@ ==> "Gameplay"@.len() == n.len() && "Gameplay"@[0] == n[0] && "Gameplay"@[1] == n[1]);
    assert(n == "CardSelection"@ ==> "CardSelection"@.len() == n.len() && "CardSelection"@[0] == n[0] && "CardSelection"@[1] == n[1]);
}

/// The most players a match can hold.
pub const MAX_PLAYERS: usize = 8;

/// One of the eight player seats.
#[derive(Clone, Copy, Debug, PartialEq, Eq, Structural)]
pub enum Player {
    P1,
    P2,
    P3,
    P4,
    P5,
    P6,
    P7,
    P8,
}

/// The seat number of a player, counted from 0.
pub open spec fn spec_player_index(p: Player) -> int {
    match p {
        Player::P1 => 0,
        Player::P2 => 1,
        Player::P3 => 2,
        Player::P4 => 3,
        Player::P5 => 4,
        Player::P6 => 5,
        Player::P7 => 6,
        Player::P8 => 7,
    }
}

/// The player in the seat with the given number.
pub open spec fn spec_player_from_index(i: int) -> Player {
    if i <= 0 {
        Player::P1
    } else if i == 1 {
        Player::P2
    } else if i == 2 {
        Player::P3
    } else if i == 3 {
        Player::P4
    } else if i == 4 {
        Player::P5
    } else if i == 5 {
        Player::P6
    } else if i == 6 {
        Player::P7
    } else {
        Player::P8
    }
}

impl Player {
    /// The seat number of the player, counted from 0.
    pub fn index(&self) -> (i: usize)
        ensures
            i == spec_player_index(*self),
            i < MAX_PLAYERS,
    {
        match self {
            Player::P1 => 0,
            Player::P2 => 1,
            Player::P3 => 2,
            Player::P4 => 3,
            Player::P5 => 4,
            Player::P6 => 5,
            Player::P7 => 6,
            Player::P8 => 7,
        }
    }

    /// The player in the seat with the given number.
    pub fn from_index(i: usize) -> (p: Player)
        requires
            i < MAX_PLAYERS,
        ensures
            p == spec_player_from_index(i as int),
            spec_player_index(p) == i,
    {
        match i {
            0 => Player::P1,
            1 => Player::P2,
            2 => Player::P3,
            3 => Player::P4,
            4 => Player::P5,
            5 => Player::P6,
            6 => Player::P7,
            _ => Player::P8,
        }
    }

    /// The label of the player as the game prints it ("P1" to "P8").
    pub fn label(&self) -> (s: &'static str)
        ensures
            s@ == seq!['P', spec_digit_char(spec_player_index(*self) + 1)],
    {
        proof {
            reveal_strlit("P1");
            reveal_strlit("P2");
            reveal_strlit("P3");
            reveal_strlit("P4");
            reveal_strlit("P5");
            reveal_strlit("P6");
            reveal_strlit("P7");
            reveal_strlit("P8");
        }
        match self {
            Player::P1 => "P1",
            Player::P2 => "P2",
            Player::P3 => "P3",
            Player::P4 => "P4",
            Player::P5 => "P5",
            Player::P6 => "P6",
            Player::P7 => "P7",
            Player::P8 => "P8",
        }
    }
}

/// Seat numbers and players correspond one to one.
pub proof fn lemma_player_index_round_trip(p: Player, i: int)
    requires
        0 <= i < MAX_PLAYERS,
    ensures
        spec_player_from_index(spec_player_index(p)) == p,
        spec_player_index(spec_player_from_index(i)) == i,
        0 <= spec_player_index(p) < MAX_PLAYERS,
{
}

} // verus!
