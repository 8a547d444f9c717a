use vstd::prelude::*;

pub mod text;
pub mod maps;
pub mod game;
pub mod lobby;
pub mod rng;
pub mod matchmaking;
pub mod join_code;
pub mod hud;
pub mod settings;
pub mod controls;
pub mod menu;
pub mod cards;
pub mod card_selection;

verus! {

} // verus!
