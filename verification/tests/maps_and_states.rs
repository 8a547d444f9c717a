use sets::maps::{client_map_change, parse_active_map, ActiveMap};
use sets::game::{client_state_change, parse_game_state, GameState, Player};

const ALL_MAPS: [ActiveMap; 13] = [
    ActiveMap::DefaultMap,
    ActiveMap::PillarsMap,
    ActiveMap::StadiumMap,
    ActiveMap::ChasmBridge,
    ActiveMap::Gridlock,
    ActiveMap::Hourglass,
    ActiveMap::IceTemple,
    ActiveMap::IndustrialFoundry,
    ActiveMap::VerticalHelix,
    ActiveMap::TectonicFissure,
    ActiveMap::ZenGarden,
    ActiveMap::SpaceStation,
    ActiveMap::AncientColiseum,
];

#[test]
fn map_names_round_trip() {
    for m in ALL_MAPS {
        assert_eq!(parse_active_map(m.name()), m);
        assert_eq!(m.name(), format!("{:?}", m));
    }
}

#[test]
fn unknown_map_name_gives_default_map() {
    assert_eq!(parse_active_map("Moon"), ActiveMap::DefaultMap);
    assert_eq!(parse_active_map(""), ActiveMap::DefaultMap);
    assert_eq!(parse_active_map("gridlock"), ActiveMap::DefaultMap);
    assert_eq!(parse_active_map("Gridlock"), ActiveMap::Gridlock);
}

#[test]
fn map_numbers_cover_every_map() {
    for (i, m) in ALL_MAPS.iter().enumerate() {
        assert_eq!(ActiveMap::from_index(i as u32), *m);
    }
    assert_eq!(ActiveMap::from_index(13), ActiveMap::AncientColiseum);
    assert_eq!(ActiveMap::from_index(u32::MAX), ActiveMap::AncientColiseum);
}

#[test]
fn map_from_time_uses_remainder_mod_13() {
    assert_eq!(ActiveMap::from_time_micros(0), ActiveMap::DefaultMap);
    assert_eq!(ActiveMap::from_time_micros(13 * 1000 + 4), ActiveMap::Gridlock);
    assert_eq!(ActiveMap::from_time_micros(25), ActiveMap::AncientColiseum);
    assert_eq!(ActiveMap::from_time_micros(1_700_000_000_000_001), ActiveMap::from_index((1_700_000_000_000_001u128 % 13) as u32));
}

#[test]
fn game_state_names_round_trip() {
    let all = [
        GameState::MainMenu,
        GameState::Lobby,
        GameState::OnlineMenu,
        GameState::Matchmaking,
        GameState::Gameplay,
        GameState::CardSelection,
    ];
    for s in all {
        assert_eq!(parse_game_state(s.name()), s);
        assert_eq!(s.name(), format!("{:?}", s));
    }
    assert_eq!(parse_game_state("Paused"), GameState::Gameplay);
    assert_eq!(parse_game_state(""), GameState::Gameplay);
}

#[test]
fn player_seats_and_labels() {
    for i in 0..8usize {
        let p = Player::from_index(i);
        assert_eq!(p.index(), i);
        assert_eq!(p.label(), format!("P{}", i + 1));
        assert_eq!(p.label(), format!("{:?}", p));
    }
}

#[test]
fn client_follows_the_host_only_on_a_change() {
    assert_eq!(client_state_change(GameState::Gameplay, "Gameplay"), None);
    assert_eq!(client_state_change(GameState::Lobby, "CardSelection"), Some(GameState::CardSelection));
    assert_eq!(client_state_change(GameState::Gameplay, "Nonsense"), None);
    assert_eq!(client_state_change(GameState::Lobby, "Nonsense"), Some(GameState::Gameplay));
    assert_eq!(client_map_change(ActiveMap::Gridlock, "Gridlock"), None);
    assert_eq!(client_map_change(ActiveMap::Gridlock, "ZenGarden"), Some(ActiveMap::ZenGarden));
    assert_eq!(client_map_change(ActiveMap::Gridlock, "Unknown"), Some(ActiveMap::DefaultMap));
}
