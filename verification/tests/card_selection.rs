use sets::card_selection::{
    apply_card_selection_effect, begin_card_selection, defeat_title, draw_hand, evaluate_round,
    is_buff_line, rebuild_card_stats, CardSelectionState, PersistentPlayerStats, ScoreTracker,
    card_widget_texts, end_round, host_card_step, local_card_step, CardInputOutcome,
};
use sets::maps::ActiveMap;
use sets::cards::{get_card, Card, PlayerStats};
use sets::game::Player;

fn base() -> PlayerStats {
    PlayerStats::new(5, 0, Vec::new())
}

fn all_stats() -> PersistentPlayerStats {
    PersistentPlayerStats {
        players: [base(), base(), base(), base(), base(), base(), base(), base()],
    }
}

#[test]
fn highlight_wraps_both_ways() {
    let mut s = CardSelectionState::new(Player::P1, [0, 1, 2, 3, 4], Vec::new());
    assert_eq!(s.selected_idx, 2);
    s.select_left();
    s.select_left();
    assert_eq!(s.selected_idx, 0);
    s.select_left();
    assert_eq!(s.selected_idx, 4);
    s.select_right();
    assert_eq!(s.selected_idx, 0);
    s.step_selection(7);
    assert_eq!(s.selected_idx, 1);
    s.step_selection(0);
    assert_eq!(s.selected_idx, 1);
    s.navigate(true, true);
    assert_eq!(s.selected_idx, 0);
    s.navigate(false, true);
    assert_eq!(s.selected_idx, 1);
}

#[test]
fn left_then_right_returns_for_every_card() {
    for i in 0..5 {
        let mut s = CardSelectionState::new(Player::P2, [0; 5], Vec::new());
        s.selected_idx = i;
        s.select_left();
        s.select_right();
        assert_eq!(s.selected_idx, i);
        s.select_right();
        s.select_left();
        assert_eq!(s.selected_idx, i);
    }
}

#[test]
fn hands_hold_five_different_cards() {
    assert_eq!(draw_hand([0, 0, 0, 0, 0]), [0, 1, 2, 3, 4]);
    assert_eq!(draw_hand([9, 8, 7, 6, 5]), [9, 8, 7, 6, 5]);
    assert_eq!(draw_hand([3, 3, 3, 3, 3]), [3, 4, 5, 6, 7]);
    assert_eq!(draw_hand([5, 0, 7, 1, 2]), [5, 0, 9, 2, 4]);
    for a in 0..10 {
        for b in 0..9 {
            let hand = draw_hand([a, b, 7 - (a % 8), b % 7, 5]);
            for i in 0..5 {
                assert!(hand[i] < 10);
                for j in 0..i {
                    assert_ne!(hand[i], hand[j]);
                }
            }
        }
    }
}

#[test]
fn round_goes_on_while_two_stand() {
    let players = vec![(Player::P1, true), (Player::P2, true), (Player::P3, false)];
    assert!(evaluate_round(&players).is_none());
    let solo = vec![(Player::P1, true)];
    assert!(evaluate_round(&solo).is_none());
}

#[test]
fn last_player_standing_wins() {
    let players = vec![(Player::P1, false), (Player::P2, true), (Player::P3, false)];
    let out = evaluate_round(&players).unwrap();
    assert_eq!(out.winner, Some(Player::P2));
    assert_eq!(out.defeated, vec![Player::P1, Player::P3]);
}

#[test]
fn nobody_standing_means_no_winner() {
    let players = vec![(Player::P1, false), (Player::P2, false)];
    let out = evaluate_round(&players).unwrap();
    assert_eq!(out.winner, None);
    assert_eq!(out.defeated, vec![Player::P1, Player::P2]);
    let empty: Vec<(Player, bool)> = Vec::new();
    let out = evaluate_round(&empty).unwrap();
    assert_eq!(out.winner, None);
    assert!(out.defeated.is_empty());
    let solo_dead = vec![(Player::P4, false)];
    let out = evaluate_round(&solo_dead).unwrap();
    assert_eq!(out.winner, None);
    assert_eq!(out.defeated, vec![Player::P4]);
}

#[test]
fn score_counts_wins() {
    let mut score = ScoreTracker::new();
    score.record_round(Some(Player::P3));
    score.record_round(Some(Player::P3));
    score.record_round(None);
    score.record_round(Some(Player::P1));
    assert_eq!(score.wins, [1, 0, 2, 0, 0, 0, 0, 0]);
    score.reset();
    assert_eq!(score.wins, [0; 8]);
}

#[test]
fn card_choice_opens_for_the_defeated_in_order() {
    assert!(begin_card_selection(Vec::new(), [0, 1, 2, 3, 4]).is_none());
    let s = begin_card_selection(vec![Player::P2, Player::P4, Player::P1], [4, 3, 2, 1, 0]).unwrap();
    assert_eq!(s.selecting_player, Player::P2);
    assert_eq!(s.queue, vec![Player::P4, Player::P1]);
    assert_eq!(s.selected_idx, 2);
    assert_eq!(s.drawn_cards, [4, 3, 2, 1, 0]);
}

#[test]
fn confirm_applies_the_card_and_passes_on() {
    let mut stats = all_stats();
    let mut s = begin_card_selection(vec![Player::P2, Player::P3], [6, 2, 3, 7, 0]).unwrap();
    // P2 takes Toxic Spray (card 3, the middle one); P3 gets a new hand.
    assert!(s.confirm(&mut stats, [6, 0, 0, 0, 0]));
    assert_eq!(stats.players[1].cards, vec![3]);
    assert_eq!(stats.players[1].max_ammo, 7);
    assert_eq!(stats.players[1].special_effects, vec!["PoisonCloud".to_string()]);
    assert_eq!(s.selecting_player, Player::P3);
    assert!(s.queue.is_empty());
    assert_eq!(s.selected_idx, 2);
    assert_eq!(s.drawn_cards, [6, 0, 1, 2, 3]);
    // P3 moves to Bullet Hell (card 6, the first one of the new hand).
    s.select_left();
    s.select_left();
    assert!(!s.confirm(&mut stats, [0; 5]));
    assert_eq!(stats.players[2].cards, vec![6]);
    assert_eq!(stats.players[2].max_ammo, 10);
    assert_eq!(s.drawn_cards, [6, 0, 1, 2, 3]);
    assert_eq!(stats.players[0].cards, Vec::<usize>::new());
}

#[test]
fn selection_effect_records_unknown_cards_without_effect() {
    let mut s = base();
    apply_card_selection_effect(&mut s, 42);
    assert_eq!(s.cards, vec![42]);
    assert_eq!(s.max_ammo, 5);
    apply_card_selection_effect(&mut s, 2);
    assert_eq!(s.cards, vec![42, 2]);
    assert_eq!(s.max_ammo, 4);
}

#[test]
fn rebuilding_from_the_card_list_matches_picking() {
    let cards = vec![3, 6, 2, 7, 3, 11, 0];
    let mut picked = base();
    for &c in &cards {
        apply_card_selection_effect(&mut picked, c);
    }
    let mut rebuilt = base();
    rebuilt.cards = cards.clone();
    rebuilt.max_ammo = 99;
    rebuild_card_stats(&mut rebuilt, 5, 0, &Vec::new());
    assert_eq!(rebuilt.max_ammo, picked.max_ammo);
    assert_eq!(rebuilt.bounces, picked.bounces);
    assert_eq!(rebuilt.special_effects, picked.special_effects);
    assert_eq!(rebuilt.cards, picked.cards);
    // Toxic Spray (+2) -> 7, Bullet Hell (x2) -> 14, Hyper-Shot (-1) -> 13, Toxic Spray (+2) -> 15.
    assert_eq!(picked.max_ammo, 15);
    assert_eq!(picked.bounces, 3);
}

#[test]
fn titles_and_stat_colours() {
    assert_eq!(defeat_title(Player::P3), "P3 WAS DEFEATED - SELECT A CARD");
    assert!(is_buff_line("+30% Movement Speed"));
    assert!(is_buff_line("Adds Gravity Pull on Land"));
    assert!(is_buff_line("Now Adds"));
    assert!(!is_buff_line("-20% Max Health"));
    assert!(!is_buff_line("Add"));
    assert!(!is_buff_line(""));
    for i in 0..10 {
        let c = get_card(i).unwrap();
        for line in c.stat_lines() {
            assert_eq!(is_buff_line(line), !line.starts_with('-'));
        }
    }
    let _ = sets::cards::FastAndLight.name();
}

#[test]
fn local_step_prefers_right() {
    assert_eq!(local_card_step(0, true, true), 1);
    assert_eq!(local_card_step(0, true, false), -1);
    assert_eq!(local_card_step(0, false, false), 0);
    assert_eq!(local_card_step(1, true, false), -1);
    assert_eq!(local_card_step(-1, false, false), -1);
}

#[test]
fn local_card_input_moves_confirms_and_hands_over() {
    let mut stats = all_stats();
    let mut s = begin_card_selection(vec![Player::P1, Player::P2], [6, 2, 3, 7, 0]).unwrap();
    assert_eq!(s.card_selection_input(&mut stats, local_card_step(0, true, true), false, [0; 5]), CardInputOutcome::Choosing);
    assert_eq!(s.selected_idx, 3);
    assert_eq!(stats.players[0].cards, Vec::<usize>::new());
    // One step back to the left and P1 confirms the middle card, Toxic Spray.
    assert_eq!(s.card_selection_input(&mut stats, -1, true, [0, 0, 0, 4, 0]), CardInputOutcome::NextPlayer);
    assert_eq!(stats.players[0].cards, vec![3]);
    assert_eq!(s.selecting_player, Player::P2);
    assert_eq!(s.selected_idx, 2);
    // P2 chooses from a fresh hand, not from P1's.
    assert_eq!(s.drawn_cards, [0, 1, 2, 7, 3]);
    assert_eq!(s.card_selection_input(&mut stats, 1, true, [0; 5]), CardInputOutcome::BackToGameplay);
    assert_eq!(stats.players[1].cards, vec![7]);
    assert_eq!(stats.players[1].bounces, 3);
}

#[test]
fn host_confirm_returns_to_play_at_once() {
    let mut s = begin_card_selection(vec![Player::P2, Player::P1], [6, 2, 3, 7, 0]).unwrap();
    let mut p2 = base();
    // Left wins over right on the host.
    assert!(!host_card_step(&mut s, &mut p2, true, true, false));
    assert_eq!(s.selected_idx, 1);
    assert_eq!(p2.cards, Vec::<usize>::new());
    assert!(host_card_step(&mut s, &mut p2, true, false, true));
    assert_eq!(s.selected_idx, 0);
    assert_eq!(p2.cards, vec![6]);
    assert_eq!(p2.max_ammo, 10);
    // The queue is not consulted: the host's choice ends here.
    assert_eq!(s.selecting_player, Player::P2);
    assert_eq!(s.queue, vec![Player::P1]);
}

#[test]
fn round_end_credits_the_winner_and_opens_the_choice() {
    let mut score = ScoreTracker::new();
    let going_on = vec![(Player::P1, true), (Player::P2, true)];
    assert!(end_round(&going_on, &mut score, 3, [0; 5]).is_none());
    assert_eq!(score.wins, [0; 8]);

    let over = vec![(Player::P1, false), (Player::P2, true), (Player::P3, false)];
    let e = end_round(&over, &mut score, 4, [9, 0, 7, 0, 0]).unwrap();
    assert_eq!(e.winner, Some(Player::P2));
    assert_eq!(score.wins, [0, 1, 0, 0, 0, 0, 0, 0]);
    assert_eq!(e.map, ActiveMap::Gridlock);
    let sel = e.selection.unwrap();
    assert_eq!(sel.selecting_player, Player::P1);
    assert_eq!(sel.queue, vec![Player::P3]);
    assert_eq!(sel.drawn_cards, [9, 0, 8, 1, 2]);
    assert_eq!(sel.selected_idx, 2);
}

#[test]
fn round_end_without_defeated_resumes_play() {
    let mut score = ScoreTracker::new();
    let alone = vec![(Player::P1, false)];
    let e = end_round(&alone, &mut score, 13, [0; 5]).unwrap();
    assert_eq!(e.winner, None);
    assert_eq!(e.map, ActiveMap::AncientColiseum);
    assert!(e.selection.is_some());
    assert_eq!(score.wins, [0; 8]);
    let empty: Vec<(Player, bool)> = Vec::new();
    let e = end_round(&empty, &mut score, 0, [0; 5]).unwrap();
    assert!(e.selection.is_none());
    assert_eq!(e.map, ActiveMap::DefaultMap);
}

#[test]
fn card_widgets_show_a_label_and_one_line() {
    let (label, desc) = card_widget_texts(0).unwrap();
    assert_eq!(label, "Fa");
    assert!(!desc.contains('\n'));
    assert_eq!(desc, get_card(0).unwrap().desc().replace('\n', " "));
    for i in 0..10 {
        let (label, desc) = card_widget_texts(i).unwrap();
        let card = get_card(i).unwrap();
        assert_eq!(label, card.name().chars().take(2).collect::<String>());
        assert_eq!(desc, card.desc().replace('\n', " "));
    }
    assert!(card_widget_texts(10).is_none());
}
