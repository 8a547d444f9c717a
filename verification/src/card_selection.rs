use vstd::prelude::*;
use crate::cards::{
    PlayerStats, StatsView, CardKind, get_card, card_applicable, card_applied,
    spec_card_from_index, spec_card_name, spec_card_desc, TOTAL_CARDS_COUNT,
};
use crate::game::{Player, MAX_PLAYERS, spec_player_index};
use crate::text::spec_digit_char;
use crate::maps::{ActiveMap, spec_map_from_index};

verus! {

/// The number of cards drawn for a defeated player to choose from.
pub const HAND_SIZE: usize = 5;

/// The card highlighted when a hand is first shown: the middle one.
pub const MIDDLE_CARD: usize = 2;

/// The card choice in progress between rounds.
pub struct CardSelectionState {
    /// The highlighted card of the hand.
    pub selected_idx: usize,
    /// The defeated player who is choosing.
    pub selecting_player: Player,
    /// The numbers of the drawn cards.
    pub drawn_cards: [usize; 5],
    /// The defeated players who choose after this one, in order.
    pub queue: Vec<Player>,
}

/// The highlight after a step to the left: it wraps from the first card to the last.
pub open spec fn spec_select_left(i: int) -> int {
    if i == 0 { 4 } else { i - 1 }
}

/// The highlight after a step to the right: it wraps from the last card to the first.
pub open spec fn spec_select_right(i: int) -> int {
    (i + 1) % 5
}

/// The highlight after a navigation step: -1 moves left, any other nonzero step moves right,
/// 0 stays.
pub open spec fn spec_step_selection(i: int, step: i32) -> int {
    if step == 0 {
        i
    } else if step == -1 {
        spec_select_left(i)
    } else {
        spec_select_right(i)
    }
}

/// The card numbers still in the deck after the first `n` picks.
pub open spec fn deck_after(picks: Seq<usize>, n: nat) -> Seq<usize>
    decreases n,
{
    if n == 0 {
        Seq::new(TOTAL_CARDS_COUNT as nat, |i: int| i as usize)
    } else {
        deck_after(picks, (n - 1) as nat).remove(picks[n - 1] as int)
    }
}

/// Every pick lies inside the deck that is left when it is made.
pub open spec fn picks_in_range(picks: Seq<usize>) -> bool {
    &&& picks.len() == HAND_SIZE
    &&& forall|i: int| 0 <= i < HAND_SIZE ==> #[trigger] picks[i] < TOTAL_CARDS_COUNT - i
}

/// The hand drawn with the given picks: the `i`-th card is taken at position `picks[i]` of the
/// deck that the earlier draws left.
pub open spec fn spec_hand(picks: Seq<usize>) -> Seq<usize> {
    Seq::new(HAND_SIZE as nat, |i: int| deck_after(picks, i as nat)[picks[i] as int])
}

impl CardSelectionState {
    /// A new choice for `player` with the given hand, the middle card highlighted.
    pub fn new(player: Player, drawn_cards: [usize; 5], queue: Vec<Player>) -> (s: CardSelectionState)
        ensures
            s.selected_idx == MIDDLE_CARD,
            s.selecting_player == player,
            s.drawn_cards == drawn_cards,
            s.queue == queue,
    {
        CardSelectionState { selected_idx: MIDDLE_CARD, selecting_player: player, drawn_cards, queue }
    }

    /// Moves the highlight by a navigation step (-1 left, any other nonzero step right).
    pub fn step_selection(&mut self, step: i32)
        requires
            step != 0 && step != -1 ==> old(self).selected_idx < usize::MAX,
        ensures
            final(self).selected_idx == spec_step_selection(old(self).selected_idx as int, step),
            old(self).selected_idx < HAND_SIZE ==> final(self).selected_idx < HAND_SIZE,
            final(self).selecting_player == old(self).selecting_player,
            final(self).drawn_cards == old(self).drawn_cards,
            final(self).queue == old(self).queue,
    {
        if step != 0 {
            if step == -1 {
                self.selected_idx = if self.selected_idx == 0 { 4 } else { self.selected_idx - 1 };
            } else {
                self.selected_idx = (self.selected_idx + 1) % 5;
            }
        }
    }

    /// Moves the highlight one card to the left, wrapping around.
    pub fn select_left(&mut self)
        ensures
            final(self).selected_idx == spec_select_left(old(self).selected_idx as int),
            final(self).selecting_player == old(self).selecting_player,
            final(self).drawn_cards == old(self).drawn_cards,
            final(self).queue == old(self).queue,
    {
        self.step_selection(-1);
    }

    /// Moves the highlight one card to the right, wrapping around.
    pub fn select_right(&mut self)
        requires
            old(self).selected_idx < usize::MAX,
        ensures
            final(self).selected_idx == spec_select_right(old(self).selected_idx as int),
            final(self).selecting_player == old(self).selecting_player,
            final(self).drawn_cards == old(self).drawn_cards,
            final(self).queue == old(self).queue,
    {
        self.step_selection(1);
    }

    /// Moves the highlight as a remote player's packet asks: left wins over right.
    pub fn navigate(&mut self, left: bool, right: bool)
        requires
            !left && right ==> old(self).selected_idx < usize::MAX,
        ensures
            final(self).selected_idx == spec_navigate(old(self).selected_idx as int, left, right),
            final(self).selecting_player == old(self).selecting_player,
            final(self).drawn_cards == old(self).drawn_cards,
            final(self).queue == old(self).queue,
    {
        if left {
            self.select_left();
        } else if right {
            self.select_right();
        }
    }
}

/// A player's stats after picking card `c`: the number is recorded in the card list and, when it
/// names a card, that card is applied.
pub open spec fn card_pick(s: StatsView, c: usize) -> StatsView {
    let pushed = StatsView { cards: s.cards.push(c), ..s };
    if c < TOTAL_CARDS_COUNT { card_applied(spec_card_from_index(c as int), pushed) } else { pushed }
}

/// Whether picking card `c` keeps the player's whole-number stats within their ranges.
pub open spec fn card_pick_ok(s: StatsView, c: usize) -> bool {
    c < TOTAL_CARDS_COUNT ==> card_applicable(
        spec_card_from_index(c as int),
        StatsView { cards: s.cards.push(c), ..s },
    )
}

/// The highlight after a frame on the host: a left press wins over a right press.
pub open spec fn spec_navigate(i: int, left: bool, right: bool) -> int {
    if left {
        spec_select_left(i)
    } else if right {
        spec_select_right(i)
    } else {
        i
    }
}

/// The step a local player's presses make in one frame: a right press wins over a left press,
/// and either wins over the step of the gamepad stick.
pub open spec fn spec_local_step(stick_step: i32, left: bool, right: bool) -> i32 {
    if right {
        1i32
    } else if left {
        -1i32
    } else {
        stick_step
    }
}

/// The navigation step of a local player for one frame, from the left and right presses (arrow
/// keys, A/D or the D-pad) and the step that the gamepad stick gave (0 for a keyboard).
pub fn local_card_step(stick_step: i32, left: bool, right: bool) -> (step: i32)
    ensures
        step == spec_local_step(stick_step, left, right),
{
    let mut step = stick_step;
    if left {
        step = -1;
    }
    if right {
        step = 1;
    }
    step
}

/// Draws a hand of five different cards: the `i`-th card is removed from the remaining deck at
/// position `picks[i]`, the deck starting as all card numbers in order.
pub fn draw_hand(picks: [usize; 5]) -> (hand: [usize; 5])
    requires
        picks_in_range(picks@),
    ensures
        hand@ == spec_hand(picks@),
{
    let mut deck: Vec<usize> = Vec::new();
    let mut k: usize = 0;
    while k < TOTAL_CARDS_COUNT
        invariant
            k <= TOTAL_CARDS_COUNT,
            deck@ == Seq::new(k as nat, |i: int| i as usize),
        decreases TOTAL_CARDS_COUNT - k,
    {
        deck.push(k);
        assert(deck@ =~= Seq::new((k + 1) as nat, |i: int| i as usize));
        k = k + 1;
    }
    let mut hand: [usize; 5] = [0, 0, 0, 0, 0];
    let mut i: usize = 0;
    while i < HAND_SIZE
        invariant
            i <= HAND_SIZE,
            picks_in_range(picks@),
            deck@ == deck_after(picks@, i as nat),
            deck@.len() == TOTAL_CARDS_COUNT - i,
            forall|j: int| 0 <= j < i ==> hand@[j] == spec_hand(picks@)[j],
        decreases HAND_SIZE - i,
    {
        assert(picks@[i as int] < TOTAL_CARDS_COUNT - i);
        let card = deck.remove(picks[i]);
        hand[i] = card;
        i = i + 1;
    }
    assert(hand@ =~= spec_hand(picks@));
    hand
}

/// Records the chosen card for the player and applies it to the player's stats.
pub fn apply_card_selection_effect(p_stats: &mut PlayerStats, card_idx: usize)
    requires
        card_pick_ok(old(p_stats)@, card_idx),
    ensures
        final(p_stats)@ == card_pick(old(p_stats)@, card_idx),
{
    p_stats.cards.push(card_idx);
    proof {
        assert(p_stats@ == StatsView { cards: old(p_stats)@.cards.push(card_idx), ..old(p_stats)@ });
    }
    if let Some(card) = get_card(card_idx) {
        card.apply(p_stats);
    }
}

/// The card choices of all eight seats.
pub struct PersistentPlayerStats {
    pub players: [PlayerStats; 8],
}

/// Every player's count of won rounds.
pub struct ScoreTracker {
    pub wins: [u32; 8],
}

impl ScoreTracker {
    /// A score board with no rounds won.
    pub fn new() -> (t: ScoreTracker)
        ensures
            forall|i: int| 0 <= i < MAX_PLAYERS ==> t.wins@[i] == 0,
    {
        ScoreTracker { wins: [0, 0, 0, 0, 0, 0, 0, 0] }
    }

    /// Clears every count, as starting a new game from the lobby or the main menu does.
    pub fn reset(&mut self)
        ensures
            forall|i: int| 0 <= i < MAX_PLAYERS ==> final(self).wins@[i] == 0,
    {
        self.wins = [0, 0, 0, 0, 0, 0, 0, 0];
    }

    /// Credits the winner of a round, if the round had one.
    pub fn record_round(&mut self, winner: Option<Player>)
        requires
            winner matches Some(w) ==> old(self).wins@[spec_player_index(w)] < u32::MAX,
        ensures
            final(self).wins@ == (match winner {
                Some(w) => old(self).wins@.update(
                    spec_player_index(w),
                    (old(self).wins@[spec_player_index(w)] + 1) as u32,
                ),
                None => old(self).wins@,
            }),
    {
        if let Some(w) = winner {
            let i = w.index();
            self.wins[i] = self.wins[i] + 1;
        }
    }
}

/// The players still standing, in order.
pub open spec fn alive_players(ps: Seq<(Player, bool)>) -> Seq<Player>
    decreases ps.len(),
{
    if ps.len() == 0 {
        Seq::empty()
    } else if ps.last().1 {
        alive_players(ps.drop_last()).push(ps.last().0)
    } else {
        alive_players(ps.drop_last())
    }
}

/// The players other than the winner, in order.
pub open spec fn players_except(ps: Seq<(Player, bool)>, winner: Option<Player>) -> Seq<Player>
    decreases ps.len(),
{
    if ps.len() == 0 {
        Seq::empty()
    } else if Some(ps.last().0) != winner {
        players_except(ps.drop_last(), winner).push(ps.last().0)
    } else {
        players_except(ps.drop_last(), winner)
    }
}

/// Whether the round is over: with two or more players, when at most one still stands; with
/// fewer, when none does.
pub open spec fn round_over(ps: Seq<(Player, bool)>) -> bool {
    if ps.len() >= 2 {
        alive_players(ps).len() <= 1
    } else {
        alive_players(ps).len() == 0
    }
}

/// The winner of a finished round: the one player still standing, if exactly one is.
pub open spec fn round_winner(ps: Seq<(Player, bool)>) -> Option<Player> {
    if alive_players(ps).len() == 1 {
        Some(alive_players(ps)[0])
    } else {
        None
    }
}

/// How a finished round ended.
pub struct RoundOutcome {
    /// The one player left standing, if there is one.
    pub winner: Option<Player>,
    /// Every other player, in order; they choose cards in this order.
    pub defeated: Vec<Player>,
}

/// Decides whether the round is over from each player and whether their health is above zero.
/// Returns `None` while the round goes on.
pub fn evaluate_round(players: &Vec<(Player, bool)>) -> (r: Option<RoundOutcome>)
    ensures
        r is Some <==> round_over(players@),
        r matches Some(o) ==> o.winner == round_winner(players@) && o.defeated@ == players_except(
            players@,
            round_winner(players@),
        ),
{
    let mut alive: Vec<Player> = Vec::new();
    let mut i: usize = 0;
    while i < players.len()
        invariant
            i <= players@.len(),
            alive@ == alive_players(players@.take(i as int)),
        decreases players@.len() - i,
    {
        assert(players@.take(i + 1).drop_last() =~= players@.take(i as int));
        if players[i].1 {
            alive.push(players[i].0);
        }
        i = i + 1;
    }
    assert(players@.take(i as int) =~= players@);
    let over = if players.len() >= 2 { alive.len() <= 1 } else { alive.len() == 0 };
    if !over {
        return None;
    }
    let winner = if alive.len() == 1 { Some(alive[0]) } else { None };
    let mut defeated: Vec<Player> = Vec::new();
    let mut j: usize = 0;
    while j < players.len()
        invariant
            j <= players@.len(),
            winner == round_winner(players@),
            defeated@ == players_except(players@.take(j as int), winner),
        decreases players@.len() - j,
    {
        assert(players@.take(j + 1).drop_last() =~= players@.take(j as int));
        let p = players[j].0;
        let keep = match winner {
            Some(w) => p != w,
            None => true,
        };
        if keep {
            defeated.push(p);
        }
        j = j + 1;
    }
    assert(players@.take(j as int) =~= players@);
    Some(RoundOutcome { winner, defeated })
}

/// Opens the card choice for the defeated players: the first chooses from `hand`, the others
/// wait in order. With no defeated player there is nothing to choose and play resumes.
pub fn begin_card_selection(defeated: Vec<Player>, hand: [usize; 5]) -> (s: Option<CardSelectionState>)
    ensures
        s is Some <==> defeated@.len() > 0,
        s matches Some(st) ==> st.selecting_player == defeated@[0] && st.queue@ == defeated@.drop_first()
            && st.drawn_cards == hand && st.selected_idx == MIDDLE_CARD,
{
    let mut queue = defeated;
    if queue.len() == 0 {
        return None;
    }
    let first = queue.remove(0);
    Some(CardSelectionState::new(first, hand, queue))
}

impl CardSelectionState {
    /// The card the choosing player has highlighted.
    pub open spec fn chosen_card(&self) -> usize {
        self.drawn_cards@[self.selected_idx as int]
    }

    /// Confirms the highlighted card: it is recorded in the choosing player's stats and applied
    /// to them. Returns whether another defeated player is waiting; if so, that player now
    /// chooses, with the middle card highlighted, from a new hand drawn with `picks` (the deck
    /// positions drawn next; unused when no one is waiting).
    pub fn confirm(&mut self, stats: &mut PersistentPlayerStats, picks: [usize; 5]) -> (more: bool)
        requires
            old(self).selected_idx < HAND_SIZE,
            old(self).queue@.len() > 0 ==> picks_in_range(picks@),
            card_pick_ok(
                old(stats).players@[spec_player_index(old(self).selecting_player)]@,
                old(self).chosen_card(),
            ),
        ensures
            picked_by_chooser(*old(self), *old(stats), *final(stats)),
            handed_over(*old(self), *final(self), picks@),
            more == (old(self).queue@.len() > 0),
    {
        let p_idx = self.selecting_player.index();
        let card_idx = self.drawn_cards[self.selected_idx];
        apply_card_selection_effect(&mut stats.players[p_idx], card_idx);
        if self.queue.len() > 0 {
            let next = self.queue.remove(0);
            self.selecting_player = next;
            self.selected_idx = MIDDLE_CARD;
            self.drawn_cards = draw_hand(picks);
            true
        } else {
            false
        }
    }

    /// One frame of a local card choice: the highlight moves by the frame's step (see
    /// `local_card_step`), then a confirm picks the highlighted card for the choosing player.
    /// After a confirm the next queued player chooses from a new hand drawn with `picks` (the
    /// deck positions drawn next; unused otherwise), or, with no one queued, play resumes.
    pub fn card_selection_input(
        &mut self,
        stats: &mut PersistentPlayerStats,
        step: i32,
        confirm: bool,
        picks: [usize; 5],
    ) -> (outcome: CardInputOutcome)
        requires
            confirm && old(self).queue@.len() > 0 ==> picks_in_range(picks@),
            step != 0 && step != -1 ==> old(self).selected_idx < usize::MAX,
            confirm ==> spec_step_selection(old(self).selected_idx as int, step) < HAND_SIZE,
            confirm ==> card_pick_ok(
                old(stats).players@[spec_player_index(old(self).selecting_player)]@,
                old(self).drawn_cards@[spec_step_selection(old(self).selected_idx as int, step)],
            ),
        ensures
            ({
                let stepped = CardSelectionState {
                    selected_idx: spec_step_selection(old(self).selected_idx as int, step) as usize,
                    ..*old(self)
                };
                &&& !confirm ==> *final(self) == stepped && *final(stats) == *old(stats)
                    && outcome == CardInputOutcome::Choosing
                &&& confirm ==> picked_by_chooser(stepped, *old(stats), *final(stats))
                    && handed_over(stepped, *final(self), picks@)
                &&& confirm ==> outcome == (if old(self).queue@.len() > 0 {
                    CardInputOutcome::NextPlayer
                } else {
                    CardInputOutcome::BackToGameplay
                })
            }),
    {
        self.step_selection(step);
        if !confirm {
            return CardInputOutcome::Choosing;
        }
        if self.confirm(stats, picks) {
            CardInputOutcome::NextPlayer
        } else {
            CardInputOutcome::BackToGameplay
        }
    }
}

/// What a frame of a local card choice leads to.
#[derive(Clone, Copy, Debug, PartialEq, Eq, Structural)]
pub enum CardInputOutcome {
    /// No card was confirmed; the same player goes on choosing.
    Choosing,
    /// A card was confirmed and the next defeated player chooses from a new hand.
    NextPlayer,
    /// A card was confirmed by the last defeated player; play resumes.
    BackToGameplay,
}

/// What a confirmed choice does to the stats: the choosing player picks the highlighted card,
/// and every other player's stats stay as they were.
pub open spec fn picked_by_chooser(
    cs: CardSelectionState,
    before: PersistentPlayerStats,
    after: PersistentPlayerStats,
) -> bool {
    let p = spec_player_index(cs.selecting_player);
    &&& after.players@[p]@ == card_pick(before.players@[p]@, cs.chosen_card())
    &&& forall|k: int| 0 <= k < MAX_PLAYERS && k != p ==> after.players@[k] == before.players@[k]
}

/// The choice after a confirm: the first queued player now chooses, with the middle card
/// highlighted, from the new hand that `picks` draws; with no one queued the choice is left as
/// it was.
pub open spec fn handed_over(cs: CardSelectionState, next: CardSelectionState, picks: Seq<usize>) -> bool {
    if cs.queue@.len() > 0 {
        &&& next.selecting_player == cs.queue@[0]
        &&& next.queue@ == cs.queue@.drop_first()
        &&& next.selected_idx == MIDDLE_CARD
        &&& next.drawn_cards@ == spec_hand(picks)
    } else {
        &&& next.selecting_player == cs.selecting_player
        &&& next.queue@ == cs.queue@
        &&& next.selected_idx == cs.selected_idx
        &&& next.drawn_cards == cs.drawn_cards
    }
}

/// After a confirm hands the choice to the next defeated player, that player chooses from a
/// fresh hand of five different cards, each one of the cards of the game.
pub proof fn lemma_handover_deals_fresh_hand(
    cs: CardSelectionState,
    next: CardSelectionState,
    picks: Seq<usize>,
)
    requires
        cs.queue@.len() > 0,
        picks_in_range(picks),
        handed_over(cs, next, picks),
    ensures
        next.drawn_cards@ == spec_hand(picks),
        forall|i: int| 0 <= i < HAND_SIZE ==> #[trigger] next.drawn_cards@[i] < TOTAL_CARDS_COUNT,
        forall|i: int, j: int| 0 <= i < j < HAND_SIZE ==> next.drawn_cards@[i] != next.drawn_cards@[j],
{
    lemma_hand_distinct_cards(picks);
}

/// One frame of the card choice on the host of a network game, for the player who is choosing
/// (the host's own presses, or those of the client's packet): the highlight moves as `navigate`
/// moves it (left wins), and a confirm picks the highlighted card for that player and ends the
/// choice, play resuming at once. Returns whether play resumes.
pub fn host_card_step(
    cs: &mut CardSelectionState,
    stats: &mut PlayerStats,
    left: bool,
    right: bool,
    confirm: bool,
) -> (back_to_gameplay: bool)
    requires
        !left && right ==> old(cs).selected_idx < usize::MAX,
        confirm ==> spec_navigate(old(cs).selected_idx as int, left, right) < HAND_SIZE,
        confirm ==> card_pick_ok(
            old(stats)@,
            old(cs).drawn_cards@[spec_navigate(old(cs).selected_idx as int, left, right)],
        ),
    ensures
        final(cs).selected_idx == spec_navigate(old(cs).selected_idx as int, left, right),
        final(cs).selecting_player == old(cs).selecting_player,
        final(cs).drawn_cards == old(cs).drawn_cards,
        final(cs).queue == old(cs).queue,
        back_to_gameplay == confirm,
        confirm ==> final(stats)@ == card_pick(
            old(stats)@,
            old(cs).drawn_cards@[spec_navigate(old(cs).selected_idx as int, left, right)],
        ),
        !confirm ==> *final(stats) == *old(stats),
{
    cs.navigate(left, right);
    if confirm {
        let card_idx = cs.drawn_cards[cs.selected_idx];
        apply_card_selection_effect(stats, card_idx);
    }
    confirm
}

/// How a finished round goes on.
pub struct RoundEnd {
    /// The one player left standing, if there is one; their win is counted.
    pub winner: Option<Player>,
    /// The arena of the next round.
    pub map: ActiveMap,
    /// The card choice of the defeated players, or `None` when no one was defeated and play
    /// resumes at once.
    pub selection: Option<CardSelectionState>,
}

/// The end-of-round step, from each player and whether their health is above zero. While the
/// round goes on it returns `None` and changes nothing. Once it is over it credits the winner,
/// takes the next arena from `arena_draw` (the number drawn first), and, when some player was
/// defeated, opens the card choice with the hand that `picks` draws (the positions drawn next;
/// unused when no one was defeated).
pub fn end_round(players: &Vec<(Player, bool)>, score: &mut ScoreTracker, arena_draw: u32, picks: [usize; 5])
    -> (r: Option<RoundEnd>)
    requires
        round_over(players@) ==> (round_winner(players@) matches Some(w) ==> old(score).wins@[spec_player_index(w)] < u32::MAX),
        round_over(players@) && players_except(players@, round_winner(players@)).len() > 0 ==> picks_in_range(picks@),
    ensures
        r is Some <==> round_over(players@),
        r is None ==> final(score).wins@ == old(score).wins@,
        r matches Some(e) ==> {
            let defeated = players_except(players@, round_winner(players@));
            &&& e.winner == round_winner(players@)
            &&& final(score).wins@ == (match e.winner {
                Some(w) => old(score).wins@.update(
                    spec_player_index(w),
                    (old(score).wins@[spec_player_index(w)] + 1) as u32,
                ),
                None => old(score).wins@,
            })
            &&& e.map == spec_map_from_index(arena_draw as int)
            &&& (e.selection is Some <==> defeated.len() > 0)
            &&& (e.selection matches Some(st) ==> {
                &&& st.selecting_player == defeated[0]
                &&& st.queue@ == defeated.drop_first()
                &&& st.drawn_cards@ == spec_hand(picks@)
                &&& st.selected_idx == MIDDLE_CARD
            })
        },
{
    let outcome = evaluate_round(players);
    match outcome {
        None => None,
        Some(o) => {
            score.record_round(o.winner);
            let map = ActiveMap::from_index(arena_draw);
            let selection = if o.defeated.len() > 0 {
                let hand = draw_hand(picks);
                begin_card_selection(o.defeated, hand)
            } else {
                None
            };
            Some(RoundEnd { winner: o.winner, map, selection })
        },
    }
}

/// The stats after the listed cards are applied in order; numbers past the last card do nothing.
pub open spec fn apply_cards(s: StatsView, cards: Seq<usize>) -> StatsView
    decreases cards.len(),
{
    if cards.len() == 0 {
        s
    } else {
        let before = apply_cards(s, cards.drop_last());
        let c = cards.last();
        if c < TOTAL_CARDS_COUNT { card_applied(spec_card_from_index(c as int), before) } else { before }
    }
}

/// Whether each card of the list, applied in order, stays within the integer ranges.
pub open spec fn cards_applicable(s: StatsView, cards: Seq<usize>) -> bool
    decreases cards.len(),
{
    if cards.len() == 0 {
        true
    } else {
        let c = cards.last();
        cards_applicable(s, cards.drop_last()) && (c < TOTAL_CARDS_COUNT ==> card_applicable(
            spec_card_from_index(c as int),
            apply_cards(s, cards.drop_last()),
        ))
    }
}

/// The stats of a player whose card list is replaced by `cards`, rebuilt from the base stats:
/// every card of the list is applied again in order.
pub open spec fn spec_rebuilt(base: StatsView, cards: Seq<usize>) -> StatsView {
    apply_cards(with_cards(base, cards), cards)
}

/// Rebuilds the card-dependent stats of a player from the base stats of the settings: the magazine
/// size, bounces and special effects are reset and every card in the player's list is applied
/// again, in order. A client does this when the host's card lists differ from its own.
pub fn rebuild_card_stats(stats: &mut PlayerStats, base_max_ammo: u32, base_bounces: u32, base_effects: &Vec<String>)
    requires
        cards_applicable(
            StatsView {
                max_ammo: base_max_ammo,
                bounces: base_bounces,
                special_effects: base_effects@.map_values(|e: String| e@),
                cards: old(stats)@.cards,
            },
            old(stats)@.cards,
        ),
    ensures
        final(stats)@ == spec_rebuilt(
            StatsView {
                max_ammo: base_max_ammo,
                bounces: base_bounces,
                special_effects: base_effects@.map_values(|e: String| e@),
                cards: old(stats)@.cards,
            },
            old(stats)@.cards,
        ),
{
    stats.max_ammo = base_max_ammo;
    stats.bounces = base_bounces;
    stats.special_effects = clone_effects(base_effects);
    let ghost start = stats@;
    let cards = stats.cards.clone();
    assert(cards@ == start.cards);
    let mut i: usize = 0;
    while i < cards.len()
        invariant
            i <= cards@.len(),
            cards@ == start.cards,
            cards_applicable(start, cards@),
            stats@ == apply_cards(start, cards@.take(i as int)),
        decreases cards@.len() - i,
    {
        proof {
            assert(cards@.take(i + 1).drop_last() =~= cards@.take(i as int));
            lemma_cards_applicable_prefix(start, cards@, i + 1);
        }
        if let Some(card) = get_card(cards[i]) {
            card.apply(stats);
        }
        i = i + 1;
    }
    assert(cards@.take(i as int) =~= cards@);
}

fn clone_effects(effects: &Vec<String>) -> (r: Vec<String>)
    ensures
        r@.map_values(|e: String| e@) == effects@.map_values(|e: String| e@),
{
    let mut r: Vec<String> = Vec::new();
    let mut i: usize = 0;
    while i < effects.len()
        invariant
            i <= effects@.len(),
            r@.map_values(|e: String| e@) == effects@.take(i as int).map_values(|e: String| e@),
        decreases effects@.len() - i,
    {
        r.push(effects[i].clone());
        assert(effects@.take(i + 1).map_values(|e: String| e@) =~= effects@.take(i as int).map_values(|e: String| e@).push(effects@[i as int]@));
        assert(r@.map_values(|e: String| e@) =~= effects@.take(i + 1).map_values(|e: String| e@));
        i = i + 1;
    }
    assert(effects@.take(i as int) =~= effects@);
    r
}

/// A list that can be applied can be applied up to any point.
proof fn lemma_cards_applicable_prefix(s: StatsView, cards: Seq<usize>, n: int)
    requires
        cards_applicable(s, cards),
        0 <= n <= cards.len(),
    ensures
        cards_applicable(s, cards.take(n)),
    decreases cards.len(),
{
    if n < cards.len() {
        assert(cards.drop_last().take(n) =~= cards.take(n));
        lemma_cards_applicable_prefix(s, cards.drop_last(), n);
    } else {
        assert(cards.take(n) =~= cards);
    }
}

/// The stats after the listed cards are picked one after another, each recorded and applied as
/// a confirmed choice does.
pub open spec fn pick_cards(s: StatsView, cards: Seq<usize>) -> StatsView
    decreases cards.len(),
{
    if cards.len() == 0 {
        s
    } else {
        let before = pick_cards(s, cards.drop_last());
        let c = cards.last();
        let pushed = StatsView { cards: before.cards.push(c), ..before };
        if c < TOTAL_CARDS_COUNT { card_applied(spec_card_from_index(c as int), pushed) } else { pushed }
    }
}

/// The stats with the card list replaced.
pub open spec fn with_cards(s: StatsView, cards: Seq<usize>) -> StatsView {
    StatsView { cards: cards, ..s }
}

/// Applying a card neither reads nor changes the card list.
proof fn lemma_card_ignores_list(k: CardKind, s: StatsView, c: Seq<usize>)
    ensures
        card_applied(k, with_cards(s, c)) == with_cards(card_applied(k, s), c),
{
}

proof fn lemma_apply_cards_ignores_list(s: StatsView, cards: Seq<usize>, c: Seq<usize>)
    ensures
        apply_cards(with_cards(s, c), cards) == with_cards(apply_cards(s, cards), c),
    decreases cards.len(),
{
    if cards.len() > 0 {
        lemma_apply_cards_ignores_list(s, cards.drop_last(), c);
        let x = cards.last();
        if x < TOTAL_CARDS_COUNT {
            lemma_card_ignores_list(spec_card_from_index(x as int), apply_cards(s, cards.drop_last()), c);
        }
    }
}

/// A client that rebuilds a player's stats from the base stats and the host's card list ends
/// with the same stats as the host, which picked the same cards one at a time from the base.
pub proof fn lemma_rebuild_matches_picks(base: StatsView, cards: Seq<usize>)
    ensures
        pick_cards(with_cards(base, Seq::empty()), cards) == spec_rebuilt(base, cards),
{
    lemma_apply_cards_ignores_list(base, cards, cards);
    lemma_picks_list(base, cards);
}

proof fn lemma_picks_list(base: StatsView, cards: Seq<usize>)
    ensures
        pick_cards(with_cards(base, Seq::empty()), cards) == with_cards(apply_cards(base, cards), cards),
    decreases cards.len(),
{
    if cards.len() == 0 {
        assert(cards =~= Seq::<usize>::empty());
    } else {
        let init = cards.drop_last();
        lemma_picks_list(base, init);
        assert(init.push(cards.last()) =~= cards);
        let x = cards.last();
        if x < TOTAL_CARDS_COUNT {
            lemma_card_ignores_list(spec_card_from_index(x as int), apply_cards(base, init), cards);
        }
    }
}

/// The heading over a hand: the choosing player's label and the call to choose.
pub open spec fn spec_defeat_title(p: Player) -> Seq<char> {
    seq!['P', spec_digit_char(spec_player_index(p) + 1)] + " WAS DEFEATED - SELECT A CARD"@
}

/// The heading shown over the hand of the choosing player.
pub fn defeat_title(player: Player) -> (t: String)
    ensures
        t@ == spec_defeat_title(player),
{
    let mut t = String::new();
    t.append(player.label());
    t.append(" WAS DEFEATED - SELECT A CARD");
    t
}

/// Whether the text holds the word "Adds" somewhere.
pub open spec fn mentions_adds(line: Seq<char>) -> bool {
    exists|i: int| 0 <= i && i + 4 <= line.len() && #[trigger] line.subrange(i, i + 4) == "Adds"@
}

/// Whether a stat line reads as an improvement (drawn green): it starts with '+' or mentions
/// "Adds"; every other line is drawn red.
pub open spec fn spec_is_buff_line(line: Seq<char>) -> bool {
    (line.len() > 0 && line[0] == '+') || mentions_adds(line)
}

/// Classifies a stat line for its colour on the card.
pub fn is_buff_line(line: &str) -> (r: bool)
    ensures
        r == spec_is_buff_line(line@),
{
    proof {
        reveal_strlit("Adds");
    }
    let n = line.unicode_len();
    if n > 0 && line.get_char(0) == '+' {
        return true;
    }
    let mut i: usize = 0;
    while i < n && n - i >= 4
        invariant
            n == line@.len(),
            forall|j: int| 0 <= j < i && j + 4 <= n ==> #[trigger] line@.subrange(j, j + 4) != "Adds"@,
        decreases n - i,
    {
        proof {
            reveal_strlit("Adds");
        }
        if line.get_char(i) == 'A' && line.get_char(i + 1) == 'd' && line.get_char(i + 2) == 'd'
            && line.get_char(i + 3) == 's' {
            assert(line@.subrange(i as int, i + 4) =~= "Adds"@);
            return true;
        }
        assert(line@.subrange(i as int, i + 4) != "Adds"@) by {
            let w = line@.subrange(i as int, i + 4);
            if w == "Adds"@ {
                assert(w[0] == 'A' && w[1] == 'd' && w[2] == 'd' && w[3] == 's');
            }
        }
        i = i + 1;
    }
    assert(!mentions_adds(line@));
    false
}

/// The first two characters of a text, or all of it when it is shorter.
pub open spec fn first_two(s: Seq<char>) -> Seq<char> {
    if s.len() < 2 { s } else { s.take(2) }
}

/// A text on one line: every newline becomes a space.
pub open spec fn one_line(s: Seq<char>) -> Seq<char> {
    s.map_values(|c: char| if c == '\n' { ' ' } else { c })
}

fn one_line_text(s: &str) -> (r: String)
    ensures
        r@ == one_line(s@),
{
    proof {
        reveal_strlit(" ");
    }
    let n = s.unicode_len();
    let mut r = String::new();
    let mut i: usize = 0;
    while i < n
        invariant
            n == s@.len(),
            i <= n,
            r@ == one_line(s@.take(i as int)),
        decreases n - i,
    {
        proof {
            reveal_strlit(" ");
        }
        let c = s.get_char(i);
        if c == '\n' {
            r.append(" ");
        } else {
            r.append(s.substring_char(i, i + 1));
        }
        assert(one_line(s@.take(i + 1)) =~= one_line(s@.take(i as int)).push(if c == '\n' { ' ' } else { c }));
        assert(r@ =~= one_line(s@.take(i + 1)));
        i = i + 1;
    }
    assert(s@.take(n as int) =~= s@);
    r
}

/// The texts of a card in the list of picked cards: the two-character label on its square and
/// its description on one line. `None` for a number past the last card, which gets no square.
pub fn card_widget_texts(card_index: usize) -> (t: Option<(String, String)>)
    ensures
        t is Some <==> card_index < TOTAL_CARDS_COUNT,
        t matches Some((label, desc)) ==> {
            let k = spec_card_from_index(card_index as int);
            &&& label@ == first_two(spec_card_name(k))
            &&& desc@ == one_line(spec_card_desc(k))
        },
{
    match get_card(card_index) {
        None => None,
        Some(card) => {
            let name = card.name();
            let n = name.unicode_len();
            let k: usize = if n < 2 { n } else { 2 };
            let label = name.substring_char(0, k).to_owned();
            assert(label@ =~= first_two(name@));
            Some((label, one_line_text(card.desc())))
        },
    }
}

/// Stepping left and then right, or right and then left, comes back to the same card, and the
/// highlight never leaves the hand.
pub proof fn lemma_selection_steps_undo(i: int)
    requires
        0 <= i < HAND_SIZE,
    ensures
        spec_select_right(spec_select_left(i)) == i,
        spec_select_left(spec_select_right(i)) == i,
        0 <= spec_select_left(i) < HAND_SIZE,
        0 <= spec_select_right(i) < HAND_SIZE,
{
}

/// The deck left after `n` picks: it holds `10 - n` different card numbers, and none of the
/// cards drawn so far.
proof fn lemma_deck_after(picks: Seq<usize>, n: nat)
    requires
        picks_in_range(picks),
        n <= HAND_SIZE,
    ensures
        deck_after(picks, n).len() == TOTAL_CARDS_COUNT - n,
        forall|k: int| 0 <= k < deck_after(picks, n).len() ==> #[trigger] deck_after(picks, n)[k] < TOTAL_CARDS_COUNT,
        forall|a: int, b: int|
            0 <= a < b < deck_after(picks, n).len() ==> deck_after(picks, n)[a] != deck_after(picks, n)[b],
        forall|j: int| 0 <= j < n ==> !deck_after(picks, n).contains(#[trigger] spec_hand(picks)[j]),
    decreases n,
{
    if n > 0 {
        let m = (n - 1) as nat;
        lemma_deck_after(picks, m);
        let d = deck_after(picks, m);
        let p = picks[m as int] as int;
        assert(p < TOTAL_CARDS_COUNT - m);
        let e = d.remove(p);
        assert(e == deck_after(picks, n));
        assert(spec_hand(picks)[m as int] == d[p]);
        assert forall|x: usize| e.contains(x) implies d.contains(x) && x != d[p] by {
            let k = choose|k: int| 0 <= k < e.len() && e[k] == x;
            if k < p {
                assert(d[k] == x);
            } else {
                assert(d[k + 1] == x);
            }
        }
        assert forall|k: int| 0 <= k < e.len() implies #[trigger] e[k] < TOTAL_CARDS_COUNT by {
            if k < p {
                assert(e[k] == d[k]);
            } else {
                assert(e[k] == d[k + 1]);
            }
        }
        assert forall|j: int| 0 <= j < n implies !e.contains(#[trigger] spec_hand(picks)[j]) by {
            if j < m {
                assert(!d.contains(spec_hand(picks)[j]));
            }
        }
    } else {
        let d = deck_after(picks, 0);
        assert forall|a: int, b: int| 0 <= a < b < d.len() implies d[a] != d[b] by {
            assert(d[a] == a as usize);
            assert(d[b] == b as usize);
        }
    }
}

/// A drawn hand holds five different cards, each one of the cards of the game.
pub proof fn lemma_hand_distinct_cards(picks: Seq<usize>)
    requires
        picks_in_range(picks),
    ensures
        forall|i: int| 0 <= i < HAND_SIZE ==> #[trigger] spec_hand(picks)[i] < TOTAL_CARDS_COUNT,
        forall|i: int, j: int| 0 <= i < j < HAND_SIZE ==> spec_hand(picks)[i] != spec_hand(picks)[j],
{
    assert forall|i: int| 0 <= i < HAND_SIZE implies #[trigger] spec_hand(picks)[i] < TOTAL_CARDS_COUNT by {
        lemma_deck_after(picks, i as nat);
        assert(picks[i] < TOTAL_CARDS_COUNT - i);
    }
    assert forall|i: int, j: int| 0 <= i < j < HAND_SIZE implies spec_hand(picks)[i] != spec_hand(picks)[j] by {
        lemma_deck_after(picks, j as nat);
        assert(picks[j] < TOTAL_CARDS_COUNT - j);
        let d = deck_after(picks, j as nat);
        assert(d.contains(spec_hand(picks)[j])) by {
            assert(d[picks[j] as int] == spec_hand(picks)[j]);
        }
    }
}

/// A player stands in the list of those still standing exactly when some entry shows them alive.
pub proof fn lemma_alive_players_members(ps: Seq<(Player, bool)>, p: Player)
    ensures
        alive_players(ps).contains(p) <==> exists|i: int| 0 <= i < ps.len() && ps[i] == (p, true),
    decreases ps.len(),
{
    if ps.len() > 0 {
        let init = ps.drop_last();
        let a = alive_players(init);
        let b = alive_players(ps);
        lemma_alive_players_members(init, p);
        assert(forall|x: Player| a.contains(x) ==> b.contains(x)) by {
            assert forall|x: Player| a.contains(x) implies b.contains(x) by {
                let k = choose|k: int| 0 <= k < a.len() && a[k] == x;
                if ps.last().1 {
                    assert(b[k] == x);
                }
            }
        }
        if exists|i: int| 0 <= i < ps.len() && ps[i] == (p, true) {
            let i = choose|i: int| 0 <= i < ps.len() && ps[i] == (p, true);
            if i < ps.len() - 1 {
                assert(init[i] == (p, true));
                assert(a.contains(p));
            } else {
                assert(b == a.push(p));
                assert(b[a.len() as int] == p);
            }
        }
        if b.contains(p) {
            if ps.last().1 && ps.last().0 == p {
                assert(ps[ps.len() - 1] == (p, true));
            } else {
                assert(b == a || (ps.last().1 && b == a.push(ps.last().0)));
                let k = choose|k: int| 0 <= k < b.len() && b[k] == p;
                if ps.last().1 {
                    assert(k < a.len());
                }
                assert(a[k] == p);
                assert(a.contains(p));
                let i = choose|i: int| 0 <= i < init.len() && init[i] == (p, true);
                assert(ps[i] == (p, true));
            }
        }
    }
}

/// The defeated players are exactly the players of the round other than the winner.
pub proof fn lemma_defeated_members(ps: Seq<(Player, bool)>, winner: Option<Player>, p: Player)
    ensures
        players_except(ps, winner).contains(p) <==> (Some(p) != winner && exists|i: int|
            0 <= i < ps.len() && ps[i].0 == p),
    decreases ps.len(),
{
    if ps.len() > 0 {
        let init = ps.drop_last();
        let a = players_except(init, winner);
        let b = players_except(ps, winner);
        lemma_defeated_members(init, winner, p);
        assert(forall|x: Player| a.contains(x) ==> b.contains(x)) by {
            assert forall|x: Player| a.contains(x) implies b.contains(x) by {
                let k = choose|k: int| 0 <= k < a.len() && a[k] == x;
                if Some(ps.last().0) != winner {
                    assert(b[k] == x);
                }
            }
        }
        if Some(p) != winner && exists|i: int| 0 <= i < ps.len() && ps[i].0 == p {
            let i = choose|i: int| 0 <= i < ps.len() && ps[i].0 == p;
            if i < ps.len() - 1 {
                assert(init[i].0 == p);
                assert(a.contains(p));
            } else {
                assert(b == a.push(p));
                assert(b[a.len() as int] == p);
            }
        }
        if b.contains(p) {
            if Some(ps.last().0) != winner && ps.last().0 == p {
                assert(ps[ps.len() - 1].0 == p);
            } else {
                let k = choose|k: int| 0 <= k < b.len() && b[k] == p;
                if Some(ps.last().0) != winner {
                    assert(b == a.push(ps.last().0));
                    assert(k < a.len());
                }
                assert(a[k] == p);
                assert(a.contains(p));
                let i = choose|i: int| 0 <= i < init.len() && init[i].0 == p;
                assert(ps[i].0 == p);
            }
        }
    }
}

/// The winner of a round is a player who is still standing, and every other player of the round
/// is among the defeated, who then choose cards.
pub proof fn lemma_round_winner_and_defeated(ps: Seq<(Player, bool)>, p: Player)
    ensures
        round_winner(ps) == Some(p) ==> exists|i: int| 0 <= i < ps.len() && ps[i] == (p, true),
        round_winner(ps) == Some(p) ==> !players_except(ps, round_winner(ps)).contains(p),
        (Some(p) != round_winner(ps) && exists|i: int| 0 <= i < ps.len() && ps[i].0 == p)
            ==> players_except(ps, round_winner(ps)).contains(p),
{
    lemma_defeated_members(ps, round_winner(ps), p);
    if round_winner(ps) == Some(p) {
        assert(alive_players(ps)[0] == p);
        assert(alive_players(ps).contains(p));
        lemma_alive_players_members(ps, p);
    }
}

/// With every entry dead, nobody stands.
proof fn lemma_none_alive(ps: Seq<(Player, bool)>)
    requires
        forall|j: int| 0 <= j < ps.len() ==> !(#[trigger] ps[j]).1,
    ensures
        alive_players(ps) == Seq::<Player>::empty(),
    decreases ps.len(),
{
    if ps.len() > 0 {
        let init = ps.drop_last();
        assert forall|j: int| 0 <= j < init.len() implies !(#[trigger] init[j]).1 by {
            assert(init[j] == ps[j]);
        }
        lemma_none_alive(init);
        assert(!ps[ps.len() - 1].1);
    }
}

/// With at most entry `i` alive, the players standing are that entry's player, if alive.
proof fn lemma_only_entry_alive(ps: Seq<(Player, bool)>, i: int)
    requires
        0 <= i < ps.len(),
        forall|j: int| 0 <= j < ps.len() && j != i ==> !(#[trigger] ps[j]).1,
    ensures
        alive_players(ps) == (if ps[i].1 { seq![ps[i].0] } else { Seq::<Player>::empty() }),
    decreases ps.len(),
{
    let init = ps.drop_last();
    if i == ps.len() - 1 {
        assert forall|j: int| 0 <= j < init.len() implies !(#[trigger] init[j]).1 by {
            assert(init[j] == ps[j]);
        }
        lemma_none_alive(init);
        assert(Seq::<Player>::empty().push(ps[i].0) =~= seq![ps[i].0]);
    } else {
        assert forall|j: int| 0 <= j < init.len() && j != i implies !(#[trigger] init[j]).1 by {
            assert(init[j] == ps[j]);
        }
        lemma_only_entry_alive(init, i);
        assert(init[i] == ps[i]);
        assert(!ps[ps.len() - 1].1);
    }
}

/// With two entries alive, at least two players stand.
proof fn lemma_two_entries_alive(ps: Seq<(Player, bool)>, i: int, j: int)
    requires
        0 <= i < j < ps.len(),
        ps[i].1,
        ps[j].1,
    ensures
        alive_players(ps).len() >= 2,
    decreases ps.len(),
{
    let init = ps.drop_last();
    if j == ps.len() - 1 {
        lemma_alive_players_members(init, ps[i].0);
        assert(init[i] == ps[i]);
        assert(init[i] == (ps[i].0, true));
        assert(alive_players(init).contains(ps[i].0));
        assert(alive_players(init).len() >= 1);
    } else {
        assert(init[i] == ps[i] && init[j] == ps[j]);
        lemma_two_entries_alive(init, i, j);
    }
}

/// A round of two or more players is over as soon as at most one of them stands: when exactly
/// one stands, that player wins; when nobody does, nobody wins.
pub proof fn lemma_round_over_when_at_most_one_stands(ps: Seq<(Player, bool)>, i: int)
    requires
        ps.len() >= 2,
        0 <= i < ps.len(),
        forall|j: int| 0 <= j < ps.len() && j != i ==> !(#[trigger] ps[j]).1,
    ensures
        round_over(ps),
        ps[i].1 ==> round_winner(ps) == Some(ps[i].0),
        !ps[i].1 ==> round_winner(ps) is None,
{
    lemma_only_entry_alive(ps, i);
}

/// A round goes on while two of its players stand.
pub proof fn lemma_round_goes_on_while_two_stand(ps: Seq<(Player, bool)>, i: int, j: int)
    requires
        0 <= i < j < ps.len(),
        ps[i].1,
        ps[j].1,
    ensures
        !round_over(ps),
{
    lemma_two_entries_alive(ps, i, j);
}

/// A round of fewer than two players is over exactly when nobody stands: at once with no
/// player, and with one player once that player falls.
pub proof fn lemma_small_round_over(ps: Seq<(Player, bool)>)
    requires
        ps.len() < 2,
    ensures
        ps.len() == 0 ==> round_over(ps) && round_winner(ps) is None,
        ps.len() == 1 ==> (round_over(ps) <==> !ps[0].1),
{
    if ps.len() == 1 {
        lemma_only_entry_alive(ps, 0);
    }
}

/// The players of a round in order.
pub open spec fn round_players(ps: Seq<(Player, bool)>) -> Seq<Player> {
    ps.map_values(|e: (Player, bool)| e.0)
}

/// The defeated keep the order of the round's list: with no winner every player of the round is
/// defeated, in order; with the winner at entry `i` (and every player listed once) the defeated
/// are the players before it followed by the players after it.
pub proof fn lemma_defeated_in_order(ps: Seq<(Player, bool)>, i: int)
    ensures
        players_except(ps, None) == round_players(ps),
        0 <= i < ps.len() && (forall|x: int, y: int| 0 <= x < y < ps.len() ==> ps[x].0 != ps[y].0)
            ==> players_except(ps, Some(ps[i].0)) == round_players(ps.take(i)) + round_players(ps.skip(i + 1)),
    decreases ps.len(),
{
    if ps.len() > 0 {
        let init = ps.drop_last();
        lemma_defeated_in_order(init, i);
        assert(round_players(ps) =~= round_players(init).push(ps.last().0));
        if 0 <= i < ps.len() && (forall|x: int, y: int| 0 <= x < y < ps.len() ==> ps[x].0 != ps[y].0) {
            if i == ps.len() - 1 {
                lemma_defeated_none_is_all_but(init, ps[i].0);
                assert(ps.take(i) =~= init);
                assert(ps.skip(i + 1) =~= Seq::<(Player, bool)>::empty());
                assert(round_players(ps.skip(i + 1)) =~= Seq::<Player>::empty());
                assert(round_players(ps.take(i)) + round_players(ps.skip(i + 1)) =~= round_players(init));
            } else {
                assert(forall|x: int, y: int| 0 <= x < y < init.len() ==> init[x].0 != init[y].0) by {
                    assert forall|x: int, y: int| 0 <= x < y < init.len() implies #[trigger] init[x].0 != #[trigger] init[y].0 by {
                        assert(init[x] == ps[x] && init[y] == ps[y]);
                    }
                }
                assert(init[i] == ps[i]);
                assert(ps.last().0 != ps[i].0);
                assert(ps.take(i) =~= init.take(i));
                assert(ps.skip(i + 1) =~= init.skip(i + 1).push(ps.last()));
                assert(round_players(init.skip(i + 1).push(ps.last())) =~= round_players(init.skip(i + 1)).push(ps.last().0));
                assert(round_players(ps.take(i)) + round_players(ps.skip(i + 1)) =~= (round_players(init.take(i))
                    + round_players(init.skip(i + 1))).push(ps.last().0));
            }
        }
    }
}

/// When a player is not listed, taking them out leaves every player of the list, in order.
proof fn lemma_defeated_none_is_all_but(ps: Seq<(Player, bool)>, w: Player)
    requires
        forall|x: int| 0 <= x < ps.len() ==> (#[trigger] ps[x]).0 != w,
    ensures
        players_except(ps, Some(w)) == round_players(ps),
    decreases ps.len(),
{
    if ps.len() > 0 {
        let init = ps.drop_last();
        assert forall|x: int| 0 <= x < init.len() implies (#[trigger] init[x]).0 != w by {
            assert(init[x] == ps[x]);
        }
        lemma_defeated_none_is_all_but(init, w);
        assert(round_players(ps) =~= round_players(init).push(ps.last().0));
    }
}

} // verus!
