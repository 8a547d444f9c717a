use vstd::prelude::*;
use crate::game::{GameState, MAX_PLAYERS};
use crate::text::{decimal_string, spec_decimal};

verus! {

/// A gamepad, known by the index and generation of the engine entity that stands for it.
#[derive(Clone, Copy, Debug, PartialEq, Eq, Structural)]
pub struct GamepadId {
    pub index: u32,
    pub generation: u32,
}

/// The controller a seated player plays with.
#[derive(Clone, Copy, Debug, PartialEq, Eq, Structural)]
pub enum InputDevice {
    KeyboardMouse,
    Gamepad(GamepadId),
}

/// The eight seats of the lobby, each empty or held by one controller.
pub struct LobbySlots {
    pub slots: [Option<InputDevice>; 8],
}

/// The presses that the lobby reacts to in one frame, gamepads listed in the order the engine reports them.
pub struct LobbyInput {
    /// Space or Enter was pressed.
    pub keyboard_join: bool,
    /// Backspace was pressed.
    pub keyboard_leave: bool,
    /// Escape was pressed.
    pub escape: bool,
    /// The gamepads whose South button was pressed.
    pub gamepad_joins: Vec<GamepadId>,
    /// The gamepads whose East button was pressed.
    pub gamepad_leaves: Vec<GamepadId>,
}

/// Whether the device holds a seat.
pub open spec fn seated(s: Seq<Option<InputDevice>>, dev: InputDevice) -> bool {
    exists|i: int| 0 <= i < s.len() && s[i] == Some(dev)
}

/// Whether some seat is empty.
pub open spec fn has_free(s: Seq<Option<InputDevice>>) -> bool {
    exists|i: int| 0 <= i < s.len() && s[i] is None
}

/// `k` is the first empty seat.
pub open spec fn first_free_at(s: Seq<Option<InputDevice>>, k: int) -> bool {
    &&& 0 <= k < s.len()
    &&& s[k] is None
    &&& forall|j: int| 0 <= j < k ==> s[j] is Some
}

/// The first empty seat, where there is one.
pub open spec fn first_free(s: Seq<Option<InputDevice>>) -> int {
    choose|k: int| first_free_at(s, k)
}

/// The seats after a local join: a device that already sits keeps its seat, else it takes the
/// first empty seat if there is one.
pub open spec fn join_result(old: Seq<Option<InputDevice>>, dev: InputDevice) -> Seq<Option<InputDevice>> {
    if seated(old, dev) || !has_free(old) {
        old
    } else {
        old.update(first_free(old), Some(dev))
    }
}

/// The seats after a device leaves: every seat it held is emptied.
pub open spec fn leave_result(old: Seq<Option<InputDevice>>, dev: InputDevice) -> Seq<Option<InputDevice>> {
    old.map_values(|s: Option<InputDevice>| if s == Some(dev) { None } else { s })
}

/// No controller holds two seats.
pub open spec fn no_duplicates(s: Seq<Option<InputDevice>>) -> bool {
    forall|i: int, j: int|
        0 <= i < s.len() && 0 <= j < s.len() && i != j && s[i] is Some ==> s[i] != s[j]
}

/// The number of occupied seats among the first `n`.
pub open spec fn count_occupied(s: Seq<Option<InputDevice>>, n: int) -> nat
    decreases n,
{
    if n <= 0 {
        0
    } else {
        count_occupied(s, n - 1) + if s[n - 1] is Some { 1nat } else { 0nat }
    }
}

/// The seats after the listed gamepads join one after another.
pub open spec fn join_all(s: Seq<Option<InputDevice>>, pads: Seq<GamepadId>) -> Seq<Option<InputDevice>>
    decreases pads.len(),
{
    if pads.len() == 0 {
        s
    } else {
        join_result(join_all(s, pads.drop_last()), InputDevice::Gamepad(pads.last()))
    }
}

/// The seats after the listed gamepads leave one after another.
pub open spec fn leave_all(s: Seq<Option<InputDevice>>, pads: Seq<GamepadId>) -> Seq<Option<InputDevice>>
    decreases pads.len(),
{
    if pads.len() == 0 {
        s
    } else {
        leave_result(leave_all(s, pads.drop_last()), InputDevice::Gamepad(pads.last()))
    }
}

/// The seats after one frame of the local lobby: keyboard join, gamepad joins, keyboard leave,
/// gamepad leaves, in that order.
pub open spec fn local_step(s: Seq<Option<InputDevice>>, input: LobbyInput) -> Seq<Option<InputDevice>> {
    let a = if input.keyboard_join { join_result(s, InputDevice::KeyboardMouse) } else { s };
    let b = join_all(a, input.gamepad_joins@);
    let c = if input.keyboard_leave { leave_result(b, InputDevice::KeyboardMouse) } else { b };
    leave_all(c, input.gamepad_leaves@)
}

/// The seat of the local player after the online lobby takes a device: only an empty seat is taken.
pub open spec fn claim(seat: Option<InputDevice>, dev: InputDevice) -> Option<InputDevice> {
    if seat is None { Some(dev) } else { seat }
}

/// The seat of the local player after the listed gamepads press join.
pub open spec fn claim_all(seat: Option<InputDevice>, pads: Seq<GamepadId>) -> Option<InputDevice>
    decreases pads.len(),
{
    if pads.len() == 0 {
        seat
    } else {
        claim(claim_all(seat, pads.drop_last()), InputDevice::Gamepad(pads.last()))
    }
}

/// The seat of the local player after the listed gamepads press leave: a gamepad frees only its own seat.
pub open spec fn release_all(seat: Option<InputDevice>, pads: Seq<GamepadId>) -> Option<InputDevice>
    decreases pads.len(),
{
    if pads.len() == 0 {
        seat
    } else {
        let before = release_all(seat, pads.drop_last());
        if before == Some(InputDevice::Gamepad(pads.last())) { None } else { before }
    }
}

/// The seat of the local player after one frame of the online lobby.
pub open spec fn online_step(seat: Option<InputDevice>, input: LobbyInput) -> Option<InputDevice> {
    let a = if input.keyboard_join { claim(seat, InputDevice::KeyboardMouse) } else { seat };
    let b = claim_all(a, input.gamepad_joins@);
    let c = if input.keyboard_leave { None::<InputDevice> } else { b };
    release_all(c, input.gamepad_leaves@)
}

/// The occupied seats among the first `n`, in seat order.
pub open spec fn occupied_indices(s: Seq<Option<InputDevice>>, n: int) -> Seq<usize>
    decreases n,
{
    if n <= 0 {
        Seq::empty()
    } else if s[n - 1] is Some {
        occupied_indices(s, n - 1).push((n - 1) as usize)
    } else {
        occupied_indices(s, n - 1)
    }
}

/// The status line of a seat card: the player's label, then whether and with what the seat is taken.
pub open spec fn spec_status_text(idx: nat, seat: Option<InputDevice>) -> Seq<char> {
    let label = seq!['P'] + spec_decimal(idx + 1);
    match seat {
        Some(InputDevice::KeyboardMouse) => label + " ACTIVE (KB/M)"@,
        Some(InputDevice::Gamepad(g)) => label + " ACTIVE (GP"@ + spec_decimal(g.index as nat) + ")"@,
        None => label + " INACTIVE"@,
    }
}

fn same_device(a: &Option<InputDevice>, dev: InputDevice) -> (r: bool)
    ensures
        r == (*a == Some(dev)),
{
    match a {
        Some(InputDevice::KeyboardMouse) => match dev {
            InputDevice::KeyboardMouse => true,
            InputDevice::Gamepad(_) => false,
        },
        Some(InputDevice::Gamepad(x)) => match dev {
            InputDevice::KeyboardMouse => false,
            InputDevice::Gamepad(y) => x.index == y.index && x.generation == y.generation,
        },
        None => false,
    }
}

impl LobbySlots {
    /// A lobby with every seat empty.
    pub fn new() -> (l: LobbySlots)
        ensures
            forall|i: int| 0 <= i < MAX_PLAYERS ==> l.slots@[i] is None,
    {
        LobbySlots { slots: [None, None, None, None, None, None, None, None] }
    }

    /// Whether the device holds a seat.
    pub fn is_seated(&self, dev: InputDevice) -> (r: bool)
        ensures
            r == seated(self.slots@, dev),
    {
        let mut i: usize = 0;
        while i < 8
            invariant
                i <= 8,
                forall|j: int| 0 <= j < i ==> self.slots@[j] != Some(dev),
            decreases 8 - i,
        {
            if same_device(&self.slots[i], dev) {
                return true;
            }
            i = i + 1;
        }
        false
    }

    /// Seats the device in the first empty seat, unless it already sits or the lobby is full.
    pub fn join(&mut self, dev: InputDevice)
        ensures
            final(self).slots@ == join_result(old(self).slots@, dev),
            seated(final(self).slots@, dev) <==> (seated(old(self).slots@, dev) || has_free(old(self).slots@)),
    {
        if self.is_seated(dev) {
            return;
        }
        let mut i: usize = 0;
        while i < 8
            invariant
                i <= 8,
                self.slots@ == old(self).slots@,
                !seated(old(self).slots@, dev),
                forall|j: int| 0 <= j < i ==> self.slots@[j] is Some,
            decreases 8 - i,
        {
            if self.slots[i].is_none() {
                let ghost before = self.slots@;
                self.slots[i] = Some(dev);
                assert(first_free_at(before, i as int));
                assert(first_free(before) == i) by {
                    let k = first_free(before);
                    assert(first_free_at(before, k));
                    if k < i {
                        assert(before[k] is Some);
                    } else if k > i {
                        assert(before[i as int] is Some);
                    }
                }
                assert(seated(self.slots@, dev)) by {
                    assert(self.slots@[i as int] == Some(dev));
                }
                assert(has_free(before)) by {
                    assert(before[i as int] is None);
                }
                return;
            }
            i = i + 1;
        }
        assert(!has_free(old(self).slots@));
    }

    /// Empties every seat that the device holds.
    pub fn leave(&mut self, dev: InputDevice)
        ensures
            final(self).slots@ == leave_result(old(self).slots@, dev),
            !seated(final(self).slots@, dev),
    {
        let mut i: usize = 0;
        while i < 8
            invariant
                i <= 8,
                self.slots@.len() == 8,
                forall|j: int| 0 <= j < i ==> self.slots@[j] == (if old(self).slots@[j] == Some(dev) { None } else { old(self).slots@[j] }),
                forall|j: int| i <= j < 8 ==> self.slots@[j] == old(self).slots@[j],
            decreases 8 - i,
        {
            if same_device(&self.slots[i], dev) {
                self.slots[i] = None;
            }
            i = i + 1;
        }
        assert(self.slots@ =~= leave_result(old(self).slots@, dev));
    }

    /// Whether every seat is empty.
    pub fn is_empty(&self) -> (r: bool)
        ensures
            r == (forall|i: int| 0 <= i < MAX_PLAYERS ==> self.slots@[i] is None),
    {
        let mut i: usize = 0;
        while i < 8
            invariant
                i <= 8,
                forall|j: int| 0 <= j < i ==> self.slots@[j] is None,
            decreases 8 - i,
        {
            if self.slots[i].is_some() {
                return false;
            }
            i = i + 1;
        }
        true
    }

    /// The number of occupied seats.
    pub fn active_count(&self) -> (n: usize)
        ensures
            n == count_occupied(self.slots@, 8),
            n <= 8,
    {
        let mut n: usize = 0;
        let mut i: usize = 0;
        while i < 8
            invariant
                i <= 8,
                n == count_occupied(self.slots@, i as int),
                n <= i,
            decreases 8 - i,
        {
            if self.slots[i].is_some() {
                n = n + 1;
            }
            i = i + 1;
        }
        n
    }

    /// One frame of the local lobby. Returns whether the game goes back to the main menu, which
    /// happens when the lobby is empty after the frame and Escape or some gamepad's East was pressed.
    pub fn handle_local_input(&mut self, input: &LobbyInput) -> (back_to_menu: bool)
        ensures
            final(self).slots@ == local_step(old(self).slots@, *input),
            back_to_menu == ((forall|i: int| 0 <= i < MAX_PLAYERS ==> final(self).slots@[i] is None)
                && (input.escape || input.gamepad_leaves@.len() > 0)),
    {
        if input.keyboard_join {
            self.join(InputDevice::KeyboardMouse);
        }
        let ghost after_kb = self.slots@;
        let mut i: usize = 0;
        while i < input.gamepad_joins.len()
            invariant
                i <= input.gamepad_joins@.len(),
                self.slots@ == join_all(after_kb, input.gamepad_joins@.take(i as int)),
            decreases input.gamepad_joins@.len() - i,
        {
            self.join(InputDevice::Gamepad(input.gamepad_joins[i]));
            assert(input.gamepad_joins@.take(i + 1).drop_last() =~= input.gamepad_joins@.take(i as int));
            i = i + 1;
        }
        assert(input.gamepad_joins@.take(i as int) =~= input.gamepad_joins@);
        if input.keyboard_leave {
            self.leave(InputDevice::KeyboardMouse);
        }
        let ghost after_leave = self.slots@;
        let mut j: usize = 0;
        while j < input.gamepad_leaves.len()
            invariant
                j <= input.gamepad_leaves@.len(),
                self.slots@ == leave_all(after_leave, input.gamepad_leaves@.take(j as int)),
            decreases input.gamepad_leaves@.len() - j,
        {
            self.leave(InputDevice::Gamepad(input.gamepad_leaves[j]));
            assert(input.gamepad_leaves@.take(j + 1).drop_last() =~= input.gamepad_leaves@.take(j as int));
            j = j + 1;
        }
        assert(input.gamepad_leaves@.take(j as int) =~= input.gamepad_leaves@);
        let empty = self.is_empty();
        empty && (input.escape || input.gamepad_leaves.len() > 0)
    }

    /// One frame of the online lobby, where only the local player's seat can change. Returns
    /// whether Escape asks to go back to the main menu.
    pub fn handle_online_input(&mut self, local_idx: usize, input: &LobbyInput) -> (back_to_menu: bool)
        requires
            local_idx < MAX_PLAYERS,
        ensures
            final(self).slots@ == old(self).slots@.update(
                local_idx as int,
                online_step(old(self).slots@[local_idx as int], *input),
            ),
            back_to_menu == input.escape,
    {
        let ghost start = self.slots@[local_idx as int];
        if input.keyboard_join && self.slots[local_idx].is_none() {
            self.slots[local_idx] = Some(InputDevice::KeyboardMouse);
        }
        let ghost after_kb = self.slots@[local_idx as int];
        let mut i: usize = 0;
        while i < input.gamepad_joins.len()
            invariant
                local_idx < MAX_PLAYERS,
                i <= input.gamepad_joins@.len(),
                self.slots@[local_idx as int] == claim_all(after_kb, input.gamepad_joins@.take(i as int)),
                forall|k: int| 0 <= k < MAX_PLAYERS && k != local_idx ==> self.slots@[k] == old(self).slots@[k],
            decreases input.gamepad_joins@.len() - i,
        {
            if self.slots[local_idx].is_none() {
                self.slots[local_idx] = Some(InputDevice::Gamepad(input.gamepad_joins[i]));
            }
            assert(input.gamepad_joins@.take(i + 1).drop_last() =~= input.gamepad_joins@.take(i as int));
            i = i + 1;
        }
        assert(input.gamepad_joins@.take(i as int) =~= input.gamepad_joins@);
        if input.keyboard_leave && self.slots[local_idx].is_some() {
            self.slots[local_idx] = None;
        }
        let ghost after_leave = self.slots@[local_idx as int];
        let mut j: usize = 0;
        while j < input.gamepad_leaves.len()
            invariant
                local_idx < MAX_PLAYERS,
                j <= input.gamepad_leaves@.len(),
                self.slots@[local_idx as int] == release_all(after_leave, input.gamepad_leaves@.take(j as int)),
                forall|k: int| 0 <= k < MAX_PLAYERS && k != local_idx ==> self.slots@[k] == old(self).slots@[k],
            decreases input.gamepad_leaves@.len() - j,
        {
            if same_device(&self.slots[local_idx], InputDevice::Gamepad(input.gamepad_leaves[j])) {
                self.slots[local_idx] = None;
            }
            assert(input.gamepad_leaves@.take(j + 1).drop_last() =~= input.gamepad_leaves@.take(j as int));
            j = j + 1;
        }
        assert(input.gamepad_leaves@.take(j as int) =~= input.gamepad_leaves@);
        assert(self.slots@ =~= old(self).slots@.update(local_idx as int, online_step(start, *input)));
        input.escape
    }

    /// The seats whose players are shown on the score board and card list: the occupied seats in
    /// order, or the first two seats when no seat is occupied.
    pub fn active_indices(&self) -> (v: Vec<usize>)
        ensures
            v@ == (if occupied_indices(self.slots@, 8).len() == 0 {
                seq![0usize, 1usize]
            } else {
                occupied_indices(self.slots@, 8)
            }),
    {
        let mut v: Vec<usize> = Vec::new();
        let mut i: usize = 0;
        while i < 8
            invariant
                i <= 8,
                v@ == occupied_indices(self.slots@, i as int),
            decreases 8 - i,
        {
            if self.slots[i].is_some() {
                v.push(i);
            }
            i = i + 1;
        }
        if v.len() == 0 {
            v.push(0);
            v.push(1);
        }
        v
    }

    /// The status line shown on the card of seat `idx`, as "P3 ACTIVE (GP5)".
    pub fn status_text(&self, idx: usize) -> (t: String)
        requires
            idx < MAX_PLAYERS,
        ensures
            t@ == spec_status_text(idx as nat, self.slots@[idx as int]),
    {
        proof {
            reveal_strlit("P");
        }
        let mut t = String::new();
        t.append("P");
        let number = decimal_string((idx + 1) as u64);
        t.append(number.as_str());
        match self.slots[idx] {
            Some(InputDevice::KeyboardMouse) => {
                t.append(" ACTIVE (KB/M)");
            },
            Some(InputDevice::Gamepad(g)) => {
                t.append(" ACTIVE (GP");
                let pad = decimal_string(g.index as u64);
                t.append(pad.as_str());
                t.append(")");
            },
            None => {
                t.append(" INACTIVE");
            },
        }
        t
    }

    /// Whether the host of a two-player network game starts play: in the lobby, once the first
    /// two seats are both taken.
    pub fn host_auto_start(&self, state: GameState) -> (start: bool)
        ensures
            start == (state == GameState::Lobby && self.slots@[0] is Some && self.slots@[1] is Some),
    {
        state == GameState::Lobby && self.slots[0].is_some() && self.slots[1].is_some()
    }

    /// A match can start once at least two seats are taken.
    pub fn can_start(&self) -> (r: bool)
        ensures
            r == (count_occupied(self.slots@, 8) >= 2),
    {
        self.active_count() >= 2
    }
}

/// The stand-in for a gamepad that sits at another peer's machine.
pub open spec fn spec_remote_gamepad() -> GamepadId {
    GamepadId { index: u32::MAX, generation: 0 }
}

/// The stand-in for a gamepad that sits at another peer's machine.
pub fn remote_gamepad() -> (g: GamepadId)
    ensures
        g == spec_remote_gamepad(),
{
    GamepadId { index: u32::MAX, generation: 0 }
}

/// The seat of a remote player as a state packet reports it: an empty seat is filled with the
/// reported kind of controller when the player has joined (a seat already held is kept), and
/// emptied when the player has not.
pub open spec fn spec_remote_seat(seat: Option<InputDevice>, joined: bool, is_gamepad: bool) -> Option<InputDevice> {
    if joined {
        if seat is None {
            Some(if is_gamepad { InputDevice::Gamepad(spec_remote_gamepad()) } else { InputDevice::KeyboardMouse })
        } else {
            seat
        }
    } else {
        None
    }
}

/// Brings the seat of a remote player in line with what the peer reported.
pub fn sync_remote_seat(seat: Option<InputDevice>, joined: bool, is_gamepad: bool) -> (r: Option<InputDevice>)
    ensures
        r == spec_remote_seat(seat, joined, is_gamepad),
{
    if joined {
        if seat.is_none() {
            Some(if is_gamepad { InputDevice::Gamepad(remote_gamepad()) } else { InputDevice::KeyboardMouse })
        } else {
            seat
        }
    } else {
        None
    }
}

/// Whether a seat is held by a gamepad, as a packet reports it.
pub fn is_gamepad_seat(seat: &Option<InputDevice>) -> (r: bool)
    ensures
        r == (seat matches Some(InputDevice::Gamepad(_))),
{
    match seat {
        Some(InputDevice::Gamepad(_)) => true,
        _ => false,
    }
}

/// Joining never seats one controller twice: a lobby without duplicates keeps none.
pub proof fn lemma_join_keeps_seats_unique(s: Seq<Option<InputDevice>>, dev: InputDevice)
    requires
        no_duplicates(s),
    ensures
        no_duplicates(join_result(s, dev)),
{
    if !(seated(s, dev) || !has_free(s)) {
        let k = choose|k: int| 0 <= k < s.len() && s[k] is None;
        assert(first_free_at(s, first_free(s))) by {
            lemma_first_free_exists(s, k);
        }
        let t = join_result(s, dev);
        assert forall|i: int, j: int|
            0 <= i < t.len() && 0 <= j < t.len() && i != j && t[i] is Some implies t[i] != t[j] by {
            if i == first_free(s) {
                assert(t[j] == s[j]);
                if s[j] == Some(dev) {
                    assert(seated(s, dev));
                }
            } else if j == first_free(s) {
                assert(t[i] == s[i]);
                if s[i] == Some(dev) {
                    assert(seated(s, dev));
                }
            }
        }
    }
}

/// Where some seat is empty, there is a first empty seat.
pub proof fn lemma_first_free_exists(s: Seq<Option<InputDevice>>, k: int)
    requires
        0 <= k < s.len(),
        s[k] is None,
    ensures
        exists|m: int| first_free_at(s, m),
    decreases k,
{
    if forall|j: int| 0 <= j < k ==> s[j] is Some {
        assert(first_free_at(s, k));
    } else {
        let j = choose|j: int| 0 <= j < k && !(s[j] is Some);
        lemma_first_free_exists(s, j);
    }
}

/// Leaving never seats one controller twice.
pub proof fn lemma_leave_keeps_seats_unique(s: Seq<Option<InputDevice>>, dev: InputDevice)
    requires
        no_duplicates(s),
    ensures
        no_duplicates(leave_result(s, dev)),
{
}

/// A frame of the local lobby never seats one controller twice.
pub proof fn lemma_local_step_keeps_seats_unique(s: Seq<Option<InputDevice>>, input: LobbyInput)
    requires
        no_duplicates(s),
    ensures
        no_duplicates(local_step(s, input)),
{
    let a = if input.keyboard_join { join_result(s, InputDevice::KeyboardMouse) } else { s };
    if input.keyboard_join {
        lemma_join_keeps_seats_unique(s, InputDevice::KeyboardMouse);
    }
    lemma_join_all_keeps_seats_unique(a, input.gamepad_joins@);
    let b = join_all(a, input.gamepad_joins@);
    let c = if input.keyboard_leave { leave_result(b, InputDevice::KeyboardMouse) } else { b };
    if input.keyboard_leave {
        lemma_leave_keeps_seats_unique(b, InputDevice::KeyboardMouse);
    }
    lemma_leave_all_keeps_seats_unique(c, input.gamepad_leaves@);
}

proof fn lemma_join_all_keeps_seats_unique(s: Seq<Option<InputDevice>>, pads: Seq<GamepadId>)
    requires
        no_duplicates(s),
    ensures
        no_duplicates(join_all(s, pads)),
    decreases pads.len(),
{
    if pads.len() > 0 {
        lemma_join_all_keeps_seats_unique(s, pads.drop_last());
        lemma_join_keeps_seats_unique(join_all(s, pads.drop_last()), InputDevice::Gamepad(pads.last()));
    }
}

proof fn lemma_leave_all_keeps_seats_unique(s: Seq<Option<InputDevice>>, pads: Seq<GamepadId>)
    requires
        no_duplicates(s),
    ensures
        no_duplicates(leave_all(s, pads)),
    decreases pads.len(),
{
    if pads.len() > 0 {
        lemma_leave_all_keeps_seats_unique(s, pads.drop_last());
        lemma_leave_keeps_seats_unique(leave_all(s, pads.drop_last()), InputDevice::Gamepad(pads.last()));
    }
}

/// Leaving undoes joining: a controller that was not seated, joins and then leaves, leaves the
/// seats as they were.
pub proof fn lemma_leave_undoes_join(s: Seq<Option<InputDevice>>, dev: InputDevice)
    requires
        !seated(s, dev),
    ensures
        leave_result(join_result(s, dev), dev) == s,
{
    let t = join_result(s, dev);
    if has_free(s) {
        let k = choose|k: int| 0 <= k < s.len() && s[k] is None;
        lemma_first_free_exists(s, k);
        assert(first_free_at(s, first_free(s)));
    }
    assert forall|i: int| 0 <= i < s.len() implies leave_result(t, dev)[i] == s[i] by {
        if s[i] == Some(dev) {
            assert(seated(s, dev));
        }
    }
    assert(leave_result(t, dev) =~= s);
}

} // verus!
