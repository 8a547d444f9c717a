use vstd::prelude::*;
use crate::join_code::TypingKey;
use crate::controls::{ControlSetting, ControllerControls, KeyboardControls, apply_control_setting, binding_of};

verus! {

/// A row of the settings screen: a physics value, a value of one seat's character (by seat
/// number), or a control binding.
#[derive(Clone, Copy, Debug, PartialEq, Eq, Structural)]
pub enum SettingType {
    Gravity,
    PlayerAccel,
    PlayerJumpForce,
    BoundaryRestitution,
    PlayerRestitution,
    AirFriction,
    GroundFriction,
    MovementStopFriction,
    WallSlideSpeed,
    WallJumpPushForce,
    FastFallAcceleration,
    AirAccel,
    PlayerBaseRadius,
    PlayerBaseMass,
    PlayerVisualOffset,
    PlayerAimOffsetY,
    BoundaryKnockbackSpeed,
    BoundaryDamageLockout,
    BoundaryDeflectLockout,
    SpawnInvincibilityGracePeriod,
    BoundaryHazardDamage,
    FastFallStickThreshold,
    FastFallVelocityLimit,
    WallClingStickThreshold,
    MaxJumpAllowance,
    CollisionPenetrationSkinBuffer,
    OverlappingPushFactor,
    GroundedSlopeThreshold,
    WallContactSlopeThreshold,
    BulletKnockbackConstant,
    PlayerHealth(usize),
    PlayerSpeed(usize),
    PlayerSize(usize),
    PlayerDamage(usize),
    PlayerBulletRange(usize),
    PlayerBulletSpeed(usize),
    PlayerBulletGravity(usize),
    PlayerBulletSizeMult(usize),
    PlayerBulletGrowth(usize),
    PlayerMaxAmmo(usize),
    PlayerReloadTime(usize),
    PlayerFireRate(usize),
    PlayerBounces(usize),
    PlayerBounceSpeedMultiplier(usize),
    PlayerBlockDuration(usize),
    PlayerBlockCooldown(usize),
    PlayerBlockBorderBoost(usize),
    KbMoveLeft,
    KbMoveRight,
    KbJump,
    KbFastFall,
    KbBlock,
    KbShoot,
    KbReload,
    CtrlJump,
    CtrlBlock,
    CtrlShoot,
    CtrlReload,
}

/// The control binding that a settings row edits, if it edits one.
pub open spec fn spec_control_of(s: SettingType) -> Option<ControlSetting> {
    match s {
        SettingType::KbMoveLeft => Some(ControlSetting::KbMoveLeft),
        SettingType::KbMoveRight => Some(ControlSetting::KbMoveRight),
        SettingType::KbJump => Some(ControlSetting::KbJump),
        SettingType::KbFastFall => Some(ControlSetting::KbFastFall),
        SettingType::KbBlock => Some(ControlSetting::KbBlock),
        SettingType::KbShoot => Some(ControlSetting::KbShoot),
        SettingType::KbReload => Some(ControlSetting::KbReload),
        SettingType::CtrlJump => Some(ControlSetting::CtrlJump),
        SettingType::CtrlBlock => Some(ControlSetting::CtrlBlock),
        SettingType::CtrlShoot => Some(ControlSetting::CtrlShoot),
        SettingType::CtrlReload => Some(ControlSetting::CtrlReload),
        _ => None,
    }
}

/// The control binding that a settings row edits; `None` for a numeric row.
pub fn control_of(s: SettingType) -> (r: Option<ControlSetting>)
    ensures
        r == spec_control_of(s),
{
    match s {
        SettingType::KbMoveLeft => Some(ControlSetting::KbMoveLeft),
        SettingType::KbMoveRight => Some(ControlSetting::KbMoveRight),
        SettingType::KbJump => Some(ControlSetting::KbJump),
        SettingType::KbFastFall => Some(ControlSetting::KbFastFall),
        SettingType::KbBlock => Some(ControlSetting::KbBlock),
        SettingType::KbShoot => Some(ControlSetting::KbShoot),
        SettingType::KbReload => Some(ControlSetting::KbReload),
        SettingType::CtrlJump => Some(ControlSetting::CtrlJump),
        SettingType::CtrlBlock => Some(ControlSetting::CtrlBlock),
        SettingType::CtrlShoot => Some(ControlSetting::CtrlShoot),
        SettingType::CtrlReload => Some(ControlSetting::CtrlReload),
        _ => None,
    }
}

/// The settings box being typed into, if any, and the text typed so far.
pub struct ActiveSettingInput {
    pub focused_setting: Option<SettingType>,
    pub current_text: String,
}

impl ActiveSettingInput {
    /// No box focused and no text.
    pub fn new() -> (a: ActiveSettingInput)
        ensures
            a.focused_setting is None,
            a.current_text@ == Seq::<char>::empty(),
    {
        ActiveSettingInput { focused_setting: None, current_text: String::new() }
    }

    /// Unfocuses the box and forgets its text.
    pub fn clear(&mut self)
        ensures
            final(self).focused_setting is None,
            final(self).current_text@ == Seq::<char>::empty(),
    {
        self.focused_setting = None;
        self.current_text = String::new();
    }
}

/// What a key press in a settings box leads to.
#[derive(Clone, Copy, Debug, PartialEq, Eq, Structural)]
pub enum SettingKeyOutcome {
    /// The text may have changed; the box stays focused.
    Editing,
    /// Enter: the text is applied to the setting, then the box loses focus and is cleared.
    Commit,
    /// Escape: the box loses focus and is cleared without applying.
    Cancel,
}

/// Whether a character may be typed into a numeric setting.
pub open spec fn numeric_char(c: char) -> bool {
    ('0' <= c <= '9') || c == '.' || c == '-'
}

/// Whether typed text is accepted: anything for a control binding, else only digits, points and
/// minus signs.
pub open spec fn accepted_text(text: Seq<char>, is_control: bool) -> bool {
    is_control || forall|i: int| 0 <= i < text.len() ==> numeric_char(#[trigger] text[i])
}

fn is_numeric_text(text: &str) -> (r: bool)
    ensures
        r == (forall|i: int| 0 <= i < text@.len() ==> numeric_char(#[trigger] text@[i])),
{
    let n = text.unicode_len();
    let mut i: usize = 0;
    while i < n
        invariant
            n == text@.len(),
            i <= n,
            forall|j: int| 0 <= j < i ==> numeric_char(#[trigger] text@[j]),
        decreases n - i,
    {
        let c = text.get_char(i);
        if !(('0' <= c && c <= '9') || c == '.' || c == '-') {
            assert(!numeric_char(text@[i as int]));
            return false;
        }
        i = i + 1;
    }
    true
}

/// Edits the text of the focused settings box for one key press.
pub fn edit_setting_text(text: &mut String, key: &TypingKey, is_control: bool) -> (outcome: SettingKeyOutcome)
    ensures
        outcome == (match key {
            TypingKey::Enter => SettingKeyOutcome::Commit,
            TypingKey::Escape => SettingKeyOutcome::Cancel,
            _ => SettingKeyOutcome::Editing,
        }),
        final(text)@ == (match key {
            TypingKey::Character(t) => if accepted_text(t@, is_control) {
                old(text)@ + t@
            } else {
                old(text)@
            },
            TypingKey::Backspace => if old(text)@.len() == 0 {
                old(text)@
            } else {
                old(text)@.drop_last()
            },
            _ => old(text)@,
        }),
{
    match key {
        TypingKey::Character(t) => {
            if is_control || is_numeric_text(t.as_str()) {
                text.append(t.as_str());
            }
            SettingKeyOutcome::Editing
        },
        TypingKey::Backspace => {
            let n = text.as_str().unicode_len();
            if n > 0 {
                let kept = text.as_str().substring_char(0, n - 1).to_owned();
                assert(kept@ =~= old(text)@.drop_last());
                *text = kept;
            }
            SettingKeyOutcome::Editing
        },
        TypingKey::Enter => SettingKeyOutcome::Commit,
        TypingKey::Escape => SettingKeyOutcome::Cancel,
        TypingKey::Other => SettingKeyOutcome::Editing,
    }
}

/// The text of the focused box after one key press: typing and Backspace edit it, Enter and
/// Escape leave the box and clear it.
pub open spec fn setting_key_text(text: Seq<char>, key: TypingKey, is_control: bool) -> Seq<char> {
    match key {
        TypingKey::Character(t) => if accepted_text(t@, is_control) {
            text + t@
        } else {
            text
        },
        TypingKey::Backspace => if text.len() == 0 {
            text
        } else {
            text.drop_last()
        },
        TypingKey::Enter => Seq::<char>::empty(),
        TypingKey::Escape => Seq::<char>::empty(),
        TypingKey::Other => text,
    }
}

/// The text after a frame's key presses, handled in order.
pub open spec fn setting_frame_text(text: Seq<char>, keys: Seq<TypingKey>, is_control: bool) -> Seq<char>
    decreases keys.len(),
{
    if keys.len() == 0 {
        text
    } else {
        setting_key_text(setting_frame_text(text, keys.drop_last(), is_control), keys.last(), is_control)
    }
}

/// The texts that a frame's Enter presses commit, in order: each is the text as it stood when
/// Enter was pressed.
pub open spec fn setting_frame_commits(text: Seq<char>, keys: Seq<TypingKey>, is_control: bool) -> Seq<Seq<char>>
    decreases keys.len(),
{
    if keys.len() == 0 {
        Seq::empty()
    } else {
        let before = setting_frame_commits(text, keys.drop_last(), is_control);
        if keys.last() is Enter {
            before.push(setting_frame_text(text, keys.drop_last(), is_control))
        } else {
            before
        }
    }
}

/// Whether a frame's key presses leave the box: some press is Enter or Escape.
pub open spec fn frame_leaves_box(keys: Seq<TypingKey>) -> bool {
    exists|j: int| 0 <= j < keys.len() && ((#[trigger] keys[j]) is Enter || keys[j] is Escape)
}

impl ActiveSettingInput {
    /// Handles the key presses of one frame in the focused settings box (with no box focused when
    /// the frame starts, it does nothing). The row focused at the frame's start takes every key of
    /// the frame, also those after an Enter or Escape. Enter commits the text: a control row binds
    /// it at once; for a numeric row the committed texts are returned, in order, for the caller to
    /// read as numbers. Enter and Escape then unfocus the box and clear its text.
    pub fn settings_keyboard_input(
        &mut self,
        keys: &Vec<TypingKey>,
        kb: &mut KeyboardControls,
        ctrl: &mut ControllerControls,
    ) -> (numeric_commits: Vec<String>)
        ensures
            old(self).focused_setting is None ==> {
                &&& final(self).focused_setting is None
                &&& final(self).current_text@ == old(self).current_text@
                &&& numeric_commits@.len() == 0
                &&& forall|other: ControlSetting|
                    #[trigger] binding_of(other, *final(kb), *final(ctrl)) == binding_of(other, *old(kb), *old(ctrl))
            },
            old(self).focused_setting matches Some(s) ==> {
                let ic = spec_control_of(s) is Some;
                let commits = setting_frame_commits(old(self).current_text@, keys@, ic);
                &&& final(self).current_text@ == setting_frame_text(old(self).current_text@, keys@, ic)
                &&& final(self).focused_setting == (if frame_leaves_box(keys@) {
                    None
                } else {
                    Some(s)
                })
                &&& forall|other: ControlSetting|
                    #[trigger] binding_of(other, *final(kb), *final(ctrl)) == if spec_control_of(s) == Some(other)
                        && commits.len() > 0 {
                        commits.last()
                    } else {
                        binding_of(other, *old(kb), *old(ctrl))
                    }
                &&& numeric_commits@.map_values(|t: String| t@) == (if ic {
                    Seq::<Seq<char>>::empty()
                } else {
                    commits
                })
            },
    {
        let setting = match self.focused_setting {
            None => {
                return Vec::new();
            },
            Some(s) => s,
        };
        let control = control_of(setting);
        let is_control = control.is_some();
        let ghost text0 = self.current_text@;
        let ghost kb0 = *kb;
        let ghost ctrl0 = *ctrl;
        let mut commits: Vec<String> = Vec::new();
        let mut i: usize = 0;
        while i < keys.len()
            invariant
                i <= keys@.len(),
                control == spec_control_of(setting),
                is_control == (control is Some),
                self.current_text@ == setting_frame_text(text0, keys@.take(i as int), is_control),
                self.focused_setting == (if frame_leaves_box(keys@.take(i as int)) {
                    None
                } else {
                    Some(setting)
                }),
                forall|other: ControlSetting|
                    #[trigger] binding_of(other, *kb, *ctrl) == if control == Some(other)
                        && setting_frame_commits(text0, keys@.take(i as int), is_control).len() > 0 {
                        setting_frame_commits(text0, keys@.take(i as int), is_control).last()
                    } else {
                        binding_of(other, kb0, ctrl0)
                    },
                commits@.map_values(|t: String| t@) == (if is_control {
                    Seq::<Seq<char>>::empty()
                } else {
                    setting_frame_commits(text0, keys@.take(i as int), is_control)
                }),
            decreases keys@.len() - i,
        {
            let ghost prev = keys@.take(i as int);
            let ghost next = keys@.take(i + 1);
            proof {
                assert(next.drop_last() =~= prev);
                assert(next.last() == keys@[i as int]);
            }
            let outcome = edit_setting_text(&mut self.current_text, &keys[i], is_control);
            match outcome {
                SettingKeyOutcome::Commit => {
                    match control {
                        Some(c) => {
                            let ghost kb1 = *kb;
                            let ghost ctrl1 = *ctrl;
                            apply_control_setting(c, self.current_text.as_str(), kb, ctrl);
                            proof {
                                assert forall|other: ControlSetting|
                                    #[trigger] binding_of(other, *kb, *ctrl) == if control == Some(other)
                                        && setting_frame_commits(text0, next, is_control).len() > 0 {
                                        setting_frame_commits(text0, next, is_control).last()
                                    } else {
                                        binding_of(other, kb0, ctrl0)
                                    } by {
                                    assert(binding_of(other, kb1, ctrl1) == binding_of(other, kb1, ctrl1));
                                }
                            }
                        },
                        None => {
                            let t = self.current_text.clone();
                            commits.push(t);
                            proof {
                                let cs = setting_frame_commits(text0, prev, is_control);
                                assert(commits@.map_values(|t: String| t@) =~= cs.push(t@));
                            }
                        },
                    }
                    self.clear();
                },
                SettingKeyOutcome::Cancel => {
                    self.clear();
                },
                SettingKeyOutcome::Editing => {},
            }
            proof {
                if frame_leaves_box(next) {
                    let j = choose|j: int| 0 <= j < next.len() && ((#[trigger] next[j]) is Enter || next[j] is Escape);
                    if j < i {
                        assert(prev[j] == next[j]);
                    }
                }
                if frame_leaves_box(prev) {
                    let j = choose|j: int| 0 <= j < prev.len() && ((#[trigger] prev[j]) is Enter || prev[j] is Escape);
                    assert(next[j] == prev[j]);
                }
                if keys@[i as int] is Enter || keys@[i as int] is Escape {
                    assert(next[i as int] == keys@[i as int]);
                }
            }
            i = i + 1;
        }
        assert(keys@.take(i as int) =~= keys@);
        commits
    }
}

impl ActiveSettingInput {
    /// Commits the text of the focused box before a click moves the focus elsewhere: a control
    /// row binds the text at once; for a numeric row the row and its text are returned for the
    /// caller to read as a number. The focus and text are left as they are.
    pub fn commit_focused(&self, kb: &mut KeyboardControls, ctrl: &mut ControllerControls) -> (numeric: Option<(SettingType, String)>)
        ensures
            match self.focused_setting {
                Some(s) => match spec_control_of(s) {
                    Some(c) => {
                        &&& numeric is None
                        &&& forall|other: ControlSetting|
                            #[trigger] binding_of(other, *final(kb), *final(ctrl)) == if other == c {
                                self.current_text@
                            } else {
                                binding_of(other, *old(kb), *old(ctrl))
                            }
                    },
                    None => {
                        &&& numeric matches Some((row, t)) && row == s && t@ == self.current_text@
                        &&& forall|other: ControlSetting|
                            #[trigger] binding_of(other, *final(kb), *final(ctrl)) == binding_of(other, *old(kb), *old(ctrl))
                    },
                },
                None => {
                    &&& numeric is None
                    &&& forall|other: ControlSetting|
                        #[trigger] binding_of(other, *final(kb), *final(ctrl)) == binding_of(other, *old(kb), *old(ctrl))
                },
            },
    {
        match self.focused_setting {
            Some(s) => match control_of(s) {
                Some(c) => {
                    apply_control_setting(c, self.current_text.as_str(), kb, ctrl);
                    None
                },
                None => Some((s, self.current_text.clone())),
            },
            None => None,
        }
    }
}

/// Each control row of the settings screen edits the binding of its own name: the keyboard rows
/// move left, move right, jump, fast fall, block, shoot and reload, and the controller rows jump,
/// block, shoot and reload; every physics and character row is numeric.
pub proof fn lemma_control_rows_edit_their_own_binding(
    kb: KeyboardControls,
    ctrl: ControllerControls,
    seat: usize,
    row: SettingType,
)
    ensures
        spec_control_of(row) is Some ==> (row is KbMoveLeft || row is KbMoveRight || row is KbJump || row is KbFastFall
            || row is KbBlock || row is KbShoot || row is KbReload || row is CtrlJump || row is CtrlBlock
            || row is CtrlShoot || row is CtrlReload),
        spec_control_of(SettingType::KbMoveLeft) is Some && binding_of(spec_control_of(SettingType::KbMoveLeft)->0, kb, ctrl) == kb.move_left@,
        spec_control_of(SettingType::KbMoveRight) is Some && binding_of(spec_control_of(SettingType::KbMoveRight)->0, kb, ctrl) == kb.move_right@,
        spec_control_of(SettingType::KbJump) is Some && binding_of(spec_control_of(SettingType::KbJump)->0, kb, ctrl) == kb.jump@,
        spec_control_of(SettingType::KbFastFall) is Some && binding_of(spec_control_of(SettingType::KbFastFall)->0, kb, ctrl) == kb.fast_fall@,
        spec_control_of(SettingType::KbBlock) is Some && binding_of(spec_control_of(SettingType::KbBlock)->0, kb, ctrl) == kb.block@,
        spec_control_of(SettingType::KbShoot) is Some && binding_of(spec_control_of(SettingType::KbShoot)->0, kb, ctrl) == kb.shoot@,
        spec_control_of(SettingType::KbReload) is Some && binding_of(spec_control_of(SettingType::KbReload)->0, kb, ctrl) == kb.reload@,
        spec_control_of(SettingType::CtrlJump) is Some && binding_of(spec_control_of(SettingType::CtrlJump)->0, kb, ctrl) == ctrl.jump@,
        spec_control_of(SettingType::CtrlBlock) is Some && binding_of(spec_control_of(SettingType::CtrlBlock)->0, kb, ctrl) == ctrl.block@,
        spec_control_of(SettingType::CtrlShoot) is Some && binding_of(spec_control_of(SettingType::CtrlShoot)->0, kb, ctrl) == ctrl.shoot@,
        spec_control_of(SettingType::CtrlReload) is Some && binding_of(spec_control_of(SettingType::CtrlReload)->0, kb, ctrl) == ctrl.reload@,
        spec_control_of(SettingType::Gravity) is None,
        spec_control_of(SettingType::MaxJumpAllowance) is None,
        spec_control_of(SettingType::BulletKnockbackConstant) is None,
        spec_control_of(SettingType::PlayerHealth(seat)) is None,
        spec_control_of(SettingType::PlayerMaxAmmo(seat)) is None,
        spec_control_of(SettingType::PlayerBlockBorderBoost(seat)) is None,
{
}

} // verus!
