use vstd::prelude::*;

verus! {

/// The settings rows that hold a control binding rather than a number.
#[derive(Clone, Copy, Debug, PartialEq, Eq, Structural)]
pub enum ControlSetting {
    KbMoveLeft,
    KbMoveRight,
    KbJump,
    KbFastFall,
    KbBlock,
    KbShoot,
    KbReload,
    CtrlJump,
    CtrlBlock,
    CtrlShoot,
    CtrlReload,
}

/// The key bound to each keyboard action, by name.
pub struct KeyboardControls {
    pub move_left: String,
    pub move_right: String,
    pub jump: String,
    pub fast_fall: String,
    pub block: String,
    pub shoot: String,
    pub reload: String,
}

/// The button bound to each controller action, by name.
pub struct ControllerControls {
    pub jump: String,
    pub block: String,
    pub shoot: String,
    pub reload: String,
}

/// The text of the binding that a control setting names.
pub open spec fn binding_of(setting: ControlSetting, kb: KeyboardControls, ctrl: ControllerControls) -> Seq<char> {
    match setting {
        ControlSetting::KbMoveLeft => kb.move_left@,
        ControlSetting::KbMoveRight => kb.move_right@,
        ControlSetting::KbJump => kb.jump@,
        ControlSetting::KbFastFall => kb.fast_fall@,
        ControlSetting::KbBlock => kb.block@,
        ControlSetting::KbShoot => kb.shoot@,
        ControlSetting::KbReload => kb.reload@,
        ControlSetting::CtrlJump => ctrl.jump@,
        ControlSetting::CtrlBlock => ctrl.block@,
        ControlSetting::CtrlShoot => ctrl.shoot@,
        ControlSetting::CtrlReload => ctrl.reload@,
    }
}

/// The text shown in a control setting's box: the binding as it stands.
pub fn control_setting_value(setting: ControlSetting, kb: &KeyboardControls, ctrl: &ControllerControls) -> (r: String)
    ensures
        r@ == binding_of(setting, *kb, *ctrl),
{
    match setting {
        ControlSetting::KbMoveLeft => kb.move_left.clone(),
        ControlSetting::KbMoveRight => kb.move_right.clone(),
        ControlSetting::KbJump => kb.jump.clone(),
        ControlSetting::KbFastFall => kb.fast_fall.clone(),
        ControlSetting::KbBlock => kb.block.clone(),
        ControlSetting::KbShoot => kb.shoot.clone(),
        ControlSetting::KbReload => kb.reload.clone(),
        ControlSetting::CtrlJump => ctrl.jump.clone(),
        ControlSetting::CtrlBlock => ctrl.block.clone(),
        ControlSetting::CtrlShoot => ctrl.shoot.clone(),
        ControlSetting::CtrlReload => ctrl.reload.clone(),
    }
}

/// Binds the action that `setting` names to `val`; every other binding stays as it was.
pub fn apply_control_setting(
    setting: ControlSetting,
    val: &str,
    kb: &mut KeyboardControls,
    ctrl: &mut ControllerControls,
)
    ensures
        forall|other: ControlSetting|
            #[trigger] binding_of(other, *final(kb), *final(ctrl)) == if other == setting {
                val@
            } else {
                binding_of(other, *old(kb), *old(ctrl))
            },
{
    let v = val.to_owned();
    match setting {
        ControlSetting::KbMoveLeft => kb.move_left = v,
        ControlSetting::KbMoveRight => kb.move_right = v,
        ControlSetting::KbJump => kb.jump = v,
        ControlSetting::KbFastFall => kb.fast_fall = v,
        ControlSetting::KbBlock => kb.block = v,
        ControlSetting::KbShoot => kb.shoot = v,
        ControlSetting::KbReload => kb.reload = v,
        ControlSetting::CtrlJump => ctrl.jump = v,
        ControlSetting::CtrlBlock => ctrl.block = v,
        ControlSetting::CtrlShoot => ctrl.shoot = v,
        ControlSetting::CtrlReload => ctrl.reload = v,
    }
}

/// Binding an action and then reading its box gives back the text that was bound, and the box of
/// any other action shows what it showed before.
pub proof fn lemma_binding_read_after_write(
    setting: ControlSetting,
    other: ControlSetting,
    val: Seq<char>,
    kb0: KeyboardControls,
    ctrl0: ControllerControls,
    kb1: KeyboardControls,
    ctrl1: ControllerControls,
)
    requires
        forall|s: ControlSetting|
            #[trigger] binding_of(s, kb1, ctrl1) == if s == setting {
                val
            } else {
                binding_of(s, kb0, ctrl0)
            },
    ensures
        binding_of(setting, kb1, ctrl1) == val,
        other != setting ==> binding_of(other, kb1, ctrl1) == binding_of(other, kb0, ctrl0),
{
    assert(binding_of(setting, kb1, ctrl1) == val);
    assert(binding_of(other, kb1, ctrl1) == if other == setting {
        val
    } else {
        binding_of(other, kb0, ctrl0)
    });
}

} // verus!
