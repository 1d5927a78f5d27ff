use camera_rig::controllers::unreal::{
    UnrealCameraController, UnrealKeyState, MouseButtons, ControlEvent, default_input_map,
    control_system, KMS_FLOOR,
};
use camera_rig::smoothing::ConfigError;
use camera_rig::transform::LookTransform;
use camera_rig::vectors::{Vec2, Vec3};

fn no_keys() -> UnrealKeyState {
    UnrealKeyState {
        pan_up: false,
        pan_down: false,
        pan_left: false,
        pan_right: false,
        forward: false,
        backward: false,
    }
}

fn no_buttons() -> MouseButtons {
    MouseButtons { left: false, right: false, middle: false }
}

#[test]
fn unreal_constructor_validates_configuration() {
    let ok = UnrealCameraController::new(
        true,
        Vec2::new(2_000, 2_000),
        Vec2::new(20_000, 20_000),
        1_000_000,
        100_000,
        100_000,
        700_000,
    );
    assert!(ok.is_ok());
    let bad_weight = UnrealCameraController::new(
        true,
        Vec2::new(2_000, 2_000),
        Vec2::new(20_000, 20_000),
        1_000_000,
        100_000,
        100_000,
        -5,
    );
    assert_eq!(bad_weight.unwrap_err(), ConfigError::InvalidWeight);
    let bad_sens = UnrealCameraController::new(
        true,
        Vec2::new(2_000, 2_000),
        Vec2::new(20_000, -20_000),
        1_000_000,
        100_000,
        100_000,
        700_000,
    );
    assert_eq!(bad_sens.unwrap_err(), ConfigError::InvalidSensitivity);
}

/// Right button alone with pointer motion: exactly one rotate event,
/// nothing else.
#[test]
fn right_drag_rotates_only() {
    let mut cs = vec![UnrealCameraController::default()];
    let buttons = MouseButtons { left: false, right: true, middle: false };
    let motions = vec![Vec2::new(10_000_000, 0)];
    let events = default_input_map(&mut cs, &motions, &vec![], &buttons, &no_keys());
    assert_eq!(events, vec![ControlEvent::Rotate(Vec2::new(20_000, 0))]);
    assert_eq!(cs[0].keyboard_mvmt_sensitivity, 100_000);
}

/// With a button held, a positive wheel strictly raises the keyboard
/// movement sensitivity.
#[test]
fn wheel_raises_adaptive_sensitivity() {
    let mut cs = vec![UnrealCameraController::default()];
    let buttons = MouseButtons { left: true, right: false, middle: false };
    let wheel = vec![Vec2::new(0, 2_000_000)];
    let events = default_input_map(&mut cs, &vec![], &wheel, &buttons, &no_keys());
    assert!(events.is_empty());
    assert_eq!(cs[0].keyboard_mvmt_sensitivity, 300_000);
}

/// However negative the wheel, the adaptive sensitivity never drops below
/// its floor of 0.01.
#[test]
fn adaptive_sensitivity_never_below_floor() {
    let mut cs = vec![UnrealCameraController::default()];
    let buttons = MouseButtons { left: true, right: false, middle: false };
    for _ in 0..5 {
        let wheel = vec![Vec2::new(0, -100_000_000)];
        default_input_map(&mut cs, &vec![], &wheel, &buttons, &no_keys());
        assert!(cs[0].keyboard_mvmt_sensitivity >= KMS_FLOOR);
    }
    assert_eq!(cs[0].keyboard_mvmt_sensitivity, KMS_FLOOR);
}

#[test]
fn middle_drag_pans() {
    let mut cs = vec![UnrealCameraController::default()];
    let buttons = MouseButtons { left: false, right: false, middle: true };
    let motions = vec![Vec2::new(5_000_000, -3_000_000)];
    let events = default_input_map(&mut cs, &motions, &vec![], &buttons, &no_keys());
    assert_eq!(events, vec![ControlEvent::TranslateEye(Vec2::new(100_000, -60_000))]);
}

#[test]
fn left_drag_walks() {
    let mut cs = vec![UnrealCameraController::default()];
    let buttons = MouseButtons { left: true, right: false, middle: false };
    let motions = vec![Vec2::new(1_000_000, 2_000_000)];
    let mut keys = no_keys();
    keys.forward = true;
    let events = default_input_map(&mut cs, &motions, &vec![], &buttons, &keys);
    assert_eq!(events, vec![ControlEvent::Locomotion(Vec2::new(2_000, 60_000))]);
}

#[test]
fn wheel_alone_is_locomotion() {
    let mut cs = vec![UnrealCameraController::default()];
    let wheel = vec![Vec2::new(0, 3_000_000)];
    let events = default_input_map(&mut cs, &vec![], &wheel, &no_buttons(), &no_keys());
    assert_eq!(events, vec![ControlEvent::Locomotion(Vec2::new(0, 3_000_000))]);
    assert_eq!(cs[0].keyboard_mvmt_sensitivity, 100_000);
}

#[test]
fn opposing_pan_keys_cancel() {
    let mut cs = vec![UnrealCameraController::default()];
    let buttons = MouseButtons { left: true, right: false, middle: false };
    let mut keys = no_keys();
    keys.pan_up = true;
    keys.pan_down = true;
    keys.pan_left = true;
    keys.pan_right = true;
    let events = default_input_map(&mut cs, &vec![], &vec![], &buttons, &keys);
    assert!(events.is_empty());
}

#[test]
fn idle_frame_emits_nothing() {
    let mut cs = vec![UnrealCameraController::default()];
    let events = default_input_map(&mut cs, &vec![], &vec![], &no_buttons(), &no_keys());
    assert!(events.is_empty());
}

/// Disabled controller: arbitrary input produces no events, no state
/// change, and an untouched transform.
#[test]
fn unreal_disabled_controller_is_inert() {
    let mut c = UnrealCameraController::default();
    c.enabled = false;
    let mut cs = vec![c];
    let buttons = MouseButtons { left: true, right: true, middle: true };
    let motions = vec![Vec2::new(7_000_000, 7_000_000)];
    let wheel = vec![Vec2::new(0, 9_000_000)];
    let mut keys = no_keys();
    keys.forward = true;
    let events = default_input_map(&mut cs, &motions, &wheel, &buttons, &keys);
    assert!(events.is_empty());
    assert_eq!(cs[0], c);
    let t = LookTransform::new(Vec3::new(0, 0, 5_000_000), Vec3::zero());
    let mut transforms = vec![t];
    let fake = vec![ControlEvent::Locomotion(Vec2::new(0, 1_000_000))];
    control_system(&cs, &mut transforms, &fake);
    assert_eq!(transforms[0], t);
}

/// Locomotion moves along the current view axis.
#[test]
fn locomotion_moves_along_view_axis() {
    let cs = vec![UnrealCameraController::default()];
    let t = LookTransform::new(Vec3::new(0, 0, 5_000_000), Vec3::zero());
    let mut transforms = vec![t];
    let events = vec![ControlEvent::Locomotion(Vec2::new(0, 1_000_000))];
    control_system(&cs, &mut transforms, &events);
    assert_eq!(transforms[0].eye, Vec3::new(0, 0, 4_000_000));
    // The pre-frame radius of 5 units is preserved: the target moves with
    // the eye instead of being approached.
    assert_eq!(transforms[0].target, Vec3::new(0, 0, -1_000_000));
    assert_eq!(transforms[0].radius(), 5_000_000);
}

/// Panning moves sideways and vertically without changing the view
/// direction; the target follows the eye.
#[test]
fn panning_keeps_view_direction() {
    let cs = vec![UnrealCameraController::default()];
    let t = LookTransform::new(Vec3::new(0, 0, 5_000_000), Vec3::zero());
    let mut transforms = vec![t];
    let events = vec![ControlEvent::TranslateEye(Vec2::new(1_000_000, 2_000_000))];
    control_system(&cs, &mut transforms, &events);
    assert_eq!(transforms[0].eye, Vec3::new(1_000_000, 2_000_000, 5_000_000));
    // The target keeps the pre-frame radius of 5 units along the old view
    // direction, so it shifts exactly with the eye.
    assert_eq!(transforms[0].target, Vec3::new(1_000_000, 2_000_000, 0));
}

#[test]
fn unreal_degenerate_transform_skips_frame() {
    let cs = vec![UnrealCameraController::default()];
    let t = LookTransform::new(Vec3::zero(), Vec3::zero());
    let mut transforms = vec![t];
    let events = vec![ControlEvent::Rotate(Vec2::new(10_000, 0))];
    control_system(&cs, &mut transforms, &events);
    assert_eq!(transforms[0], t);
}
