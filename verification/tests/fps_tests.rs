use camera_rig::controllers::fps::{
    FpsCameraController, FpsKeyState, ControlEvent, active_index, default_input_map,
    control_system,
};
use camera_rig::smoothing::ConfigError;
use camera_rig::transform::LookTransform;
use camera_rig::vectors::{Vec2, Vec3};

fn no_keys() -> FpsKeyState {
    FpsKeyState {
        forward: false,
        left: false,
        backward: false,
        right: false,
        down: false,
        up: false,
    }
}

#[test]
fn constructor_validates_configuration() {
    let ok = FpsCameraController::new(true, Vec2::new(2_000, 2_000), 500_000, 900_000);
    assert!(ok.is_ok());
    let bad_weight = FpsCameraController::new(true, Vec2::new(2_000, 2_000), 500_000, 1_000_000);
    assert_eq!(bad_weight.unwrap_err(), ConfigError::InvalidWeight);
    let bad_sens = FpsCameraController::new(true, Vec2::new(-1, 2_000), 500_000, 0);
    assert_eq!(bad_sens.unwrap_err(), ConfigError::InvalidSensitivity);
}

#[test]
fn selection_picks_first_enabled() {
    let mut off = FpsCameraController::default();
    off.enabled = false;
    let on = FpsCameraController::default();
    assert_eq!(active_index(&vec![off, on, on]), Some(1));
    assert_eq!(active_index(&vec![off, off]), None);
    assert_eq!(active_index(&vec![]), None);
}

#[test]
fn mapper_emits_rotate_then_translations() {
    let c = FpsCameraController::default();
    let motions = vec![Vec2::new(10_000_000, 5_000_000), Vec2::new(-4_000_000, 0)];
    let mut keys = no_keys();
    keys.forward = true;
    keys.up = true;
    let events = default_input_map(&vec![c], &motions, &keys);
    // Sensitivity 0.002 times summed cursor motion (6, 5) units.
    assert_eq!(
        events,
        vec![
            ControlEvent::Rotate(Vec2::new(12_000, 10_000)),
            ControlEvent::TranslateEye(Vec3::new(0, 0, 500_000)),
            ControlEvent::TranslateEye(Vec3::new(0, 500_000, 0)),
        ]
    );
}

#[test]
fn mapper_emits_zero_rotation_without_motion() {
    let c = FpsCameraController::default();
    let events = default_input_map(&vec![c], &vec![], &no_keys());
    assert_eq!(events, vec![ControlEvent::Rotate(Vec2::new(0, 0))]);
}

/// Disabled controller: arbitrary input produces no events and the
/// resolver leaves every transform untouched.
#[test]
fn disabled_controller_is_inert() {
    let mut c = FpsCameraController::default();
    c.enabled = false;
    let motions = vec![Vec2::new(9_999_999, -123_456)];
    let mut keys = no_keys();
    keys.forward = true;
    keys.down = true;
    let events = default_input_map(&vec![c], &motions, &keys);
    assert!(events.is_empty());
    let t = LookTransform::new(Vec3::new(0, 0, 5_000_000), Vec3::zero());
    let mut transforms = vec![t];
    let fake = vec![ControlEvent::TranslateEye(Vec3::new(1_000_000, 0, 0))];
    control_system(&vec![c], &mut transforms, &fake);
    assert_eq!(transforms[0], t);
}

/// Forward translation moves the eye toward the target along -z and the
/// target is re-derived to preserve the pre-frame radius, so flying
/// forward carries the target with the eye.
#[test]
fn forward_translation_moves_eye_toward_target() {
    let c = FpsCameraController::default();
    let t = LookTransform::new(Vec3::new(0, 0, 5_000_000), Vec3::zero());
    let mut transforms = vec![t];
    let events = vec![ControlEvent::TranslateEye(Vec3::new(0, 0, 1_000_000))];
    control_system(&vec![c], &mut transforms, &events);
    assert_eq!(transforms[0].eye, Vec3::new(0, 0, 4_000_000));
    assert_eq!(transforms[0].target, Vec3::new(0, 0, -1_000_000));
    assert_eq!(transforms[0].radius(), 5_000_000);
}

/// The radius survives any number of view-axis moves: the camera never
/// dollies into its own target and snaps around.
#[test]
fn radius_is_preserved_across_frames() {
    let c = FpsCameraController::default();
    let t = LookTransform::new(Vec3::new(0, 0, 5_000_000), Vec3::zero());
    let mut transforms = vec![t];
    let events = vec![ControlEvent::TranslateEye(Vec3::new(0, 0, 2_000_000))];
    for _ in 0..6 {
        control_system(&vec![c], &mut transforms, &events);
        assert_eq!(transforms[0].radius(), 5_000_000);
    }
    // Six forward steps of 2 units: the eye has crossed the old target and
    // kept looking the same way.
    assert_eq!(transforms[0].eye, Vec3::new(0, 0, -7_000_000));
    assert_eq!(transforms[0].target, Vec3::new(0, 0, -12_000_000));
}

/// A frame whose only event is a zero rotation leaves the eye untouched
/// and moves the target only by the fixed-point tolerance of the angle
/// round trip.
#[test]
fn zero_rotation_frame_is_almost_fixed() {
    let c = FpsCameraController::default();
    let t = LookTransform::new(
        Vec3::new(0, 0, 5_000_000),
        Vec3::new(2_000_000, 1_000_000, 0),
    );
    let mut transforms = vec![t];
    let events = vec![ControlEvent::Rotate(Vec2::new(0, 0))];
    control_system(&vec![c], &mut transforms, &events);
    assert_eq!(transforms[0].eye, t.eye);
    assert!((transforms[0].target.x - t.target.x).abs() <= 5_000);
    assert!((transforms[0].target.y - t.target.y).abs() <= 5_000);
    assert!((transforms[0].target.z - t.target.z).abs() <= 5_000);
}

/// Rotating with a positive pointer-x delta yaws by the negated delta.
#[test]
fn rotation_negates_pointer_deltas() {
    let c = FpsCameraController::default();
    let t = LookTransform::new(Vec3::new(0, 0, 5_000_000), Vec3::zero());
    let mut transforms = vec![t];
    let events = vec![ControlEvent::Rotate(Vec2::new(10_000, 0))];
    control_system(&vec![c], &mut transforms, &events);
    // Eye stays; the target swings: yaw went from pi to pi - 0.01.
    assert_eq!(transforms[0].eye, Vec3::new(0, 0, 5_000_000));
    assert_eq!(transforms[0].target, Vec3::new(50_000, 0, 250));
}

#[test]
fn degenerate_transform_skips_frame() {
    let c = FpsCameraController::default();
    let t = LookTransform::new(Vec3::new(7, 7, 7), Vec3::new(7, 7, 7));
    let mut transforms = vec![t];
    let events = vec![ControlEvent::Rotate(Vec2::new(10_000, 0))];
    control_system(&vec![c], &mut transforms, &events);
    assert_eq!(transforms[0], t);
}

#[test]
fn only_first_enabled_camera_moves() {
    let c = FpsCameraController::default();
    let a = LookTransform::new(Vec3::new(0, 0, 5_000_000), Vec3::zero());
    let b = LookTransform::new(Vec3::new(0, 0, 9_000_000), Vec3::zero());
    let mut transforms = vec![a, b];
    let events = vec![ControlEvent::TranslateEye(Vec3::new(0, 0, 1_000_000))];
    control_system(&vec![c, c], &mut transforms, &events);
    assert_eq!(transforms[0].eye, Vec3::new(0, 0, 4_000_000));
    assert_eq!(transforms[1], b);
}
