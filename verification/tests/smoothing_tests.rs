use camera_rig::smoothing::{Smoother, ConfigError};
use camera_rig::transform::LookTransform;
use camera_rig::vectors::Vec3;

fn tf(eye: (i64, i64, i64), target: (i64, i64, i64)) -> LookTransform {
    LookTransform::new(Vec3::new(eye.0, eye.1, eye.2), Vec3::new(target.0, target.1, target.2))
}

#[test]
fn new_rejects_weight_outside_unit_interval() {
    assert_eq!(Smoother::new(-1).unwrap_err(), ConfigError::InvalidWeight);
    assert_eq!(Smoother::new(1_000_000).unwrap_err(), ConfigError::InvalidWeight);
    assert_eq!(Smoother::new(2_000_000).unwrap_err(), ConfigError::InvalidWeight);
    assert!(Smoother::new(0).is_ok());
    assert!(Smoother::new(999_999).is_ok());
}

#[test]
fn first_frame_seeds_with_raw() {
    let mut s = Smoother::new(900_000).unwrap();
    let raw = tf((1_000_000, 2_000_000, 3_000_000), (0, 0, 0));
    let out = s.smooth(&raw);
    assert_eq!(out, raw);
}

/// Weight zero tracks the raw transform instantly on every call.
#[test]
fn weight_zero_has_no_lag() {
    let mut s = Smoother::new(0).unwrap();
    let a = tf((5, 6, 7), (0, 0, 0));
    let b = tf((-3_000_000, 11, 0), (1, 2, 3));
    assert_eq!(s.smooth(&a), a);
    assert_eq!(s.smooth(&b), b);
    assert_eq!(s.smooth(&b), b);
}

#[test]
fn first_smoothing_step_is_exact() {
    // weight 0.9: each frame covers one tenth of the remaining distance,
    // rounded up.
    let mut s = Smoother::new(900_000).unwrap();
    let start = tf((0, 0, 0), (0, 0, 0));
    s.smooth(&start);
    let raw = tf((1_000_000, 0, 0), (0, 0, 0));
    let one = s.smooth(&raw);
    assert_eq!(one.eye.x, 100_000);
    let two = s.smooth(&raw);
    assert_eq!(two.eye.x, 190_000);
}

/// Once raw stops changing, repeated smoothing converges monotonically to
/// raw without ever overshooting.
#[test]
fn convergence_is_monotone_without_overshoot() {
    let mut s = Smoother::new(900_000).unwrap();
    s.smooth(&tf((0, 0, 0), (0, 0, 0)));
    let raw = tf((1_000_000, -250_000, 77), (5, -5, 0));
    let mut err = 1_000_000i64;
    let mut frames = 0u32;
    loop {
        let out = s.smooth(&raw);
        let e = (raw.eye.x - out.eye.x).abs();
        assert!(e <= err, "error grew: {} > {}", e, err);
        assert!(out.eye.x <= raw.eye.x, "overshoot");
        assert!(out.eye.y >= raw.eye.y, "overshoot on a negative axis");
        err = e;
        frames += 1;
        if out == raw {
            break;
        }
        assert!(frames < 400, "did not converge");
    }
    // Converged state is a fixed point.
    assert_eq!(s.smooth(&raw), raw);
}
