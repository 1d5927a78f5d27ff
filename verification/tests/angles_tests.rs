use camera_rig::angles::{LookAngles, PITCH_LIMIT};
use camera_rig::trig::PI_FIX;
use camera_rig::vectors::{Vec2, Vec3};
use camera_rig::transform::LookTransform;

fn approx(a: i64, b: i64, tol: i64) -> bool {
    (a - b).abs() <= tol
}

/// Round trip: for directions away from the poles, reconstructing from the
/// extracted angles lands back on the direction within tolerance.
#[test]
fn round_trip_recovers_direction() {
    let cases = [
        (3_000_000i64, 1_000_000i64, -4_000_000i64),
        (-2_000_000, 500_000, 1_500_000),
        (1_000_000, 0, 0),
        (0, 0, -7_000_000),
        (123_456, -654_321, 999_999),
    ];
    for (x, y, z) in cases {
        let t = LookTransform::new(Vec3::zero(), Vec3::new(x, y, z));
        let d = t.look_direction().expect("nonzero direction");
        let a = LookAngles::from_vector(&d);
        let r = a.unit_vector();
        assert!(approx(r.x, d.x, 2_000), "x: {} vs {}", r.x, d.x);
        assert!(approx(r.y, d.y, 2_000), "y: {} vs {}", r.y, d.y);
        assert!(approx(r.z, d.z, 2_000), "z: {} vs {}", r.z, d.z);
    }
}

#[test]
fn from_vector_straight_back_is_exact() {
    // Looking along -z: pitch 0, yaw a half turn, and the reconstruction
    // is exact in fixed point.
    let a = LookAngles::from_vector(&Vec3::new(0, 0, -1_000_000));
    assert_eq!(a.get_pitch(), 0);
    assert_eq!(a.get_yaw(), PI_FIX);
    let r = a.unit_vector();
    assert_eq!((r.x, r.y, r.z), (0, 0, -1_000_000));
}

/// Yaw accumulation is exactly additive and order-independent.
#[test]
fn add_yaw_is_additive_and_commutative() {
    let mut a = LookAngles::from_vector(&Vec3::new(0, 0, -1_000_000));
    let mut b = a;
    let mut c = a;
    a.add_yaw(123_456);
    a.add_yaw(-789_012);
    b.add_yaw(123_456 - 789_012);
    c.add_yaw(-789_012);
    c.add_yaw(123_456);
    assert_eq!(a.get_yaw(), b.get_yaw());
    assert_eq!(a.get_yaw(), c.get_yaw());
}

/// After any sequence of add_pitch calls the pitch stays inside the guard.
#[test]
fn add_pitch_always_guarded() {
    let mut a = LookAngles::from_vector(&Vec3::new(0, 0, -1_000_000));
    let deltas = [5_000_000i64, -123, -40_000_000, 1, 2_000_000, 77, -9];
    for d in deltas {
        a.add_pitch(d);
        assert!(a.get_pitch().abs() <= PITCH_LIMIT);
    }
    // Driving hard toward the pole parks exactly on the guard.
    a.add_pitch(10_000_000);
    assert_eq!(a.get_pitch(), PITCH_LIMIT);
    a.add_pitch(-90_000_000);
    assert_eq!(a.get_pitch(), -PITCH_LIMIT);
}

#[test]
fn near_pole_direction_is_clamped() {
    // Looking almost straight up: pitch is clamped below a quarter turn.
    let a = LookAngles::from_vector(&Vec3::new(0, 1_000_000, 0));
    assert_eq!(a.get_pitch(), PITCH_LIMIT);
    assert_eq!(a.get_yaw(), 0);
}

/// The pitch guard is visible in the reconstructed direction: even driven
/// hard toward the pole, the direction keeps a nonzero horizontal
/// component, so the yaw stays meaningful.
#[test]
fn guarded_pitch_never_reconstructs_straight_up() {
    let mut a = LookAngles::from_vector(&Vec3::new(0, 0, 1_000_000));
    a.add_pitch(50_000_000);
    assert_eq!(a.get_pitch(), PITCH_LIMIT);
    let r = a.unit_vector();
    // cos of the guard margin (0.001 rad) times the yaw direction: the
    // horizontal part survives exactly.
    assert_eq!(r.z, 1_000);
    assert!(r.x == 0 && r.y > 0);
}

#[test]
fn set_pitch_clamps_and_keeps_yaw() {
    let mut a = LookAngles::from_vector(&Vec3::new(0, 0, -1_000_000));
    a.set_pitch(2_000_000);
    assert_eq!(a.get_pitch(), PITCH_LIMIT);
    assert_eq!(a.get_yaw(), PI_FIX);
    a.set_pitch(-300_000);
    assert_eq!(a.get_pitch(), -300_000);
}

#[test]
fn look_direction_none_when_degenerate() {
    let t = LookTransform::new(Vec3::new(5, 5, 5), Vec3::new(5, 5, 5));
    assert!(t.look_direction().is_none());
    assert_eq!(t.radius(), 0);
}

#[test]
fn radius_is_floor_of_distance() {
    let t = LookTransform::new(Vec3::zero(), Vec3::new(3_000_000, 4_000_000, 0));
    assert_eq!(t.radius(), 5_000_000);
    let u = LookTransform::new(Vec3::zero(), Vec3::new(1, 1, 1));
    assert_eq!(u.radius(), 1);
    let _ = Vec2::new(0, 0);
}
