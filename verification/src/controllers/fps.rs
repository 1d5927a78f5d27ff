//! First-person camera controller.
//!
//! The input mapper turns one frame's raw signals into an ordered event
//! list: one `Rotate` from the accumulated pointer motion (always emitted,
//! a zero rotation is a no-op), then one `TranslateEye` per held
//! directional key.  The resolver folds the events over the active
//! transform: rotations adjust yaw/pitch with negated deltas; translations
//! move the eye in a yaw-only basis computed once from the pre-frame yaw,
//! so every translation this frame shares one reference frame.  Afterwards
//! the target is re-derived as `eye + radius * unit_vector(angles)`,
//! with the radius captured before the frame's events move the eye.

use vstd::prelude::*;
use crate::fixed::{
    SCALE,
    COORD_LIMIT,
    INPUT_LIMIT,
    SENS_LIMIT,
    EVENT_LIMIT,
    MAX_SIGNALS,
    MAX_FRAME_EVENTS,
    fix_abs,
    mul_fix,
    fmul,
    lemma_mul_fix_bound,
};
use crate::trig::{TRIG_BOUND, PI_FIX, sin_fix, cos_fix, asin_fix, sin_x, cos_x};
use crate::vectors::{Vec2, Vec3, vec2_within, vec3_within};
use crate::angles::{LookAngles, DIR_BOUND, clamp_pitch_s, yaw_of_s, dir_x_s, dir_y_s, dir_z_s};
use crate::transform::LookTransform;
use crate::smoothing::ConfigError;

verus! {

/// Configuration of one first-person camera.
#[derive(Clone, Copy, PartialEq, Eq, Structural, Debug)]
pub struct FpsCameraController {
    pub enabled: bool,
    pub mouse_rotate_sensitivity: Vec2,
    pub translate_sensitivity: i64,
    pub smoothing_weight: i64,
}

impl FpsCameraController {
    /// Sensitivities non-negative and bounded, weight in `[0, 1)`.
    pub open spec fn valid(self) -> bool {
        &&& 0 <= self.mouse_rotate_sensitivity.x <= SENS_LIMIT
        &&& 0 <= self.mouse_rotate_sensitivity.y <= SENS_LIMIT
        &&& 0 <= self.translate_sensitivity <= SENS_LIMIT
        &&& 0 <= self.smoothing_weight < SCALE
    }

    /// Runtime check of `valid`, for callers whose configuration may have
    /// been edited through the public fields since construction.
    pub fn is_valid(&self) -> (r: bool)
        ensures
            r == self.valid(),
    {
        0 <= self.mouse_rotate_sensitivity.x && self.mouse_rotate_sensitivity.x <= SENS_LIMIT
            && 0 <= self.mouse_rotate_sensitivity.y && self.mouse_rotate_sensitivity.y
            <= SENS_LIMIT && 0 <= self.translate_sensitivity && self.translate_sensitivity
            <= SENS_LIMIT && 0 <= self.smoothing_weight && self.smoothing_weight < SCALE
    }

    /// Build a configuration, rejecting an out-of-range smoothing weight
    /// or sensitivity rather than clamping it.
    pub fn new(
        enabled: bool,
        mouse_rotate_sensitivity: Vec2,
        translate_sensitivity: i64,
        smoothing_weight: i64,
    ) -> (r: Result<FpsCameraController, ConfigError>)
        ensures
            r matches Ok(c) ==> c == (FpsCameraController {
                enabled,
                mouse_rotate_sensitivity,
                translate_sensitivity,
                smoothing_weight,
            }) && c.valid(),
            !(0 <= smoothing_weight < SCALE) ==> r == Err::<
                FpsCameraController,
                ConfigError,
            >(ConfigError::InvalidWeight),
            0 <= smoothing_weight < SCALE && !(0 <= mouse_rotate_sensitivity.x <= SENS_LIMIT && 0
                <= mouse_rotate_sensitivity.y <= SENS_LIMIT && 0 <= translate_sensitivity
                <= SENS_LIMIT) ==> r == Err::<FpsCameraController, ConfigError>(
                ConfigError::InvalidSensitivity,
            ),
            r is Ok <==> (FpsCameraController {
                enabled,
                mouse_rotate_sensitivity,
                translate_sensitivity,
                smoothing_weight,
            }).valid(),
    {
        if smoothing_weight < 0 || smoothing_weight >= SCALE {
            Err(ConfigError::InvalidWeight)
        } else if mouse_rotate_sensitivity.x < 0 || mouse_rotate_sensitivity.x > SENS_LIMIT
            || mouse_rotate_sensitivity.y < 0 || mouse_rotate_sensitivity.y > SENS_LIMIT
            || translate_sensitivity < 0 || translate_sensitivity > SENS_LIMIT {
            Err(ConfigError::InvalidSensitivity)
        } else {
            Ok(
                FpsCameraController {
                    enabled,
                    mouse_rotate_sensitivity,
                    translate_sensitivity,
                    smoothing_weight,
                },
            )
        }
    }
}

impl Default for FpsCameraController {
    /// Enabled, rotate sensitivity 0.002, translate sensitivity 0.5,
    /// smoothing weight 0.9.
    fn default() -> (r: FpsCameraController)
        ensures
            r == (FpsCameraController {
                enabled: true,
                mouse_rotate_sensitivity: Vec2 { x: 2_000i64, y: 2_000i64 },
                translate_sensitivity: 500_000i64,
                smoothing_weight: 900_000i64,
            }),
            r.valid(),
    {
        FpsCameraController {
            enabled: true,
            mouse_rotate_sensitivity: Vec2 { x: 2_000, y: 2_000 },
            translate_sensitivity: 500_000,
            smoothing_weight: 900_000,
        }
    }
}

/// One frame's semantic control events.
#[derive(Clone, Copy, PartialEq, Eq, Structural, Debug)]
pub enum ControlEvent {
    Rotate(Vec2),
    TranslateEye(Vec3),
}

/// Magnitude bound on the payload of an event.
pub open spec fn event_within(ev: ControlEvent, bound: int) -> bool {
    match ev {
        ControlEvent::Rotate(d) => vec2_within(d, bound),
        ControlEvent::TranslateEye(d) => vec3_within(d, bound),
    }
}

/// Held state of the six directional keys.
#[derive(Clone, Copy, PartialEq, Eq, Structural, Debug)]
pub struct FpsKeyState {
    /// W: toward the view direction.
    pub forward: bool,
    /// A: along the local `+x` axis.
    pub left: bool,
    /// S: away from the view direction.
    pub backward: bool,
    /// D: along the local `-x` axis.
    pub right: bool,
    /// Shift: world-down.
    pub down: bool,
    /// Space: world-up.
    pub up: bool,
}

/// Index of the first enabled controller, if any: only one camera is
/// controlled per frame.
pub open spec fn first_enabled_s(cs: Seq<FpsCameraController>) -> Option<int>
    decreases cs.len(),
{
    if cs.len() == 0 {
        None
    } else if cs[0].enabled {
        Some(0int)
    } else {
        match first_enabled_s(cs.subrange(1, cs.len() as int)) {
            Some(i) => Some(i + 1),
            None => None,
        }
    }
}

/// `first_enabled_s` picks exactly the first enabled entry.
pub proof fn lemma_first_enabled(cs: Seq<FpsCameraController>)
    ensures
        match first_enabled_s(cs) {
            Some(i) => 0 <= i < cs.len() && cs[i].enabled && (forall|j: int|
                0 <= j < i ==> !(#[trigger] cs[j]).enabled),
            None => forall|j: int| 0 <= j < cs.len() ==> !(#[trigger] cs[j]).enabled,
        },
    decreases cs.len(),
{
    if cs.len() > 0 && !cs[0].enabled {
        let tail = cs.subrange(1, cs.len() as int);
        lemma_first_enabled(tail);
        match first_enabled_s(tail) {
            Some(i) => {
                assert(tail[i] == cs[i + 1]);
                assert forall|j: int| 0 <= j < i + 1 implies !(#[trigger] cs[j]).enabled by {
                    if j > 0 {
                        assert(tail[j - 1] == cs[j]);
                    }
                }
            },
            None => {
                assert forall|j: int| 0 <= j < cs.len() implies !(#[trigger] cs[j]).enabled by {
                    if j > 0 {
                        assert(tail[j - 1] == cs[j]);
                    }
                }
            },
        }
    }
}

/// First enabled controller in iteration order, or nothing.
pub fn active_index(controllers: &Vec<FpsCameraController>) -> (r: Option<usize>)
    ensures
        r is None <==> first_enabled_s(controllers@) is None,
        r matches Some(i) ==> first_enabled_s(controllers@) == Some(i as int),
{
    proof {
        lemma_first_enabled(controllers@);
    }
    let mut i: usize = 0;
    while i < controllers.len()
        invariant
            i <= controllers@.len(),
            forall|j: int| 0 <= j < i ==> !(#[trigger] controllers@[j]).enabled,
            match first_enabled_s(controllers@) {
                Some(k) => 0 <= k < controllers@.len() && controllers@[k].enabled && (forall|j: int|
                    0 <= j < k ==> !(#[trigger] controllers@[j]).enabled),
                None => forall|j: int| 0 <= j < controllers@.len() ==> !(#[trigger] controllers@[j]).enabled,
            },
        decreases controllers@.len() - i,
    {
        if controllers[i].enabled {
            return Some(i);
        }
        i += 1;
    }
    None
}

/// Sum of one frame's pointer motions.
pub open spec fn cursor_sum_s(ms: Seq<Vec2>) -> (int, int)
    decreases ms.len(),
{
    if ms.len() == 0 {
        (0int, 0int)
    } else {
        let rest = cursor_sum_s(ms.drop_last());
        (rest.0 + ms.last().x as int, rest.1 + ms.last().y as int)
    }
}

/// The one rotation event of a frame: sensitivity times summed cursor
/// motion, component-wise.
pub open spec fn fps_rotate_s(c: FpsCameraController, cx: int, cy: int) -> ControlEvent {
    ControlEvent::Rotate(
        Vec2 {
            x: mul_fix(c.mouse_rotate_sensitivity.x as int, cx) as i64,
            y: mul_fix(c.mouse_rotate_sensitivity.y as int, cy) as i64,
        },
    )
}

/// One translation event per held key, in the fixed key order
/// forward, left, backward, right, down, up.
pub open spec fn fps_key_events_s(c: FpsCameraController, k: FpsKeyState) -> Seq<ControlEvent> {
    let s = c.translate_sensitivity;
    let n = (-(s as int)) as i64;
    (if k.forward {
        seq![ControlEvent::TranslateEye(Vec3 { x: 0i64, y: 0i64, z: s })]
    } else {
        Seq::<ControlEvent>::empty()
    }) + (if k.left {
        seq![ControlEvent::TranslateEye(Vec3 { x: s, y: 0i64, z: 0i64 })]
    } else {
        Seq::<ControlEvent>::empty()
    }) + (if k.backward {
        seq![ControlEvent::TranslateEye(Vec3 { x: 0i64, y: 0i64, z: n })]
    } else {
        Seq::<ControlEvent>::empty()
    }) + (if k.right {
        seq![ControlEvent::TranslateEye(Vec3 { x: n, y: 0i64, z: 0i64 })]
    } else {
        Seq::<ControlEvent>::empty()
    }) + (if k.down {
        seq![ControlEvent::TranslateEye(Vec3 { x: 0i64, y: n, z: 0i64 })]
    } else {
        Seq::<ControlEvent>::empty()
    }) + (if k.up {
        seq![ControlEvent::TranslateEye(Vec3 { x: 0i64, y: s, z: 0i64 })]
    } else {
        Seq::<ControlEvent>::empty()
    })
}

/// The whole frame: the rotation first, then the translations.
pub open spec fn fps_events_s(c: FpsCameraController, cx: int, cy: int, k: FpsKeyState) -> Seq<
    ControlEvent,
> {
    seq![fps_rotate_s(c, cx, cy)] + fps_key_events_s(c, k)
}

/// Map one frame's raw input to control events for the first enabled
/// controller; with none enabled the frame maps to no events at all.
pub fn default_input_map(
    controllers: &Vec<FpsCameraController>,
    mouse_motions: &Vec<Vec2>,
    keys: &FpsKeyState,
) -> (r: Vec<ControlEvent>)
    requires
        forall|i: int| 0 <= i < controllers@.len() ==> (#[trigger] controllers@[i]).valid(),
        mouse_motions@.len() <= MAX_SIGNALS,
        forall|i: int|
            0 <= i < mouse_motions@.len() ==> vec2_within(
                #[trigger] mouse_motions@[i],
                INPUT_LIMIT as int,
            ),
    ensures
        first_enabled_s(controllers@) is None ==> r@ == Seq::<ControlEvent>::empty(),
        first_enabled_s(controllers@) matches Some(i) ==> r@ == fps_events_s(
            controllers@[i],
            cursor_sum_s(mouse_motions@).0,
            cursor_sum_s(mouse_motions@).1,
            *keys,
        ),
        r@.len() <= 7,
        forall|j: int| 0 <= j < r@.len() ==> event_within(#[trigger] r@[j], EVENT_LIMIT as int),
{
    proof {
        lemma_first_enabled(controllers@);
    }
    let active: usize = match active_index(controllers) {
        Some(i) => i,
        None => {
            return Vec::new();
        },
    };
    let c: FpsCameraController = controllers[active];
    let mut sx: i64 = 0;
    let mut sy: i64 = 0;
    let mut i: usize = 0;
    while i < mouse_motions.len()
        invariant
            i <= mouse_motions@.len(),
            mouse_motions@.len() <= MAX_SIGNALS,
            forall|j: int|
                0 <= j < mouse_motions@.len() ==> vec2_within(
                    #[trigger] mouse_motions@[j],
                    INPUT_LIMIT as int,
                ),
            (sx as int, sy as int) == cursor_sum_s(mouse_motions@.subrange(0, i as int)),
            fix_abs(sx as int) <= i * (INPUT_LIMIT as int),
            fix_abs(sy as int) <= i * (INPUT_LIMIT as int),
        decreases mouse_motions@.len() - i,
    {
        let m: Vec2 = mouse_motions[i];
        sx = sx + m.x;
        sy = sy + m.y;
        proof {
            assert(mouse_motions@.subrange(0, i + 1 as int).drop_last() =~= mouse_motions@.subrange(
                0,
                i as int,
            ));
        }
        i += 1;
    }
    proof {
        assert(mouse_motions@.subrange(0, mouse_motions@.len() as int) =~= mouse_motions@);
        lemma_mul_fix_bound(
            c.mouse_rotate_sensitivity.x as int,
            sx as int,
            SENS_LIMIT as int,
            1_000_000_000_000,
        );
        lemma_mul_fix_bound(
            c.mouse_rotate_sensitivity.y as int,
            sy as int,
            SENS_LIMIT as int,
            1_000_000_000_000,
        );
    }
    let mut r: Vec<ControlEvent> = Vec::new();
    r.push(
        ControlEvent::Rotate(
            Vec2 { x: fmul(c.mouse_rotate_sensitivity.x, sx), y: fmul(c.mouse_rotate_sensitivity.y, sy) },
        ),
    );
    let s: i64 = c.translate_sensitivity;
    if keys.forward {
        r.push(ControlEvent::TranslateEye(Vec3 { x: 0, y: 0, z: s }));
    }
    if keys.left {
        r.push(ControlEvent::TranslateEye(Vec3 { x: s, y: 0, z: 0 }));
    }
    if keys.backward {
        r.push(ControlEvent::TranslateEye(Vec3 { x: 0, y: 0, z: -s }));
    }
    if keys.right {
        r.push(ControlEvent::TranslateEye(Vec3 { x: -s, y: 0, z: 0 }));
    }
    if keys.down {
        r.push(ControlEvent::TranslateEye(Vec3 { x: 0, y: -s, z: 0 }));
    }
    if keys.up {
        r.push(ControlEvent::TranslateEye(Vec3 { x: 0, y: s, z: 0 }));
    }
    proof {
        assert(r@ =~= fps_events_s(c, sx as int, sy as int, *keys));
    }
    r
}

/// One resolver step over the ghost state
/// `(eye.x, eye.y, eye.z, pitch, yaw)`; translations use the yaw-only
/// basis of the pre-frame yaw `y0`.
pub open spec fn fps_step_s(st: (int, int, int, int, int), y0: int, ev: ControlEvent) -> (
    int,
    int,
    int,
    int,
    int,
) {
    match ev {
        ControlEvent::Rotate(d) => (
            st.0,
            st.1,
            st.2,
            clamp_pitch_s(st.3 - d.y as int),
            st.4 - d.x as int,
        ),
        ControlEvent::TranslateEye(d) => (
            st.0 + mul_fix(d.x as int, cos_fix(y0)) + mul_fix(d.z as int, sin_fix(y0)),
            st.1 + d.y as int,
            st.2 + mul_fix(d.x as int, -sin_fix(y0)) + mul_fix(d.z as int, cos_fix(y0)),
            st.3,
            st.4,
        ),
    }
}

/// The events of a frame folded in arrival order.
pub open spec fn fps_fold_s(
    st: (int, int, int, int, int),
    y0: int,
    evs: Seq<ControlEvent>,
) -> (int, int, int, int, int)
    decreases evs.len(),
{
    if evs.len() == 0 {
        st
    } else {
        fps_step_s(fps_fold_s(st, y0, evs.drop_last()), y0, evs.last())
    }
}

/// The transform a frame of events resolves to.  A transform whose eye and
/// target coincide has no direction, so the frame is skipped.  Otherwise
/// angles come from the current direction, the events are folded, and the
/// target is re-derived from the moved eye, the final angles and the
/// pre-frame radius — the radius is captured before any event moves the
/// eye, so flying along the view axis carries the target with the eye
/// instead of shrinking the orbit toward it.
pub open spec fn fps_resolve_s(t: LookTransform, evs: Seq<ControlEvent>) -> LookTransform {
    if t.eye == t.target {
        t
    } else {
        let p0 = clamp_pitch_s(asin_fix(t.look_y_s()));
        let y0 = yaw_of_s(t.look_x_s(), t.look_z_s());
        let st = fps_fold_s((t.eye.x as int, t.eye.y as int, t.eye.z as int, p0, y0), y0, evs);
        let rad = t.radius_s();
        LookTransform {
            eye: Vec3 { x: st.0 as i64, y: st.1 as i64, z: st.2 as i64 },
            target: Vec3 {
                x: (st.0 + mul_fix(rad, dir_x_s(st.3, st.4))) as i64,
                y: (st.1 + mul_fix(rad, dir_y_s(st.3, st.4))) as i64,
                z: (st.2 + mul_fix(rad, dir_z_s(st.3, st.4))) as i64,
            },
        }
    }
}

/// Resolve one frame of events against one transform.
pub fn resolve_frame(transform: &mut LookTransform, events: &Vec<ControlEvent>)
    requires
        vec3_within(old(transform).eye, COORD_LIMIT as int),
        vec3_within(old(transform).target, COORD_LIMIT as int),
        events@.len() <= MAX_FRAME_EVENTS,
        forall|j: int| 0 <= j < events@.len() ==> event_within(#[trigger] events@[j], EVENT_LIMIT as int),
    ensures
        *final (transform) == fps_resolve_s(*old(transform), events@),
{
    let dir_opt: Option<Vec3> = transform.look_direction();
    let v: Vec3 = match dir_opt {
        Some(v) => v,
        None => {
            return ;
        },
    };
    let rad: i64 = transform.radius();
    let mut la: LookAngles = LookAngles::from_vector(&v);
    let y0: i64 = la.get_yaw();
    let cy0: i64 = cos_x(y0);
    let sy0: i64 = sin_x(y0);
    let ghost init: (int, int, int, int, int) = (
        transform.eye.x as int,
        transform.eye.y as int,
        transform.eye.z as int,
        la.pitch_s(),
        la.yaw_s(),
    );
    let mut ex: i64 = transform.eye.x;
    let mut ey: i64 = transform.eye.y;
    let mut ez: i64 = transform.eye.z;
    let mut i: usize = 0;
    while i < events.len()
        invariant
            i <= events@.len(),
            events@.len() <= MAX_FRAME_EVENTS,
            forall|j: int|
                0 <= j < events@.len() ==> event_within(#[trigger] events@[j], EVENT_LIMIT as int),
            la.wf(),
            init.3 == clamp_pitch_s(init.3),
            fix_abs(init.4) <= PI_FIX as int,
            y0 as int == init.4,
            cy0 as int == cos_fix(y0 as int),
            sy0 as int == sin_fix(y0 as int),
            fix_abs(cy0 as int) <= TRIG_BOUND as int,
            fix_abs(sy0 as int) <= TRIG_BOUND as int,
            fps_fold_s(init, y0 as int, events@.subrange(0, i as int)) == (
                ex as int,
                ey as int,
                ez as int,
                la.pitch_s(),
                la.yaw_s(),
            ),
            fix_abs(ex as int) <= COORD_LIMIT as int + i * 10_000_000_000_000_000,
            fix_abs(ey as int) <= COORD_LIMIT as int + i * 10_000_000_000_000_000,
            fix_abs(ez as int) <= COORD_LIMIT as int + i * 10_000_000_000_000_000,
            fix_abs(la.yaw_s()) <= PI_FIX as int + i * (EVENT_LIMIT as int),
        decreases events@.len() - i,
    {
        let ev: ControlEvent = events[i];
        match ev {
            ControlEvent::Rotate(d) => {
                la.add_yaw(-d.x);
                la.add_pitch(-d.y);
            },
            ControlEvent::TranslateEye(d) => {
                proof {
                    lemma_mul_fix_bound(d.x as int, cy0 as int, EVENT_LIMIT as int, TRIG_BOUND as int);
                    lemma_mul_fix_bound(d.x as int, -(sy0 as int), EVENT_LIMIT as int, TRIG_BOUND as int);
                    lemma_mul_fix_bound(d.z as int, sy0 as int, EVENT_LIMIT as int, TRIG_BOUND as int);
                    lemma_mul_fix_bound(d.z as int, cy0 as int, EVENT_LIMIT as int, TRIG_BOUND as int);
                }
                ex = ex + fmul(d.x, cy0) + fmul(d.z, sy0);
                ey = ey + d.y;
                ez = ez + fmul(d.x, -sy0) + fmul(d.z, cy0);
            },
        }
        proof {
            assert(events@.subrange(0, i + 1 as int).drop_last() =~= events@.subrange(0, i as int));
        }
        i += 1;
    }
    proof {
        assert(events@.subrange(0, events@.len() as int) =~= events@);
    }
    transform.eye = Vec3 { x: ex, y: ey, z: ez };
    let uv: Vec3 = la.unit_vector();
    proof {
        lemma_mul_fix_bound(rad as int, uv.x as int, 4_000_000_000_000_000_000, DIR_BOUND as int);
        lemma_mul_fix_bound(rad as int, uv.y as int, 4_000_000_000_000_000_000, DIR_BOUND as int);
        lemma_mul_fix_bound(rad as int, uv.z as int, 4_000_000_000_000_000_000, DIR_BOUND as int);
    }
    transform.target = Vec3 {
        x: ex + fmul(rad, uv.x),
        y: ey + fmul(rad, uv.y),
        z: ez + fmul(rad, uv.z),
    };
}

/// Apply one frame of events to the first enabled camera; every other
/// transform — and, with no enabled camera, every transform — is left
/// untouched.
pub fn control_system(
    controllers: &Vec<FpsCameraController>,
    transforms: &mut Vec<LookTransform>,
    events: &Vec<ControlEvent>,
)
    requires
        old(transforms)@.len() == controllers@.len(),
        forall|i: int|
            0 <= i < old(transforms)@.len() ==> vec3_within(
                (#[trigger] old(transforms)@[i]).eye,
                COORD_LIMIT as int,
            ) && vec3_within(old(transforms)@[i].target, COORD_LIMIT as int),
        events@.len() <= MAX_FRAME_EVENTS,
        forall|j: int| 0 <= j < events@.len() ==> event_within(#[trigger] events@[j], EVENT_LIMIT as int),
    ensures
        first_enabled_s(controllers@) is None ==> final (transforms)@ == old(transforms)@,
        first_enabled_s(controllers@) matches Some(i) ==> final (transforms)@ == old(
            transforms,
        )@.update(i, fps_resolve_s(old(transforms)@[i], events@)),
{
    proof {
        lemma_first_enabled(controllers@);
    }
    let active: usize = match active_index(controllers) {
        Some(i) => i,
        None => {
            return ;
        },
    };
    let mut t: LookTransform = transforms[active];
    resolve_frame(&mut t, events);
    transforms.set(active, t);
}

} // verus!
