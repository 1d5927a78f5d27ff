//! Unreal-editor-style camera controller.
//!
//! The input mapper merges pointer motion, wheel motion, mouse-button
//! chords and six keys into at most three events, in the fixed order
//! `Rotate`, `TranslateEye`, `Locomotion`; zero pan or locomotion vectors
//! are suppressed.  While any button is held the wheel retunes the
//! keyboard-movement sensitivity, floored at 0.01 (and capped at
//! `KMS_LIMIT` so it stays in machine range).  The resolver applies the
//! events in order: locomotion moves along the frame's initial view
//! direction and yaws; rotation adjusts yaw/pitch; panning moves in the
//! local horizontal plane of the current yaw.  The target is then
//! re-derived as `eye + radius * unit_vector(angles)`, with the radius
//! captured before the frame's events move the eye.

use vstd::prelude::*;
use crate::fixed::{
    SCALE,
    COORD_LIMIT,
    INPUT_LIMIT,
    SENS_LIMIT,
    EVENT_LIMIT,
    MAX_SIGNALS,
    MAX_FRAME_EVENTS,
    fix_abs,
    mul_fix,
    fmul,
    lemma_mul_fix_bound,
};
use crate::trig::{TRIG_BOUND, PI_FIX, sin_fix, cos_fix, asin_fix, sin_x, cos_x};
use crate::vectors::{Vec2, Vec3, vec2_within, vec3_within};
use crate::angles::{LookAngles, DIR_BOUND, clamp_pitch_s, yaw_of_s, dir_x_s, dir_y_s, dir_z_s};
use crate::transform::LookTransform;
use crate::smoothing::ConfigError;
use crate::controllers::fps::cursor_sum_s;

verus! {

/// Cap on the adaptive keyboard-movement sensitivity, so a frame's events
/// stay within `EVENT_LIMIT`.
pub const KMS_LIMIT: i64 = 1_000_000_000_000_000;

/// Floor under the adaptive keyboard-movement sensitivity (0.01).
pub const KMS_FLOOR: i64 = 10_000;

/// Configuration of one Unreal-style camera; only
/// `keyboard_mvmt_sensitivity` mutates at runtime.
#[derive(Clone, Copy, PartialEq, Eq, Structural, Debug)]
pub struct UnrealCameraController {
    pub enabled: bool,
    pub rotate_sensitivity: Vec2,
    pub mouse_translate_sensitivity: Vec2,
    pub wheel_translate_sensitivity: i64,
    pub keyboard_mvmt_sensitivity: i64,
    pub keyboard_mvmt_wheel_sensitivity: i64,
    pub smoothing_weight: i64,
}

impl UnrealCameraController {
    pub open spec fn valid(self) -> bool {
        &&& 0 <= self.rotate_sensitivity.x <= SENS_LIMIT
        &&& 0 <= self.rotate_sensitivity.y <= SENS_LIMIT
        &&& 0 <= self.mouse_translate_sensitivity.x <= SENS_LIMIT
        &&& 0 <= self.mouse_translate_sensitivity.y <= SENS_LIMIT
        &&& 0 <= self.wheel_translate_sensitivity <= SENS_LIMIT
        &&& 0 <= self.keyboard_mvmt_sensitivity <= KMS_LIMIT
        &&& 0 <= self.keyboard_mvmt_wheel_sensitivity <= SENS_LIMIT
        &&& 0 <= self.smoothing_weight < SCALE
    }

    /// Runtime check of `valid`, for callers whose configuration may have
    /// been edited through the public fields since construction.
    pub fn is_valid(&self) -> (r: bool)
        ensures
            r == self.valid(),
    {
        0 <= self.rotate_sensitivity.x && self.rotate_sensitivity.x <= SENS_LIMIT
            && 0 <= self.rotate_sensitivity.y && self.rotate_sensitivity.y <= SENS_LIMIT
            && 0 <= self.mouse_translate_sensitivity.x && self.mouse_translate_sensitivity.x
            <= SENS_LIMIT && 0 <= self.mouse_translate_sensitivity.y
            && self.mouse_translate_sensitivity.y <= SENS_LIMIT
            && 0 <= self.wheel_translate_sensitivity && self.wheel_translate_sensitivity
            <= SENS_LIMIT && 0 <= self.keyboard_mvmt_sensitivity && self.keyboard_mvmt_sensitivity
            <= KMS_LIMIT && 0 <= self.keyboard_mvmt_wheel_sensitivity
            && self.keyboard_mvmt_wheel_sensitivity <= SENS_LIMIT && 0 <= self.smoothing_weight
            && self.smoothing_weight < SCALE
    }

    /// Build a configuration, rejecting an out-of-range smoothing weight
    /// or sensitivity rather than clamping it.
    pub fn new(
        enabled: bool,
        rotate_sensitivity: Vec2,
        mouse_translate_sensitivity: Vec2,
        wheel_translate_sensitivity: i64,
        keyboard_mvmt_sensitivity: i64,
        keyboard_mvmt_wheel_sensitivity: i64,
        smoothing_weight: i64,
    ) -> (r: Result<UnrealCameraController, ConfigError>)
        ensures
            r matches Ok(c) ==> c == (UnrealCameraController {
                enabled,
                rotate_sensitivity,
                mouse_translate_sensitivity,
                wheel_translate_sensitivity,
                keyboard_mvmt_sensitivity,
                keyboard_mvmt_wheel_sensitivity,
                smoothing_weight,
            }) && c.valid(),
            !(0 <= smoothing_weight < SCALE) ==> r == Err::<
                UnrealCameraController,
                ConfigError,
            >(ConfigError::InvalidWeight),
            r is Ok <==> (UnrealCameraController {
                enabled,
                rotate_sensitivity,
                mouse_translate_sensitivity,
                wheel_translate_sensitivity,
                keyboard_mvmt_sensitivity,
                keyboard_mvmt_wheel_sensitivity,
                smoothing_weight,
            }).valid(),
            r is Err ==> r == Err::<UnrealCameraController, ConfigError>(
                ConfigError::InvalidWeight,
            ) || r == Err::<UnrealCameraController, ConfigError>(ConfigError::InvalidSensitivity),
    {
        if smoothing_weight < 0 || smoothing_weight >= SCALE {
            Err(ConfigError::InvalidWeight)
        } else if rotate_sensitivity.x < 0 || rotate_sensitivity.x > SENS_LIMIT
            || rotate_sensitivity.y < 0 || rotate_sensitivity.y > SENS_LIMIT
            || mouse_translate_sensitivity.x < 0 || mouse_translate_sensitivity.x > SENS_LIMIT
            || mouse_translate_sensitivity.y < 0 || mouse_translate_sensitivity.y > SENS_LIMIT
            || wheel_translate_sensitivity < 0 || wheel_translate_sensitivity > SENS_LIMIT
            || keyboard_mvmt_sensitivity < 0 || keyboard_mvmt_sensitivity > KMS_LIMIT
            || keyboard_mvmt_wheel_sensitivity < 0 || keyboard_mvmt_wheel_sensitivity > SENS_LIMIT {
            Err(ConfigError::InvalidSensitivity)
        } else {
            Ok(
                UnrealCameraController {
                    enabled,
                    rotate_sensitivity,
                    mouse_translate_sensitivity,
                    wheel_translate_sensitivity,
                    keyboard_mvmt_sensitivity,
                    keyboard_mvmt_wheel_sensitivity,
                    smoothing_weight,
                },
            )
        }
    }
}

impl Default for UnrealCameraController {
    /// Enabled, rotate 0.002, mouse-translate 0.02, wheel-translate 1.0,
    /// keyboard movement 0.1 retuned by the wheel at 0.1, weight 0.7.
    fn default() -> (r: UnrealCameraController)
        ensures
            r == (UnrealCameraController {
                enabled: true,
                rotate_sensitivity: Vec2 { x: 2_000i64, y: 2_000i64 },
                mouse_translate_sensitivity: Vec2 { x: 20_000i64, y: 20_000i64 },
                wheel_translate_sensitivity: 1_000_000i64,
                keyboard_mvmt_sensitivity: 100_000i64,
                keyboard_mvmt_wheel_sensitivity: 100_000i64,
                smoothing_weight: 700_000i64,
            }),
            r.valid(),
    {
        UnrealCameraController {
            enabled: true,
            rotate_sensitivity: Vec2 { x: 2_000, y: 2_000 },
            mouse_translate_sensitivity: Vec2 { x: 20_000, y: 20_000 },
            wheel_translate_sensitivity: 1_000_000,
            keyboard_mvmt_sensitivity: 100_000,
            keyboard_mvmt_wheel_sensitivity: 100_000,
            smoothing_weight: 700_000,
        }
    }
}

/// One frame's semantic control events.
#[derive(Clone, Copy, PartialEq, Eq, Structural, Debug)]
pub enum ControlEvent {
    /// Forward/back motion along the view axis plus a yaw rate.
    Locomotion(Vec2),
    Rotate(Vec2),
    /// Panning: sideways and world-vertical.
    TranslateEye(Vec2),
}

/// Magnitude bound on the payload of an event.
pub open spec fn event_within(ev: ControlEvent, bound: int) -> bool {
    match ev {
        ControlEvent::Locomotion(d) => vec2_within(d, bound),
        ControlEvent::Rotate(d) => vec2_within(d, bound),
        ControlEvent::TranslateEye(d) => vec2_within(d, bound),
    }
}

/// Held state of the mouse buttons.
#[derive(Clone, Copy, PartialEq, Eq, Structural, Debug)]
pub struct MouseButtons {
    pub left: bool,
    pub right: bool,
    pub middle: bool,
}

/// Held state of the six movement keys.
#[derive(Clone, Copy, PartialEq, Eq, Structural, Debug)]
pub struct UnrealKeyState {
    /// E: pan world-up.
    pub pan_up: bool,
    /// Q: pan world-down.
    pub pan_down: bool,
    /// A: pan left.
    pub pan_left: bool,
    /// D: pan right.
    pub pan_right: bool,
    /// W: move forward.
    pub forward: bool,
    /// S: move back.
    pub backward: bool,
}

/// Index of the first enabled controller, if any.
pub open spec fn first_enabled_s(cs: Seq<UnrealCameraController>) -> Option<int>
    decreases cs.len(),
{
    if cs.len() == 0 {
        None
    } else if cs[0].enabled {
        Some(0int)
    } else {
        match first_enabled_s(cs.subrange(1, cs.len() as int)) {
            Some(i) => Some(i + 1),
            None => None,
        }
    }
}

/// `first_enabled_s` picks exactly the first enabled entry.
pub proof fn lemma_first_enabled(cs: Seq<UnrealCameraController>)
    ensures
        match first_enabled_s(cs) {
            Some(i) => 0 <= i < cs.len() && cs[i].enabled && (forall|j: int|
                0 <= j < i ==> !(#[trigger] cs[j]).enabled),
            None => forall|j: int| 0 <= j < cs.len() ==> !(#[trigger] cs[j]).enabled,
        },
    decreases cs.len(),
{
    if cs.len() > 0 && !cs[0].enabled {
        let tail = cs.subrange(1, cs.len() as int);
        lemma_first_enabled(tail);
        match first_enabled_s(tail) {
            Some(i) => {
                assert(tail[i] == cs[i + 1]);
                assert forall|j: int| 0 <= j < i + 1 implies !(#[trigger] cs[j]).enabled by {
                    if j > 0 {
                        assert(tail[j - 1] == cs[j]);
                    }
                }
            },
            None => {
                assert forall|j: int| 0 <= j < cs.len() implies !(#[trigger] cs[j]).enabled by {
                    if j > 0 {
                        assert(tail[j - 1] == cs[j]);
                    }
                }
            },
        }
    }
}

/// First enabled controller in iteration order, or nothing.
pub fn active_index(controllers: &Vec<UnrealCameraController>) -> (r: Option<usize>)
    ensures
        r is None <==> first_enabled_s(controllers@) is None,
        r matches Some(i) ==> first_enabled_s(controllers@) == Some(i as int),
{
    proof {
        lemma_first_enabled(controllers@);
    }
    let mut i: usize = 0;
    while i < controllers.len()
        invariant
            i <= controllers@.len(),
            forall|j: int| 0 <= j < i ==> !(#[trigger] controllers@[j]).enabled,
            match first_enabled_s(controllers@) {
                Some(k) => 0 <= k < controllers@.len() && controllers@[k].enabled && (forall|j: int|
                    0 <= j < k ==> !(#[trigger] controllers@[j]).enabled),
                None => forall|j: int|
                    0 <= j < controllers@.len() ==> !(#[trigger] controllers@[j]).enabled,
            },
        decreases controllers@.len() - i,
    {
        if controllers[i].enabled {
            return Some(i);
        }
        i += 1;
    }
    None
}

/// Sum of one frame's wheel motions, both axes together.
pub open spec fn wheel_sum_s(ms: Seq<Vec2>) -> int
    decreases ms.len(),
{
    if ms.len() == 0 {
        0int
    } else {
        wheel_sum_s(ms.drop_last()) + ms.last().x as int + ms.last().y as int
    }
}

/// Horizontal panning intent from the keys, in whole units.
pub open spec fn pan_dir_x_s(k: UnrealKeyState) -> int {
    (if k.pan_right {
        SCALE as int
    } else {
        0int
    }) - (if k.pan_left {
        SCALE as int
    } else {
        0int
    })
}

/// Vertical panning intent from the keys.
pub open spec fn pan_dir_y_s(k: UnrealKeyState) -> int {
    (if k.pan_up {
        SCALE as int
    } else {
        0int
    }) - (if k.pan_down {
        SCALE as int
    } else {
        0int
    })
}

/// Forward/back intent from the keys.
pub open spec fn move_dir_y_s(k: UnrealKeyState) -> int {
    (if k.forward {
        SCALE as int
    } else {
        0int
    }) - (if k.backward {
        SCALE as int
    } else {
        0int
    })
}

/// The keyboard-movement sensitivity after one frame with a button held:
/// bumped by the wheel, floored at `KMS_FLOOR`, capped at `KMS_LIMIT`.
pub open spec fn adapt_kms_s(kms: int, kmws: int, wheel: int) -> int {
    let bumped = kms + mul_fix(kmws, wheel);
    let floored = if bumped < KMS_FLOOR as int {
        KMS_FLOOR as int
    } else {
        bumped
    };
    if floored > KMS_LIMIT as int {
        KMS_LIMIT as int
    } else {
        floored
    }
}

/// Law: however negative the wheel turns, the adaptive sensitivity never
/// ends a frame below its floor; it never loses ground while the wheel
/// contribution is non-negative, and strictly grows on a positive
/// contribution until the cap.
pub proof fn lemma_adaptive_sensitivity(kms: int, kmws: int, wheel: int)
    ensures
        KMS_FLOOR as int <= adapt_kms_s(kms, kmws, wheel) <= KMS_LIMIT as int,
        KMS_FLOOR as int <= kms <= KMS_LIMIT as int && mul_fix(kmws, wheel) >= 0
            ==> adapt_kms_s(kms, kmws, wheel) >= kms,
        KMS_FLOOR as int <= kms && kms + mul_fix(kmws, wheel) <= KMS_LIMIT as int && mul_fix(
            kmws,
            wheel,
        ) >= 1 ==> adapt_kms_s(kms, kmws, wheel) > kms,
{
}

/// Everything one frame of input maps to: the events in order and the new
/// keyboard-movement sensitivity.
pub open spec fn unreal_frame_s(
    c: UnrealCameraController,
    cx: int,
    cy: int,
    wheel: int,
    b: MouseButtons,
    k: UnrealKeyState,
) -> (Seq<ControlEvent>, int) {
    let any = b.left || b.middle || b.right;
    let kms = c.keyboard_mvmt_sensitivity as int;
    let pan1x = if any {
        mul_fix(kms, pan_dir_x_s(k))
    } else {
        0int
    };
    let pan1y = if any {
        mul_fix(kms, pan_dir_y_s(k))
    } else {
        0int
    };
    let loco1 = if any {
        mul_fix(kms, move_dir_y_s(k))
    } else if wheel != 0 {
        mul_fix(c.wheel_translate_sensitivity as int, wheel)
    } else {
        0int
    };
    let kms2 = if any {
        adapt_kms_s(kms, c.keyboard_mvmt_wheel_sensitivity as int, wheel)
    } else {
        kms
    };
    let mouse_pan = b.middle || (b.left && b.right);
    let panx = if mouse_pan {
        pan1x + mul_fix(c.mouse_translate_sensitivity.x as int, cx)
    } else {
        pan1x
    };
    let pany = if mouse_pan {
        pan1y + mul_fix(c.mouse_translate_sensitivity.y as int, cy)
    } else {
        pan1y
    };
    let walk = b.left && !b.middle && !b.right;
    let locox = if walk {
        mul_fix(c.rotate_sensitivity.x as int, cx)
    } else {
        0int
    };
    let locoy = if walk {
        loco1 - mul_fix(c.mouse_translate_sensitivity.y as int, cy)
    } else {
        loco1
    };
    let rot = if !b.left && !b.middle && b.right {
        seq![
            ControlEvent::Rotate(
                Vec2 {
                    x: mul_fix(c.rotate_sensitivity.x as int, cx) as i64,
                    y: mul_fix(c.rotate_sensitivity.y as int, cy) as i64,
                },
            ),
        ]
    } else {
        Seq::<ControlEvent>::empty()
    };
    let pan = if panx != 0 || pany != 0 {
        seq![ControlEvent::TranslateEye(Vec2 { x: panx as i64, y: pany as i64 })]
    } else {
        Seq::<ControlEvent>::empty()
    };
    let loco = if locox != 0 || locoy != 0 {
        seq![ControlEvent::Locomotion(Vec2 { x: locox as i64, y: locoy as i64 })]
    } else {
        Seq::<ControlEvent>::empty()
    };
    (rot + pan + loco, kms2)
}

/// Map one frame's raw input to control events for the first enabled
/// controller, retuning its keyboard-movement sensitivity; with none
/// enabled nothing is emitted and nothing changes.
#[verifier::rlimit(100)]
pub fn default_input_map(
    controllers: &mut Vec<UnrealCameraController>,
    mouse_motions: &Vec<Vec2>,
    wheel_motions: &Vec<Vec2>,
    buttons: &MouseButtons,
    keys: &UnrealKeyState,
) -> (r: Vec<ControlEvent>)
    requires
        forall|i: int| 0 <= i < old(controllers)@.len() ==> (#[trigger] old(controllers)@[i]).valid(),
        mouse_motions@.len() <= MAX_SIGNALS,
        wheel_motions@.len() <= MAX_SIGNALS,
        forall|i: int|
            0 <= i < mouse_motions@.len() ==> vec2_within(
                #[trigger] mouse_motions@[i],
                INPUT_LIMIT as int,
            ),
        forall|i: int|
            0 <= i < wheel_motions@.len() ==> vec2_within(
                #[trigger] wheel_motions@[i],
                INPUT_LIMIT as int,
            ),
    ensures
        first_enabled_s(old(controllers)@) is None ==> final (controllers)@ == old(controllers)@
            && r@ == Seq::<ControlEvent>::empty(),
        first_enabled_s(old(controllers)@) matches Some(i) ==> {
            let fr = unreal_frame_s(
                old(controllers)@[i],
                cursor_sum_s(mouse_motions@).0,
                cursor_sum_s(mouse_motions@).1,
                wheel_sum_s(wheel_motions@),
                *buttons,
                *keys,
            );
            r@ == fr.0 && final (controllers)@ == old(controllers)@.update(
                i,
                UnrealCameraController {
                    keyboard_mvmt_sensitivity: fr.1 as i64,
                    ..old(controllers)@[i]
                },
            )
        },
        r@.len() <= 3,
        forall|j: int| 0 <= j < r@.len() ==> event_within(#[trigger] r@[j], EVENT_LIMIT as int),
        forall|i: int| 0 <= i < final (controllers)@.len() ==> (#[trigger] final (controllers)@[i]).valid(),
{
    proof {
        lemma_first_enabled(old(controllers)@);
    }
    let active: usize = match active_index(controllers) {
        Some(i) => i,
        None => {
            return Vec::new();
        },
    };
    let c: UnrealCameraController = controllers[active];
    let left: bool = buttons.left;
    let right: bool = buttons.right;
    let middle: bool = buttons.middle;
    // Sum the pointer motions.
    let mut cx: i64 = 0;
    let mut cy: i64 = 0;
    let mut i: usize = 0;
    while i < mouse_motions.len()
        invariant
            i <= mouse_motions@.len(),
            mouse_motions@.len() <= MAX_SIGNALS,
            forall|j: int|
                0 <= j < mouse_motions@.len() ==> vec2_within(
                    #[trigger] mouse_motions@[j],
                    INPUT_LIMIT as int,
                ),
            (cx as int, cy as int) == cursor_sum_s(mouse_motions@.subrange(0, i as int)),
            fix_abs(cx as int) <= i * (INPUT_LIMIT as int),
            fix_abs(cy as int) <= i * (INPUT_LIMIT as int),
        decreases mouse_motions@.len() - i,
    {
        let m: Vec2 = mouse_motions[i];
        cx = cx + m.x;
        cy = cy + m.y;
        proof {
            assert(mouse_motions@.subrange(0, i + 1 as int).drop_last() =~= mouse_motions@.subrange(
                0,
                i as int,
            ));
        }
        i += 1;
    }
    // Sum the wheel motions.
    let mut wheel: i64 = 0;
    let mut j: usize = 0;
    while j < wheel_motions.len()
        invariant
            j <= wheel_motions@.len(),
            wheel_motions@.len() <= MAX_SIGNALS,
            forall|q: int|
                0 <= q < wheel_motions@.len() ==> vec2_within(
                    #[trigger] wheel_motions@[q],
                    INPUT_LIMIT as int,
                ),
            wheel as int == wheel_sum_s(wheel_motions@.subrange(0, j as int)),
            fix_abs(wheel as int) <= j * 2 * (INPUT_LIMIT as int),
        decreases wheel_motions@.len() - j,
    {
        let m: Vec2 = wheel_motions[j];
        wheel = wheel + m.x + m.y;
        proof {
            assert(wheel_motions@.subrange(0, j + 1 as int).drop_last() =~= wheel_motions@.subrange(
                0,
                j as int,
            ));
        }
        j += 1;
    }
    proof {
        assert(mouse_motions@.subrange(0, mouse_motions@.len() as int) =~= mouse_motions@);
        assert(wheel_motions@.subrange(0, wheel_motions@.len() as int) =~= wheel_motions@);
    }
    let any: bool = left || middle || right;
    // Keyboard intents, in whole units.
    let pan_dir_x: i64 = (if keys.pan_right {
        SCALE
    } else {
        0
    }) - (if keys.pan_left {
        SCALE
    } else {
        0
    });
    let pan_dir_y: i64 = (if keys.pan_up {
        SCALE
    } else {
        0
    }) - (if keys.pan_down {
        SCALE
    } else {
        0
    });
    let move_dir_y: i64 = (if keys.forward {
        SCALE
    } else {
        0
    }) - (if keys.backward {
        SCALE
    } else {
        0
    });
    proof {
        lemma_mul_fix_bound(
            c.keyboard_mvmt_sensitivity as int,
            pan_dir_x as int,
            KMS_LIMIT as int,
            SCALE as int,
        );
        lemma_mul_fix_bound(
            c.keyboard_mvmt_sensitivity as int,
            pan_dir_y as int,
            KMS_LIMIT as int,
            SCALE as int,
        );
        lemma_mul_fix_bound(
            c.keyboard_mvmt_sensitivity as int,
            move_dir_y as int,
            KMS_LIMIT as int,
            SCALE as int,
        );
        lemma_mul_fix_bound(
            c.wheel_translate_sensitivity as int,
            wheel as int,
            SENS_LIMIT as int,
            2_000_000_000_000,
        );
        lemma_mul_fix_bound(
            c.keyboard_mvmt_wheel_sensitivity as int,
            wheel as int,
            SENS_LIMIT as int,
            2_000_000_000_000,
        );
        lemma_mul_fix_bound(
            c.mouse_translate_sensitivity.x as int,
            cx as int,
            SENS_LIMIT as int,
            1_000_000_000_000,
        );
        lemma_mul_fix_bound(
            c.mouse_translate_sensitivity.y as int,
            cy as int,
            SENS_LIMIT as int,
            1_000_000_000_000,
        );
        lemma_mul_fix_bound(
            c.rotate_sensitivity.x as int,
            cx as int,
            SENS_LIMIT as int,
            1_000_000_000_000,
        );
        lemma_mul_fix_bound(
            c.rotate_sensitivity.y as int,
            cy as int,
            SENS_LIMIT as int,
            1_000_000_000_000,
        );
    }
    let mut panx: i64 = 0;
    let mut pany: i64 = 0;
    let mut locox: i64 = 0;
    let mut locoy: i64 = 0;
    let mut new_kms: i64 = c.keyboard_mvmt_sensitivity;
    if any {
        panx = fmul(c.keyboard_mvmt_sensitivity, pan_dir_x);
        pany = fmul(c.keyboard_mvmt_sensitivity, pan_dir_y);
        locoy = fmul(c.keyboard_mvmt_sensitivity, move_dir_y);
        let bumped: i64 = c.keyboard_mvmt_sensitivity + fmul(
            c.keyboard_mvmt_wheel_sensitivity,
            wheel,
        );
        let floored: i64 = if bumped < KMS_FLOOR {
            KMS_FLOOR
        } else {
            bumped
        };
        new_kms = if floored > KMS_LIMIT {
            KMS_LIMIT
        } else {
            floored
        };
    } else if wheel != 0 {
        locoy = fmul(c.wheel_translate_sensitivity, wheel);
    }
    if middle || (left && right) {
        panx = panx + fmul(c.mouse_translate_sensitivity.x, cx);
        pany = pany + fmul(c.mouse_translate_sensitivity.y, cy);
    }
    if left && !middle && !right {
        locox = fmul(c.rotate_sensitivity.x, cx);
        locoy = locoy - fmul(c.mouse_translate_sensitivity.y, cy);
    }
    let mut r: Vec<ControlEvent> = Vec::new();
    if !left && !middle && right {
        r.push(
            ControlEvent::Rotate(
                Vec2 { x: fmul(c.rotate_sensitivity.x, cx), y: fmul(c.rotate_sensitivity.y, cy) },
            ),
        );
    }
    if panx != 0 || pany != 0 {
        r.push(ControlEvent::TranslateEye(Vec2 { x: panx, y: pany }));
    }
    if locox != 0 || locoy != 0 {
        r.push(ControlEvent::Locomotion(Vec2 { x: locox, y: locoy }));
    }
    let mut updated: UnrealCameraController = c;
    updated.keyboard_mvmt_sensitivity = new_kms;
    controllers.set(active, updated);
    proof {
        let fr = unreal_frame_s(
            c,
            cx as int,
            cy as int,
            wheel as int,
            *buttons,
            *keys,
        );
        assert(r@ =~= fr.0);
        assert(final (controllers)@ =~= old(controllers)@.update(active as int, updated));
    }
    r
}

/// One resolver step over the ghost state
/// `(eye.x, eye.y, eye.z, pitch, yaw)`; `v0` is the frame's initial look
/// direction, which locomotion keeps using even after rotations.
pub open spec fn unreal_step_s(
    st: (int, int, int, int, int),
    v0x: int,
    v0y: int,
    v0z: int,
    ev: ControlEvent,
) -> (int, int, int, int, int) {
    match ev {
        ControlEvent::Locomotion(d) => (
            st.0 + mul_fix(d.y as int, v0x),
            st.1 + mul_fix(d.y as int, v0y),
            st.2 + mul_fix(d.y as int, v0z),
            st.3,
            st.4 - d.x as int,
        ),
        ControlEvent::Rotate(d) => (
            st.0,
            st.1,
            st.2,
            clamp_pitch_s(st.3 - d.y as int),
            st.4 - d.x as int,
        ),
        ControlEvent::TranslateEye(d) => (
            st.0 - mul_fix(d.x as int, cos_fix(st.4)),
            st.1 + d.y as int,
            st.2 + mul_fix(d.x as int, sin_fix(st.4)),
            st.3,
            st.4,
        ),
    }
}

/// The events of a frame folded in arrival order.
pub open spec fn unreal_fold_s(
    st: (int, int, int, int, int),
    v0x: int,
    v0y: int,
    v0z: int,
    evs: Seq<ControlEvent>,
) -> (int, int, int, int, int)
    decreases evs.len(),
{
    if evs.len() == 0 {
        st
    } else {
        unreal_step_s(unreal_fold_s(st, v0x, v0y, v0z, evs.drop_last()), v0x, v0y, v0z, evs.last())
    }
}

/// The transform a frame of events resolves to; a transform without a
/// direction (eye on target) skips the frame.  As in the first-person
/// resolver, the radius is captured before any event moves the eye, so
/// locomotion along the view axis carries the target with the eye rather
/// than dollying toward a fixed point.
pub open spec fn unreal_resolve_s(t: LookTransform, evs: Seq<ControlEvent>) -> LookTransform {
    if t.eye == t.target {
        t
    } else {
        let v0x = t.look_x_s();
        let v0y = t.look_y_s();
        let v0z = t.look_z_s();
        let p0 = clamp_pitch_s(asin_fix(v0y));
        let y0 = yaw_of_s(v0x, v0z);
        let st = unreal_fold_s(
            (t.eye.x as int, t.eye.y as int, t.eye.z as int, p0, y0),
            v0x,
            v0y,
            v0z,
            evs,
        );
        let rad = t.radius_s();
        LookTransform {
            eye: Vec3 { x: st.0 as i64, y: st.1 as i64, z: st.2 as i64 },
            target: Vec3 {
                x: (st.0 + mul_fix(rad, dir_x_s(st.3, st.4))) as i64,
                y: (st.1 + mul_fix(rad, dir_y_s(st.3, st.4))) as i64,
                z: (st.2 + mul_fix(rad, dir_z_s(st.3, st.4))) as i64,
            },
        }
    }
}

/// Resolve one frame of events against one transform.
pub fn resolve_frame(transform: &mut LookTransform, events: &Vec<ControlEvent>)
    requires
        vec3_within(old(transform).eye, COORD_LIMIT as int),
        vec3_within(old(transform).target, COORD_LIMIT as int),
        events@.len() <= MAX_FRAME_EVENTS,
        forall|j: int| 0 <= j < events@.len() ==> event_within(#[trigger] events@[j], EVENT_LIMIT as int),
    ensures
        *final (transform) == unreal_resolve_s(*old(transform), events@),
{
    let dir_opt: Option<Vec3> = transform.look_direction();
    let v: Vec3 = match dir_opt {
        Some(v) => v,
        None => {
            return ;
        },
    };
    let rad: i64 = transform.radius();
    let mut la: LookAngles = LookAngles::from_vector(&v);
    let ghost init: (int, int, int, int, int) = (
        transform.eye.x as int,
        transform.eye.y as int,
        transform.eye.z as int,
        la.pitch_s(),
        la.yaw_s(),
    );
    let mut ex: i64 = transform.eye.x;
    let mut ey: i64 = transform.eye.y;
    let mut ez: i64 = transform.eye.z;
    let mut i: usize = 0;
    while i < events.len()
        invariant
            i <= events@.len(),
            events@.len() <= MAX_FRAME_EVENTS,
            forall|j: int|
                0 <= j < events@.len() ==> event_within(#[trigger] events@[j], EVENT_LIMIT as int),
            la.wf(),
            vec3_within(v, SCALE as int),
            unreal_fold_s(init, v.x as int, v.y as int, v.z as int, events@.subrange(0, i as int))
                == (ex as int, ey as int, ez as int, la.pitch_s(), la.yaw_s()),
            fix_abs(ex as int) <= COORD_LIMIT as int + i * 10_000_000_000_000_000,
            fix_abs(ey as int) <= COORD_LIMIT as int + i * 10_000_000_000_000_000,
            fix_abs(ez as int) <= COORD_LIMIT as int + i * 10_000_000_000_000_000,
            fix_abs(la.yaw_s()) <= PI_FIX as int + i * (EVENT_LIMIT as int),
        decreases events@.len() - i,
    {
        let ev: ControlEvent = events[i];
        match ev {
            ControlEvent::Locomotion(d) => {
                proof {
                    lemma_mul_fix_bound(d.y as int, v.x as int, EVENT_LIMIT as int, SCALE as int);
                    lemma_mul_fix_bound(d.y as int, v.y as int, EVENT_LIMIT as int, SCALE as int);
                    lemma_mul_fix_bound(d.y as int, v.z as int, EVENT_LIMIT as int, SCALE as int);
                }
                la.add_yaw(-d.x);
                ex = ex + fmul(d.y, v.x);
                ey = ey + fmul(d.y, v.y);
                ez = ez + fmul(d.y, v.z);
            },
            ControlEvent::Rotate(d) => {
                la.add_yaw(-d.x);
                la.add_pitch(-d.y);
            },
            ControlEvent::TranslateEye(d) => {
                let yaw_now: i64 = la.get_yaw();
                let cy_now: i64 = cos_x(yaw_now);
                let sy_now: i64 = sin_x(yaw_now);
                proof {
                    lemma_mul_fix_bound(
                        d.x as int,
                        cy_now as int,
                        EVENT_LIMIT as int,
                        TRIG_BOUND as int,
                    );
                    lemma_mul_fix_bound(
                        d.x as int,
                        sy_now as int,
                        EVENT_LIMIT as int,
                        TRIG_BOUND as int,
                    );
                }
                ex = ex - fmul(d.x, cy_now);
                ey = ey + d.y;
                ez = ez + fmul(d.x, sy_now);
            },
        }
        proof {
            assert(events@.subrange(0, i + 1 as int).drop_last() =~= events@.subrange(0, i as int));
        }
        i += 1;
    }
    proof {
        assert(events@.subrange(0, events@.len() as int) =~= events@);
    }
    transform.eye = Vec3 { x: ex, y: ey, z: ez };
    let uv: Vec3 = la.unit_vector();
    proof {
        lemma_mul_fix_bound(rad as int, uv.x as int, 4_000_000_000_000_000_000, DIR_BOUND as int);
        lemma_mul_fix_bound(rad as int, uv.y as int, 4_000_000_000_000_000_000, DIR_BOUND as int);
        lemma_mul_fix_bound(rad as int, uv.z as int, 4_000_000_000_000_000_000, DIR_BOUND as int);
    }
    transform.target = Vec3 {
        x: ex + fmul(rad, uv.x),
        y: ey + fmul(rad, uv.y),
        z: ez + fmul(rad, uv.z),
    };
}

/// Apply one frame of events to the first enabled camera; every other
/// transform — and, with no enabled camera, every transform — is left
/// untouched.
pub fn control_system(
    controllers: &Vec<UnrealCameraController>,
    transforms: &mut Vec<LookTransform>,
    events: &Vec<ControlEvent>,
)
    requires
        old(transforms)@.len() == controllers@.len(),
        forall|i: int|
            0 <= i < old(transforms)@.len() ==> vec3_within(
                (#[trigger] old(transforms)@[i]).eye,
                COORD_LIMIT as int,
            ) && vec3_within(old(transforms)@[i].target, COORD_LIMIT as int),
        events@.len() <= MAX_FRAME_EVENTS,
        forall|j: int| 0 <= j < events@.len() ==> event_within(#[trigger] events@[j], EVENT_LIMIT as int),
    ensures
        first_enabled_s(controllers@) is None ==> final (transforms)@ == old(transforms)@,
        first_enabled_s(controllers@) matches Some(i) ==> final (transforms)@ == old(
            transforms,
        )@.update(i, unreal_resolve_s(old(transforms)@[i], events@)),
{
    proof {
        lemma_first_enabled(controllers@);
    }
    let active: usize = match active_index(controllers) {
        Some(i) => i,
        None => {
            return ;
        },
    };
    let mut t: LookTransform = transforms[active];
    resolve_frame(&mut t, events);
    transforms.set(active, t);
}

} // verus!
