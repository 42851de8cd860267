//! The per-frame steps: input resolution, intent accumulation, camera
//! frame integration, transform publication, cursor grab and gamepad
//! connection tracking.

use vstd::prelude::*;
use crate::math::{
    add_i, bounded3, cos_fp, cos_spec, div_trunc, div_trunc_wide, lemma_mul_bound,
    lemma_tdiv_bound, lemma_fp_mul_unit_bound, reorthonormalize, reortho_fwd, reortho_right,
    reortho_up, rot3, rot_bound, rotate_about, sign, signum, sin_fp, sin_spec, tdiv, v3_zero,
    Vec3, V3, BASIS_MAX, SCALE,
};
use crate::resources::{
    axis_lookup, button_axis_lookup, button_lookup, ActiveGamepad, AxisReading,
    ButtonAxisReading, Cam3, CursorMode, CursorState, DebugCamera,
    DebugCameraActive, GamepadBindings, GamepadEvent, GamepadInput, GamepadLog,
    GamepadSettingsState, GamepadState, KeyboardBindings, KeysPressed, MouseDelta, Transform,
    POSITION_MAX,
};

verus! {

/// Weight applied to all keyboard and mouse input, `0.5` in fixed
/// point, balancing it against gamepad input.
pub const KM_WEIGHT: i64 = 500;

/// Deadzone lower bound applied when a gamepad becomes active.
pub const DEADZONE_LOWER: i64 = -100;

/// Deadzone upper bound applied when a gamepad becomes active.
pub const DEADZONE_UPPER: i64 = 100;

/// Most mouse-motion events accepted in one frame.
pub const MOUSE_MAX_EVENTS: usize = 1024;

/// Largest single mouse-motion component accepted.
pub const MOUSE_MAX_DELTA: i64 = 1_000_000;

/// `sign(positive) - sign(negative)` as a fixed-point scalar: the
/// combined direction of an opposite pair of binary channels.
pub fn buttons_to_dir(positive: bool, negative: bool) -> (r: i64)
    ensures
        r == buttons_to_dir_spec(positive, negative),
{
    let p: i64 = if positive { SCALE } else { 0 };
    let n: i64 = if negative { SCALE } else { 0 };
    p - n
}

/// Value of [`buttons_to_dir`]: `1.0`, `-1.0` or `0` in fixed point.
pub open spec fn buttons_to_dir_spec(positive: bool, negative: bool) -> int {
    (if positive { SCALE as int } else { 0 }) - (if negative { SCALE as int } else { 0 })
}

/// Conditional negation, used for the per-axis inversion switches.
pub fn invert(v: i64, inv: bool) -> (r: i64)
    requires
        v > i64::MIN,
    ensures
        r == invert_spec(v as int, inv),
{
    if inv {
        -v
    } else {
        v
    }
}

/// Value of [`invert`].
pub open spec fn invert_spec(v: int, inv: bool) -> int {
    if inv {
        -v
    } else {
        v
    }
}

/// Contribution of one bound gamepad source toward direction `dir`
/// (`1.0` or `-1.0` fixed point):
/// - an axis contributes its value only when the value's sign matches
///   the requested direction, else exactly zero;
/// - a button contributes the full requested direction while pressed;
/// - a trigger contributes its value times the requested sign;
/// - an absent reading contributes zero.
pub open spec fn input_value_spec(pads: GamepadState, pad: u64, input: GamepadInput, dir: int) -> int {
    match input {
        GamepadInput::Axis(a) => match axis_lookup(pads.axes@, pad, a) {
            Option::Some(v) => if sign(v as int) == sign(dir) {
                v as int
            } else {
                0
            },
            Option::None => 0,
        },
        GamepadInput::Button(b) => if button_lookup(pads.buttons@, pad, b) {
            sign(dir) * (SCALE as int)
        } else {
            0
        },
        GamepadInput::Trigger(b) => match button_axis_lookup(pads.button_axes@, pad, b) {
            Option::Some(v) => sign(dir) * (v as int),
            Option::None => 0,
        },
    }
}

/// A well-formed snapshot keeps every axis lookup in `[-1, 1]`.
proof fn lemma_axis_lookup_bounded(s: Seq<AxisReading>, pad: u64, axis: u32)
    requires
        forall|i: int| 0 <= i < s.len() ==> -SCALE <= (#[trigger] s[i]).value <= SCALE,
    ensures
        axis_lookup(s, pad, axis) matches Option::Some(v) ==> -SCALE <= v <= SCALE,
    decreases s.len(),
{
    if s.len() > 0 {
        assert(forall|i: int|
            0 <= i < s.drop_first().len() ==> (#[trigger] s.drop_first()[i]) == s[i + 1]);
        lemma_axis_lookup_bounded(s.drop_first(), pad, axis);
    }
}

/// A well-formed snapshot keeps every trigger lookup in `[-1, 1]`.
proof fn lemma_button_axis_lookup_bounded(s: Seq<ButtonAxisReading>, pad: u64, button: u32)
    requires
        forall|i: int| 0 <= i < s.len() ==> -SCALE <= (#[trigger] s[i]).value <= SCALE,
    ensures
        button_axis_lookup(s, pad, button) matches Option::Some(v) ==> -SCALE <= v <= SCALE,
    decreases s.len(),
{
    if s.len() > 0 {
        assert(forall|i: int|
            0 <= i < s.drop_first().len() ==> (#[trigger] s.drop_first()[i]) == s[i + 1]);
        lemma_button_axis_lookup_bounded(s.drop_first(), pad, button);
    }
}

/// Resolve one bound gamepad source against the frame's snapshot.
pub fn input_value(pads: &GamepadState, pad: u64, input: &GamepadInput, dir: i64) -> (r: i64)
    requires
        pads.wf(),
    ensures
        r == input_value_spec(*pads, pad, *input, dir as int),
        -SCALE <= r <= SCALE,
        (*input matches GamepadInput::Axis(a) && axis_lookup(pads.axes@, pad, a)
            matches Option::Some(v) && sign(v as int) != sign(dir as int)) ==> r == 0,
{
    let sg = signum(dir);
    match input {
        GamepadInput::Axis(a) => {
            proof {
                lemma_axis_lookup_bounded(pads.axes@, pad, *a);
            }
            match pads.get_axis(pad, *a) {
                Some(v) => {
                    let sv = signum(v);
                    proof {
                        if sv == sg {
                            assert(input_value_spec(*pads, pad, *input, dir as int) == v as int);
                        } else {
                            assert(input_value_spec(*pads, pad, *input, dir as int) == 0);
                        }
                    }
                    if sv == sg {
                        v
                    } else {
                        0
                    }
                },
                None => 0,
            }
        },
        GamepadInput::Button(b) => {
            if pads.is_pressed(pad, *b) {
                if sg == 1 {
                    proof {
                        assert(input_value_spec(*pads, pad, *input, dir as int) == SCALE as int);
                    }
                    SCALE
                } else if sg == -1 {
                    proof {
                        assert(input_value_spec(*pads, pad, *input, dir as int) == -(
                        SCALE as int));
                    }
                    -SCALE
                } else {
                    proof {
                        assert(input_value_spec(*pads, pad, *input, dir as int) == 0);
                    }
                    0
                }
            } else {
                0
            }
        },
        GamepadInput::Trigger(b) => {
            proof {
                lemma_button_axis_lookup_bounded(pads.button_axes@, pad, *b);
            }
            match pads.get_button_axis(pad, *b) {
                Some(v) => {
                    if sg == 1 {
                        proof {
                            assert(input_value_spec(*pads, pad, *input, dir as int) == v as int);
                        }
                        v
                    } else if sg == -1 {
                        proof {
                            assert(input_value_spec(*pads, pad, *input, dir as int) == -(
                            v as int));
                        }
                        -v
                    } else {
                        proof {
                            assert(input_value_spec(*pads, pad, *input, dir as int) == 0);
                        }
                        0
                    }
                },
                None => 0,
            }
        },
    }
}

/// Sum of the horizontal components of a frame's mouse motion.
pub open spec fn mouse_sum_x(s: Seq<MouseDelta>) -> int
    decreases s.len(),
{
    if s.len() == 0 {
        0
    } else {
        s[0].x + mouse_sum_x(s.drop_first())
    }
}

/// Sum of the vertical components of a frame's mouse motion.
pub open spec fn mouse_sum_y(s: Seq<MouseDelta>) -> int
    decreases s.len(),
{
    if s.len() == 0 {
        0
    } else {
        s[0].y + mouse_sum_y(s.drop_first())
    }
}

/// A frame's mouse events: few enough, each small enough.
pub open spec fn mouse_wf(s: Seq<MouseDelta>) -> bool {
    &&& s.len() <= MOUSE_MAX_EVENTS
    &&& forall|i: int|
        0 <= i < s.len() ==> -MOUSE_MAX_DELTA <= (#[trigger] s[i]).x <= MOUSE_MAX_DELTA
            && -MOUSE_MAX_DELTA <= s[i].y <= MOUSE_MAX_DELTA
}

proof fn lemma_mouse_sum_bounded(s: Seq<MouseDelta>)
    requires
        forall|i: int|
            0 <= i < s.len() ==> -MOUSE_MAX_DELTA <= (#[trigger] s[i]).x <= MOUSE_MAX_DELTA
                && -MOUSE_MAX_DELTA <= s[i].y <= MOUSE_MAX_DELTA,
    ensures
        -(s.len() as int) * (MOUSE_MAX_DELTA as int) <= mouse_sum_x(s) <= (s.len() as int) * (
        MOUSE_MAX_DELTA as int),
        -(s.len() as int) * (MOUSE_MAX_DELTA as int) <= mouse_sum_y(s) <= (s.len() as int) * (
        MOUSE_MAX_DELTA as int),
    decreases s.len(),
{
    if s.len() > 0 {
        assert(forall|i: int|
            0 <= i < s.drop_first().len() ==> (#[trigger] s.drop_first()[i]) == s[i + 1]);
        lemma_mouse_sum_bounded(s.drop_first());
        assert((s.len() as int) * (MOUSE_MAX_DELTA as int) == (s.len() as int - 1) * (
        MOUSE_MAX_DELTA as int) + MOUSE_MAX_DELTA) by (nonlinear_arith);
    }
}

/// Gamepad part of the frame's local translation intent.
pub open spec fn gp_translate(
    delta: int,
    active: DebugCameraActive,
    gb: GamepadBindings,
    pads: GamepadState,
    apad: Option<u64>,
) -> V3 {
    if active.gamepad {
        match apad {
            Option::Some(pad) => {
                let si = SCALE as int;
                let fwd = input_value_spec(pads, pad, gb.fwd, si);
                let bwd = input_value_spec(pads, pad, gb.bwd, -si);
                let up = input_value_spec(pads, pad, gb.up, si);
                let down = input_value_spec(pads, pad, gb.down, -si);
                let left = input_value_spec(pads, pad, gb.left, -si);
                let right = input_value_spec(pads, pad, gb.right, si);
                V3 {
                    x: tdiv(delta * (fwd + bwd), si),
                    y: tdiv(delta * (up + down), si),
                    z: tdiv(delta * (left + right), si),
                }
            },
            Option::None => v3_zero(),
        }
    } else {
        v3_zero()
    }
}

/// Gamepad part of the frame's rotation intent.  Both yaw channels
/// are negated onto the yaw component, as the host's conventions ask.
pub open spec fn gp_rotate(
    delta: int,
    active: DebugCameraActive,
    gb: GamepadBindings,
    pads: GamepadState,
    apad: Option<u64>,
) -> V3 {
    if active.gamepad {
        match apad {
            Option::Some(pad) => {
                let si = SCALE as int;
                let yaw_left = input_value_spec(pads, pad, gb.yaw_left, -si);
                let yaw_right = input_value_spec(pads, pad, gb.yaw_right, si);
                let pitch_up = input_value_spec(pads, pad, gb.pitch_up, si);
                let pitch_down = input_value_spec(pads, pad, gb.pitch_down, -si);
                let roll_left = input_value_spec(pads, pad, gb.roll_left, -si);
                let roll_right = input_value_spec(pads, pad, gb.roll_right, si);
                V3 {
                    x: tdiv(delta * (-yaw_left - yaw_right), si),
                    y: tdiv(delta * (pitch_up + pitch_down), si),
                    z: tdiv(delta * (roll_left + roll_right), si),
                }
            },
            Option::None => v3_zero(),
        }
    } else {
        v3_zero()
    }
}

/// Keyboard part of the frame's local translation intent, at half
/// weight.
pub open spec fn km_translate(
    delta: int,
    keys: KeysPressed,
    active: DebugCameraActive,
    kb: KeyboardBindings,
) -> V3 {
    if active.keymouse {
        let si = SCALE as int;
        let hd = tdiv(delta * (KM_WEIGHT as int), si);
        V3 {
            x: tdiv(hd * buttons_to_dir_spec(keys.keys@.contains(kb.fwd), keys.keys@.contains(kb.bwd)), si),
            y: tdiv(hd * buttons_to_dir_spec(keys.keys@.contains(kb.up), keys.keys@.contains(kb.down)), si),
            z: tdiv(hd * buttons_to_dir_spec(keys.keys@.contains(kb.right), keys.keys@.contains(kb.left)), si),
        }
    } else {
        v3_zero()
    }
}

/// Keyboard-and-mouse part of the frame's rotation intent, at half
/// weight; mouse motion is summed and negated, roll is keyboard only.
pub open spec fn km_rotate(
    delta: int,
    keys: KeysPressed,
    active: DebugCameraActive,
    kb: KeyboardBindings,
    mouse: Seq<MouseDelta>,
) -> V3 {
    if active.keymouse {
        let si = SCALE as int;
        let hd = tdiv(delta * (KM_WEIGHT as int), si);
        V3 {
            x: tdiv(hd * (-mouse_sum_x(mouse)), si),
            y: tdiv(hd * (-mouse_sum_y(mouse)), si),
            z: tdiv(hd * buttons_to_dir_spec(
                keys.keys@.contains(kb.roll_right),
                keys.keys@.contains(kb.roll_left),
            ), si),
        }
    } else {
        v3_zero()
    }
}

/// The frame's complete local translation intent.
pub open spec fn translate_intent(
    delta: int,
    keys: KeysPressed,
    active: DebugCameraActive,
    kb: KeyboardBindings,
    gb: GamepadBindings,
    pads: GamepadState,
    apad: Option<u64>,
) -> V3 {
    add_i(gp_translate(delta, active, gb, pads, apad), km_translate(delta, keys, active, kb))
}

/// The frame's complete rotation intent.
pub open spec fn rotate_intent(
    delta: int,
    keys: KeysPressed,
    active: DebugCameraActive,
    kb: KeyboardBindings,
    gb: GamepadBindings,
    pads: GamepadState,
    apad: Option<u64>,
    mouse: Seq<MouseDelta>,
) -> V3 {
    add_i(gp_rotate(delta, active, gb, pads, apad), km_rotate(delta, keys, active, kb, mouse))
}

/// Gamepad contribution to the frame's intent vectors.
fn gp_intent(
    delta: i64,
    active: &DebugCameraActive,
    gb: &GamepadBindings,
    pads: &GamepadState,
    active_pad: &ActiveGamepad,
) -> (r: (Vec3, Vec3))
    requires
        0 <= delta <= 1_000_000,
        pads.wf(),
    ensures
        r.0@ == gp_translate(delta as int, *active, *gb, *pads, active_pad.0),
        r.1@ == gp_rotate(delta as int, *active, *gb, *pads, active_pad.0),
        bounded3(r.0@, 2_000_000),
        bounded3(r.1@, 2_000_000),
        delta == 0 ==> r.0@ == v3_zero() && r.1@ == v3_zero(),
{
    let mut tx: i64 = 0;
    let mut ty: i64 = 0;
    let mut tz: i64 = 0;
    let mut rx: i64 = 0;
    let mut ry: i64 = 0;
    let mut rz: i64 = 0;
    if active.gamepad {
        if let Some(pad) = active_pad.0 {
            let fwd = input_value(pads, pad, &gb.fwd, SCALE);
            let bwd = input_value(pads, pad, &gb.bwd, -SCALE);
            let up = input_value(pads, pad, &gb.up, SCALE);
            let down = input_value(pads, pad, &gb.down, -SCALE);
            let left = input_value(pads, pad, &gb.left, -SCALE);
            let right = input_value(pads, pad, &gb.right, SCALE);
            proof {
                lemma_mul_bound(delta as int, fwd + bwd, 1_000_000, 2 * SCALE as int);
                lemma_mul_bound(delta as int, up + down, 1_000_000, 2 * SCALE as int);
                lemma_mul_bound(delta as int, left + right, 1_000_000, 2 * SCALE as int);
                lemma_tdiv_bound(delta as int * (fwd + bwd), 2_000_000_000, SCALE as int);
                lemma_tdiv_bound(delta as int * (up + down), 2_000_000_000, SCALE as int);
                lemma_tdiv_bound(delta as int * (left + right), 2_000_000_000, SCALE as int);
            }
            tx = div_trunc(delta * (fwd + bwd), SCALE);
            ty = div_trunc(delta * (up + down), SCALE);
            tz = div_trunc(delta * (left + right), SCALE);
            let yaw_left = input_value(pads, pad, &gb.yaw_left, -SCALE);
            let yaw_right = input_value(pads, pad, &gb.yaw_right, SCALE);
            let pitch_up = input_value(pads, pad, &gb.pitch_up, SCALE);
            let pitch_down = input_value(pads, pad, &gb.pitch_down, -SCALE);
            let roll_left = input_value(pads, pad, &gb.roll_left, -SCALE);
            let roll_right = input_value(pads, pad, &gb.roll_right, SCALE);
            proof {
                lemma_mul_bound(delta as int, -yaw_left - yaw_right, 1_000_000, 2 * SCALE as int);
                lemma_mul_bound(delta as int, pitch_up + pitch_down, 1_000_000, 2 * SCALE as int);
                lemma_mul_bound(delta as int, roll_left + roll_right, 1_000_000, 2 * SCALE as int);
                lemma_tdiv_bound(delta as int * (-yaw_left - yaw_right), 2_000_000_000, SCALE as int);
                lemma_tdiv_bound(delta as int * (pitch_up + pitch_down), 2_000_000_000, SCALE as int);
                lemma_tdiv_bound(delta as int * (roll_left + roll_right), 2_000_000_000, SCALE as int);
            }
            rx = div_trunc(delta * (-yaw_left - yaw_right), SCALE);
            ry = div_trunc(delta * (pitch_up + pitch_down), SCALE);
            rz = div_trunc(delta * (roll_left + roll_right), SCALE);
        }
    }
    (Vec3 { x: tx, y: ty, z: tz }, Vec3 { x: rx, y: ry, z: rz })
}

/// Keyboard and mouse contribution to the frame's intent vectors.
fn km_intent(
    delta: i64,
    keys: &KeysPressed,
    active: &DebugCameraActive,
    kb: &KeyboardBindings,
    mouse: &Vec<MouseDelta>,
) -> (r: (Vec3, Vec3))
    requires
        0 <= delta <= 1_000_000,
        mouse_wf(mouse@),
    ensures
        r.0@ == km_translate(delta as int, *keys, *active, *kb),
        r.1@ == km_rotate(delta as int, *keys, *active, *kb, mouse@),
        bounded3(r.0@, 500_000),
        bounded3(r.1@, 512_000_000_000),
        delta == 0 ==> r.0@ == v3_zero() && r.1@ == v3_zero(),
{
    let mut kx: i64 = 0;
    let mut ky: i64 = 0;
    let mut kz: i64 = 0;
    let mut mx: i64 = 0;
    let mut my: i64 = 0;
    let mut mz: i64 = 0;
    if active.keymouse {
        let key_fwd = keys.pressed(kb.fwd);
        let key_bwd = keys.pressed(kb.bwd);
        let key_up = keys.pressed(kb.up);
        let key_down = keys.pressed(kb.down);
        let key_left = keys.pressed(kb.left);
        let key_right = keys.pressed(kb.right);
        let key_roll_left = keys.pressed(kb.roll_left);
        let key_roll_right = keys.pressed(kb.roll_right);
        let mut sx: i64 = 0;
        let mut sy: i64 = 0;
        let mut i: usize = 0;
        proof {
            assert(mouse@.skip(0) =~= mouse@);
        }
        while i < mouse.len()
            invariant
                0 <= i <= mouse@.len(),
                mouse_wf(mouse@),
                mouse_sum_x(mouse@) == sx + mouse_sum_x(mouse@.skip(i as int)),
                mouse_sum_y(mouse@) == sy + mouse_sum_y(mouse@.skip(i as int)),
                -(i as int) * (MOUSE_MAX_DELTA as int) <= sx <= (i as int) * (MOUSE_MAX_DELTA as int),
                -(i as int) * (MOUSE_MAX_DELTA as int) <= sy <= (i as int) * (MOUSE_MAX_DELTA as int),
            decreases mouse@.len() - i,
        {
            let d = mouse[i];
            proof {
                assert(mouse@.skip(i as int)[0] == mouse@[i as int]);
                assert(mouse@.skip(i as int).drop_first() =~= mouse@.skip(i as int + 1));
                assert((i as int + 1) * (MOUSE_MAX_DELTA as int) == (i as int) * (
                MOUSE_MAX_DELTA as int) + MOUSE_MAX_DELTA) by (nonlinear_arith);
                assert((i as int) * (MOUSE_MAX_DELTA as int) <= 1024 * (MOUSE_MAX_DELTA as int))
                    by (nonlinear_arith)
                    requires 0 <= i as int <= 1024;
            }
            sx = sx + d.x;
            sy = sy + d.y;
            i = i + 1;
        }
        proof {
            assert(mouse@.skip(mouse@.len() as int) =~= Seq::<MouseDelta>::empty());
            assert((i as int) * (MOUSE_MAX_DELTA as int) <= 1024 * (MOUSE_MAX_DELTA as int))
                by (nonlinear_arith)
                requires 0 <= i as int <= 1024;
        }
        let hd = div_trunc(delta * KM_WEIGHT, SCALE);
        proof {
            lemma_tdiv_bound(delta as int * (KM_WEIGHT as int), 500_000_000_000, SCALE as int);
            lemma_fp_mul_unit_bound(
                hd as int,
                buttons_to_dir_spec(key_fwd, key_bwd),
                500_000,
            );
            lemma_fp_mul_unit_bound(hd as int, buttons_to_dir_spec(key_up, key_down), 500_000);
            lemma_fp_mul_unit_bound(
                hd as int,
                buttons_to_dir_spec(key_right, key_left),
                500_000,
            );
            lemma_fp_mul_unit_bound(
                hd as int,
                buttons_to_dir_spec(key_roll_right, key_roll_left),
                500_000,
            );
            lemma_mul_bound(hd as int, -(sx as int), 500_000, 1_024_000_000);
            lemma_mul_bound(hd as int, -(sy as int), 500_000, 1_024_000_000);
            lemma_tdiv_bound(hd as int * (-(sx as int)), 512_000_000_000_000, SCALE as int);
            lemma_tdiv_bound(hd as int * (-(sy as int)), 512_000_000_000_000, SCALE as int);
        }
        kx = div_trunc(hd * buttons_to_dir(key_fwd, key_bwd), SCALE);
        ky = div_trunc(hd * buttons_to_dir(key_up, key_down), SCALE);
        kz = div_trunc(hd * buttons_to_dir(key_right, key_left), SCALE);
        mx = div_trunc(hd * (-sx), SCALE);
        my = div_trunc(hd * (-sy), SCALE);
        mz = div_trunc(hd * buttons_to_dir(key_roll_right, key_roll_left), SCALE);
        proof {
            if delta == 0 {
                let si = SCALE as int;
                assert(tdiv(0, si) == 0);
                assert(hd == 0);
                assert(hd as int * buttons_to_dir_spec(key_fwd, key_bwd) == 0);
                assert(hd as int * buttons_to_dir_spec(key_up, key_down) == 0);
                assert(hd as int * buttons_to_dir_spec(key_right, key_left) == 0);
                assert(hd as int * buttons_to_dir_spec(key_roll_right, key_roll_left) == 0);
                assert(hd as int * (-(sx as int)) == 0) by (nonlinear_arith)
                    requires hd as int == 0;
                assert(hd as int * (-(sy as int)) == 0) by (nonlinear_arith)
                    requires hd as int == 0;
            }
        }
    }
    (Vec3 { x: kx, y: ky, z: kz }, Vec3 { x: mx, y: my, z: mz })
}

/// Combine the frame's active input sources into the shared local
/// translation and rotation intent vectors.  A zero frame time yields
/// exactly zero intent whatever the inputs.
pub fn accumulate_intent(
    delta: i64,
    keys: &KeysPressed,
    active: &DebugCameraActive,
    kb: &KeyboardBindings,
    gb: &GamepadBindings,
    mouse: &Vec<MouseDelta>,
    pads: &GamepadState,
    active_pad: &ActiveGamepad,
) -> (r: (Vec3, Vec3))
    requires
        0 <= delta <= 1_000_000,
        pads.wf(),
        mouse_wf(mouse@),
    ensures
        r.0@ == translate_intent(delta as int, *keys, *active, *kb, *gb, *pads, active_pad.0),
        r.1@ == rotate_intent(delta as int, *keys, *active, *kb, *gb, *pads, active_pad.0, mouse@),
        bounded3(r.0@, 3_000_000),
        bounded3(r.1@, 600_000_000_000),
        delta == 0 ==> r.0@ == v3_zero() && r.1@ == v3_zero(),
{
    let (gt, gr) = gp_intent(delta, active, gb, pads, active_pad);
    let (kt, kr) = km_intent(delta, keys, active, kb, mouse);
    (
        Vec3 { x: gt.x + kt.x, y: gt.y + kt.y, z: gt.z + kt.z },
        Vec3 { x: gr.x + kr.x, y: gr.y + kr.y, z: gr.z + kr.z },
    )
}

/// Product of the change-of-basis matrix with columns `(f, u, r)` and
/// the local intent vector `t`, scaled back down.
pub open spec fn world_of(f: V3, u: V3, r: V3, t: V3) -> V3 {
    let si = SCALE as int;
    V3 {
        x: tdiv(f.x * t.x + u.x * t.y + r.x * t.z, si),
        y: tdiv(f.y * t.x + u.y * t.y + r.y * t.z, si),
        z: tdiv(f.z * t.x + u.z * t.y + r.z * t.z, si),
    }
}

/// Rotation angle of one channel: the (possibly inverted) intent
/// component times the camera's rotation speed.
pub open spec fn angle_of(rc: int, inv: bool, speed: int) -> int {
    tdiv(invert_spec(rc, inv) * speed, SCALE as int)
}

/// The per-frame rotation angles stay within one radian, the domain
/// of the fixed-point sine and cosine.
pub open spec fn frame_rot_ok(rv: V3, speed: int) -> bool {
    &&& -1_000_000 <= rv.x * speed <= 1_000_000
    &&& -1_000_000 <= rv.y * speed <= 1_000_000
    &&& -1_000_000 <= rv.z * speed <= 1_000_000
}

/// One camera's frame update: re-orthonormalize the stored basis,
/// move the position along the corrected basis by the translation
/// intent times the translation speed, then rotate yaw-like about the
/// corrected up, pitch-like about the just-rotated right, and roll
/// about the just-rotated forward, each by the matching intent
/// component times the rotation speed.
pub open spec fn integrate_spec(cam: Cam3, t: V3, r: V3, ix: bool, iy: bool) -> Cam3 {
    let si = SCALE as int;
    let f2 = reortho_fwd(cam.fwd, cam.up);
    let u2 = reortho_up(cam.fwd, cam.up);
    let r2 = reortho_right(cam.fwd, cam.up);
    let w = world_of(f2, u2, r2, t);
    let pos = V3 {
        x: cam.position.x + tdiv(cam.speed_translate * w.x, si),
        y: cam.position.y + tdiv(cam.speed_translate * w.y, si),
        z: cam.position.z + tdiv(cam.speed_translate * w.z, si),
    };
    let ax = angle_of(r.x, ix, cam.speed_rotate);
    let f3 = rot3(f2, u2, sin_spec(ax), cos_spec(ax));
    let r3 = rot3(r2, u2, sin_spec(ax), cos_spec(ax));
    let ay = angle_of(r.y, iy, cam.speed_rotate);
    let f4 = rot3(f3, r3, sin_spec(ay), cos_spec(ay));
    let u4 = rot3(u2, r3, sin_spec(ay), cos_spec(ay));
    let az = tdiv(r.z * cam.speed_rotate, si);
    let u5 = rot3(u4, f4, sin_spec(az), cos_spec(az));
    Cam3 {
        fwd: f4,
        up: u5,
        position: pos,
        speed_translate: cam.speed_translate,
        speed_rotate: cam.speed_rotate,
    }
}

/// With zero translation and rotation intent — as a frame with zero
/// elapsed time produces — the integrator leaves the position and the
/// speeds exactly unchanged and does nothing to the orientation
/// beyond the re-orthonormalization of step one, which fixes any
/// already-orthonormal representable pair.
pub proof fn lemma_integrate_zero_intent(cam: Cam3, ix: bool, iy: bool)
    ensures
        integrate_spec(cam, v3_zero(), v3_zero(), ix, iy).position == cam.position,
        integrate_spec(cam, v3_zero(), v3_zero(), ix, iy).fwd == reortho_fwd(cam.fwd, cam.up),
        integrate_spec(cam, v3_zero(), v3_zero(), ix, iy).up == reortho_up(cam.fwd, cam.up),
        integrate_spec(cam, v3_zero(), v3_zero(), ix, iy).speed_translate == cam.speed_translate,
        integrate_spec(cam, v3_zero(), v3_zero(), ix, iy).speed_rotate == cam.speed_rotate,
{
    let si = SCALE as int;
    let f2 = reortho_fwd(cam.fwd, cam.up);
    let u2 = reortho_up(cam.fwd, cam.up);
    let r2 = reortho_right(cam.fwd, cam.up);
    assert(f2.x * 0 == 0);
    assert(world_of(f2, u2, r2, v3_zero()) == v3_zero());
    assert(cam.speed_translate * 0 == 0);
    assert(tdiv(0, si) == 0);
    assert(invert_spec(0, ix) == 0);
    assert(0 * cam.speed_rotate == 0);
    assert(angle_of(0, ix, cam.speed_rotate) == 0);
    assert(angle_of(0, iy, cam.speed_rotate) == 0);
    crate::math::lemma_rot3_zero(f2, u2);
    crate::math::lemma_rot3_zero(r2, u2);
    let f3 = rot3(f2, u2, sin_spec(0), cos_spec(0));
    let r3 = rot3(r2, u2, sin_spec(0), cos_spec(0));
    crate::math::lemma_rot3_zero(f3, r3);
    crate::math::lemma_rot3_zero(u2, r3);
    let u4 = rot3(u2, r3, sin_spec(0), cos_spec(0));
    crate::math::lemma_rot3_zero(u4, f3);
}

/// Apply one frame's intent to one camera.
pub fn integrate_camera(cam: &mut DebugCamera, t: &Vec3, r: &Vec3, ix: bool, iy: bool)
    requires
        old(cam).wf(),
        bounded3(t@, 3_000_000),
        bounded3(r@, 600_000_000_000),
        frame_rot_ok(r@, old(cam)@.speed_rotate),
    ensures
        final(cam)@ == integrate_spec(old(cam)@, t@, r@, ix, iy),
{
    let (f2, u2, r2) = reorthonormalize(&cam.fwd, &cam.up);
    let s128: i128 = SCALE as i128;
    proof {
        lemma_mul_bound(f2@.x, t@.x, 2 * SCALE as int, 3_000_000);
        lemma_mul_bound(u2@.x, t@.y, 2 * SCALE as int, 3_000_000);
        lemma_mul_bound(r2@.x, t@.z, 2 * SCALE as int, 3_000_000);
        lemma_mul_bound(f2@.y, t@.x, 2 * SCALE as int, 3_000_000);
        lemma_mul_bound(u2@.y, t@.y, 2 * SCALE as int, 3_000_000);
        lemma_mul_bound(r2@.y, t@.z, 2 * SCALE as int, 3_000_000);
        lemma_mul_bound(f2@.z, t@.x, 2 * SCALE as int, 3_000_000);
        lemma_mul_bound(u2@.z, t@.y, 2 * SCALE as int, 3_000_000);
        lemma_mul_bound(r2@.z, t@.z, 2 * SCALE as int, 3_000_000);
        lemma_tdiv_bound(f2@.x * t@.x + u2@.x * t@.y + r2@.x * t@.z, 18_000_000_000, SCALE as int);
        lemma_tdiv_bound(f2@.y * t@.x + u2@.y * t@.y + r2@.y * t@.z, 18_000_000_000, SCALE as int);
        lemma_tdiv_bound(f2@.z * t@.x + u2@.z * t@.y + r2@.z * t@.z, 18_000_000_000, SCALE as int);
    }
    let wx = div_trunc_wide(
        f2.x as i128 * t.x as i128 + u2.x as i128 * t.y as i128 + r2.x as i128 * t.z as i128,
        s128,
    );
    let wy = div_trunc_wide(
        f2.y as i128 * t.x as i128 + u2.y as i128 * t.y as i128 + r2.y as i128 * t.z as i128,
        s128,
    );
    let wz = div_trunc_wide(
        f2.z as i128 * t.x as i128 + u2.z as i128 * t.y as i128 + r2.z as i128 * t.z as i128,
        s128,
    );
    let st = cam.speed_translate;
    proof {
        lemma_mul_bound(st as int, wx as int, 1_000_000, 18_000_000);
        lemma_mul_bound(st as int, wy as int, 1_000_000, 18_000_000);
        lemma_mul_bound(st as int, wz as int, 1_000_000, 18_000_000);
        lemma_tdiv_bound(st as int * (wx as int), 18_000_000_000_000, SCALE as int);
        lemma_tdiv_bound(st as int * (wy as int), 18_000_000_000_000, SCALE as int);
        lemma_tdiv_bound(st as int * (wz as int), 18_000_000_000_000, SCALE as int);
    }
    let px = (cam.position.x as i128 + div_trunc_wide(st as i128 * wx, s128)) as i64;
    let py = (cam.position.y as i128 + div_trunc_wide(st as i128 * wy, s128)) as i64;
    let pz = (cam.position.z as i128 + div_trunc_wide(st as i128 * wz, s128)) as i64;
    let sr = cam.speed_rotate;
    let axv = invert(r.x, ix);
    let ayv = invert(r.y, iy);
    proof {
        if ix {
            assert((-(r@.x)) * (sr as int) == -(r@.x * (sr as int))) by (nonlinear_arith);
        }
        if iy {
            assert((-(r@.y)) * (sr as int) == -(r@.y * (sr as int))) by (nonlinear_arith);
        }
        lemma_tdiv_bound(invert_spec(r@.x, ix) * (sr as int), 1_000_000, SCALE as int);
        lemma_tdiv_bound(invert_spec(r@.y, iy) * (sr as int), 1_000_000, SCALE as int);
        lemma_tdiv_bound(r@.z * (sr as int), 1_000_000, SCALE as int);
    }
    let ax = div_trunc(axv * sr, SCALE);
    let sxv = sin_fp(ax);
    let cxv = cos_fp(ax);
    let f3 = rotate_about(&f2, &u2, sxv, cxv, Ghost(1000), Ghost(1000));
    let r3 = rotate_about(&r2, &u2, sxv, cxv, Ghost(2000), Ghost(1000));
    proof {
        assert(rot_bound(1000, 1000) == 9000);
        assert(rot_bound(2000, 1000) == 18000);
    }
    let ay = div_trunc(ayv * sr, SCALE);
    let syv = sin_fp(ay);
    let cyv = cos_fp(ay);
    let f4 = rotate_about(&f3, &r3, syv, cyv, Ghost(9000), Ghost(18000));
    let u4 = rotate_about(&u2, &r3, syv, cyv, Ghost(1000), Ghost(18000));
    proof {
        assert(rot_bound(9000, 18000) == 17_829_000);
        assert(rot_bound(1000, 18000) == 1_981_000);
    }
    let az = div_trunc(r.z * sr, SCALE);
    let szv = sin_fp(az);
    let czv = cos_fp(az);
    let u5 = rotate_about(&u4, &f4, szv, czv, Ghost(1_981_000), Ghost(17_829_000));
    cam.fwd = f4;
    cam.up = u5;
    cam.position = Vec3 { x: px, y: py, z: pz };
}

/// The main per-frame step: gather this frame's intent once and apply
/// it identically to every controlled camera.  When neither control
/// scheme is active nothing changes at all.
pub fn camera_movement_system(
    cameras: &mut Vec<DebugCamera>,
    delta: i64,
    keys: &KeysPressed,
    active: &DebugCameraActive,
    kb: &KeyboardBindings,
    gb: &GamepadBindings,
    mouse: &Vec<MouseDelta>,
    pads: &GamepadState,
    active_pad: &ActiveGamepad,
)
    requires
        0 <= delta <= 1_000_000,
        pads.wf(),
        mouse_wf(mouse@),
        (active.keymouse || active.gamepad) ==> forall|i: int|
            0 <= i < old(cameras)@.len() ==> (#[trigger] old(cameras)@[i]).wf(),
        (active.keymouse || active.gamepad) ==> forall|i: int|
            0 <= i < old(cameras)@.len() ==> frame_rot_ok(
                rotate_intent(delta as int, *keys, *active, *kb, *gb, *pads, active_pad.0, mouse@),
                (#[trigger] old(cameras)@[i])@.speed_rotate,
            ),
    ensures
        final(cameras)@.len() == old(cameras)@.len(),
        !(active.keymouse || active.gamepad) ==> final(cameras)@ == old(cameras)@,
        (active.keymouse || active.gamepad) ==> forall|i: int|
            0 <= i < final(cameras)@.len() ==> (#[trigger] final(cameras)@[i])@ == integrate_spec(
                old(cameras)@[i]@,
                translate_intent(delta as int, *keys, *active, *kb, *gb, *pads, active_pad.0),
                rotate_intent(delta as int, *keys, *active, *kb, *gb, *pads, active_pad.0, mouse@),
                active.invert_x,
                active.invert_y,
            ),
{
    if !(active.gamepad || active.keymouse) {
        return ;
    }
    let (tv, rv) = accumulate_intent(delta, keys, active, kb, gb, mouse, pads, active_pad);
    let ghost tspec = translate_intent(
        delta as int, *keys, *active, *kb, *gb, *pads, active_pad.0,
    );
    let ghost rspec = rotate_intent(
        delta as int, *keys, *active, *kb, *gb, *pads, active_pad.0, mouse@,
    );
    let mut i: usize = 0;
    while i < cameras.len()
        invariant
            i <= cameras@.len(),
            cameras@.len() == old(cameras)@.len(),
            tv@ == tspec,
            rv@ == rspec,
            bounded3(tv@, 3_000_000),
            bounded3(rv@, 600_000_000_000),
            forall|j: int| 0 <= j < old(cameras)@.len() ==> (#[trigger] old(cameras)@[j]).wf(),
            forall|j: int|
                0 <= j < old(cameras)@.len() ==> frame_rot_ok(
                    rspec,
                    (#[trigger] old(cameras)@[j])@.speed_rotate,
                ),
            forall|j: int|
                0 <= j < i ==> (#[trigger] cameras@[j])@ == integrate_spec(
                    old(cameras)@[j]@,
                    tspec,
                    rspec,
                    active.invert_x,
                    active.invert_y,
                ),
            forall|j: int|
                i <= j < cameras@.len() ==> (#[trigger] cameras@[j]) == old(cameras)@[j],
        decreases cameras@.len() - i,
    {
        let mut c = cameras[i];
        proof {
            assert(cameras@[i as int] == old(cameras)@[i as int]);
        }
        integrate_camera(&mut c, &tv, &rv, active.invert_x, active.invert_y);
        cameras.set(i, c);
        i = i + 1;
    }
}

/// Publish each controlled camera's world transform: positioned at
/// the camera, looking toward `position + fwd` with its up vector as
/// the up reference.  Left untouched when both schemes are off, so
/// outside code can drive the transform instead.
pub fn camera_update_system(
    transforms: &mut Vec<Transform>,
    cameras: &Vec<DebugCamera>,
    active: &DebugCameraActive,
)
    requires
        old(transforms)@.len() == cameras@.len(),
        (active.keymouse || active.gamepad) ==> forall|i: int|
            0 <= i < cameras@.len() ==> bounded3(
                (#[trigger] cameras@[i]).position@,
                POSITION_MAX as int,
            ) && bounded3(cameras@[i].fwd@, BASIS_MAX as int),
    ensures
        final(transforms)@.len() == old(transforms)@.len(),
        !(active.keymouse || active.gamepad) ==> final(transforms)@ == old(transforms)@,
        (active.keymouse || active.gamepad) ==> forall|i: int|
            0 <= i < final(transforms)@.len() ==> (#[trigger] final(transforms)@[i]).translation
                == cameras@[i].position && final(transforms)@[i].target@ == add_i(
                cameras@[i].position@,
                cameras@[i].fwd@,
            ) && final(transforms)@[i].up == cameras@[i].up,
{
    if active.gamepad || active.keymouse {
        let mut i: usize = 0;
        while i < cameras.len()
            invariant
                i <= cameras@.len(),
                transforms@.len() == cameras@.len(),
                active.keymouse || active.gamepad,
                forall|j: int|
                    0 <= j < cameras@.len() ==> bounded3(
                        (#[trigger] cameras@[j]).position@,
                        POSITION_MAX as int,
                    ) && bounded3(cameras@[j].fwd@, BASIS_MAX as int),
                forall|j: int|
                    0 <= j < i ==> (#[trigger] transforms@[j]).translation == cameras@[j].position
                        && transforms@[j].target@ == add_i(
                        cameras@[j].position@,
                        cameras@[j].fwd@,
                    ) && transforms@[j].up == cameras@[j].up,
                forall|j: int|
                    i <= j < transforms@.len() ==> (#[trigger] transforms@[j]) == old(
                        transforms,
                    )@[j],
            decreases cameras@.len() - i,
        {
            let cam = cameras[i];
            let tgt = Vec3 {
                x: cam.position.x + cam.fwd.x,
                y: cam.position.y + cam.fwd.y,
                z: cam.position.z + cam.fwd.z,
            };
            transforms.set(i, Transform { translation: cam.position, target: tgt, up: cam.up });
            i = i + 1;
        }
    }
}

/// What one cursor-grab pass does: when the observed visibility
/// disagrees with the keymouse scheme being active, toggle it and set
/// the grab mode to match; otherwise touch nothing.
pub open spec fn cursor_step(c: CursorState, keymouse: bool) -> CursorState {
    if c.visible == keymouse {
        CursorState {
            visible: !c.visible,
            grab_mode: if !c.visible {
                CursorMode::Free
            } else {
                CursorMode::Locked
            },
        }
    } else {
        c
    }
}

/// Keep the cursor hidden and locked exactly while keymouse control
/// is active.
pub fn cursor_grab_system(window: &mut CursorState, active: &DebugCameraActive)
    ensures
        *final(window) == cursor_step(*old(window), active.keymouse),
        final(window).visible == !active.keymouse,
{
    if window.visible == active.keymouse {
        window.visible = !window.visible;
        window.grab_mode = if window.visible {
            CursorMode::Free
        } else {
            CursorMode::Locked
        };
    }
}

/// Cursor grabbing is idempotent: one pass settles the cursor, and a
/// second pass under the same toggle state changes nothing.
pub proof fn lemma_cursor_grab_idempotent(c: CursorState, keymouse: bool)
    ensures
        cursor_step(cursor_step(c, keymouse), keymouse) == cursor_step(c, keymouse),
{
}

/// Next active-gamepad identity after one connection event: the first
/// gamepad to connect while none is active wins; only the active
/// gamepad's disconnect clears it.
pub open spec fn conn_step(a: Option<u64>, ev: GamepadEvent) -> Option<u64> {
    match ev {
        GamepadEvent::Connected { id, name: _ } => match a {
            Option::None => Option::Some(id),
            Option::Some(_) => a,
        },
        GamepadEvent::Disconnected { id } => match a {
            Option::Some(x) => if x == id {
                Option::None
            } else {
                a
            },
            Option::None => a,
        },
    }
}

/// Deadzone settings after one connection event: set once on each
/// transition from no active gamepad to an active one.
pub open spec fn conn_step_settings(
    a: Option<u64>,
    s: GamepadSettingsState,
    ev: GamepadEvent,
) -> GamepadSettingsState {
    match ev {
        GamepadEvent::Connected { id: _, name: _ } => match a {
            Option::None => GamepadSettingsState {
                deadzone_lowerbound: DEADZONE_LOWER,
                deadzone_upperbound: DEADZONE_UPPER,
            },
            Option::Some(_) => s,
        },
        GamepadEvent::Disconnected { id: _ } => s,
    }
}

/// Log records one connection event emits.
pub open spec fn conn_step_logs(a: Option<u64>, ev: GamepadEvent) -> Seq<GamepadLog> {
    match ev {
        GamepadEvent::Connected { id, name } => match a {
            Option::None => seq![GamepadLog::ActiveSet { id, name }],
            Option::Some(_) => Seq::<GamepadLog>::empty(),
        },
        GamepadEvent::Disconnected { id } => match a {
            Option::Some(x) => if x == id {
                seq![GamepadLog::ActiveRemoved { id }]
            } else {
                Seq::<GamepadLog>::empty()
            },
            Option::None => Seq::<GamepadLog>::empty(),
        },
    }
}

/// Active gamepad after a frame's whole event stream.
pub open spec fn tracker_active(a: Option<u64>, evs: Seq<GamepadEvent>) -> Option<u64>
    decreases evs.len(),
{
    if evs.len() == 0 {
        a
    } else {
        tracker_active(conn_step(a, evs[0]), evs.drop_first())
    }
}

/// Deadzone settings after a frame's whole event stream.
pub open spec fn tracker_settings(
    a: Option<u64>,
    s: GamepadSettingsState,
    evs: Seq<GamepadEvent>,
) -> GamepadSettingsState
    decreases evs.len(),
{
    if evs.len() == 0 {
        s
    } else {
        tracker_settings(conn_step(a, evs[0]), conn_step_settings(a, s, evs[0]), evs.drop_first())
    }
}

/// Log records of a frame's whole event stream, in event order.
pub open spec fn tracker_logs(a: Option<u64>, evs: Seq<GamepadEvent>) -> Seq<GamepadLog>
    decreases evs.len(),
{
    if evs.len() == 0 {
        Seq::<GamepadLog>::empty()
    } else {
        conn_step_logs(a, evs[0]) + tracker_logs(conn_step(a, evs[0]), evs.drop_first())
    }
}

/// Drain a frame's gamepad connection events, maintaining the single
/// active-gamepad identity, configuring the deadzone when a gamepad
/// first becomes active, and reporting the informational records to
/// log.
pub fn gamepad_connections(
    active: &mut ActiveGamepad,
    settings: &mut GamepadSettingsState,
    events: Vec<GamepadEvent>,
) -> (logs: Vec<GamepadLog>)
    ensures
        final(active).0 == tracker_active(old(active).0, events@),
        *final(settings) == tracker_settings(old(active).0, *old(settings), events@),
        logs@ == tracker_logs(old(active).0, events@),
{
    let ghost a0 = old(active).0;
    let ghost s0 = *old(settings);
    let ghost full = events@;
    let mut evs = events;
    let mut logs: Vec<GamepadLog> = Vec::new();
    while evs.len() > 0
        invariant
            tracker_active(a0, full) == tracker_active(active.0, evs@),
            tracker_settings(a0, s0, full) == tracker_settings(active.0, *settings, evs@),
            tracker_logs(a0, full) == logs@ + tracker_logs(active.0, evs@),
        decreases evs@.len(),
    {
        let ghost pre = evs@;
        let ghost pre_a = active.0;
        let ghost pre_logs = logs@;
        let ev = evs.remove(0);
        proof {
            assert(pre.remove(0) =~= pre.drop_first());
            assert(ev == pre[0]);
            assert((pre_logs + conn_step_logs(pre_a, pre[0])) + tracker_logs(
                conn_step(pre_a, pre[0]),
                pre.drop_first(),
            ) =~= pre_logs + (conn_step_logs(pre_a, pre[0]) + tracker_logs(
                conn_step(pre_a, pre[0]),
                pre.drop_first(),
            )));
        }
        match ev {
            GamepadEvent::Connected { id, name } => {
                if active.0.is_none() {
                    logs.push(GamepadLog::ActiveSet { id, name });
                    active.0 = Some(id);
                    settings.deadzone_lowerbound = DEADZONE_LOWER;
                    settings.deadzone_upperbound = DEADZONE_UPPER;
                    proof {
                        assert(logs@ =~= pre_logs + conn_step_logs(pre_a, pre[0]));
                    }
                } else {
                    proof {
                        assert(conn_step_logs(pre_a, pre[0]) =~= Seq::<GamepadLog>::empty());
                        assert(logs@ =~= pre_logs + conn_step_logs(pre_a, pre[0]));
                    }
                }
            },
            GamepadEvent::Disconnected { id } => {
                let mut remove_pad = false;
                match active.0 {
                    Some(x) => {
                        if x == id {
                            logs.push(GamepadLog::ActiveRemoved { id });
                            remove_pad = true;
                        }
                    },
                    None => {},
                }
                if remove_pad {
                    active.0 = None;
                }
                proof {
                    assert(logs@ =~= pre_logs + conn_step_logs(pre_a, pre[0]));
                }
            },
        }
    }
    proof {
        assert(tracker_logs(active.0, evs@) =~= Seq::<GamepadLog>::empty());
        assert(logs@ + Seq::<GamepadLog>::empty() =~= logs@);
    }
    logs
}

} // verus!
