//! Shared per-process state: toggles, binding tables and the active
//! gamepad identity, together with the plain input-snapshot types the
//! host fills in each frame.

use vstd::prelude::*;
use crate::math::{basis_ok, basis_ok_check, bounded3, Vec3, V3, BASIS_MAX, SCALE};

verus! {

/// Largest position component the integrator accepts.
pub const POSITION_MAX: i64 = 1_000_000_000_000_000;

/// Largest translation or rotation speed the integrator accepts.
pub const SPEED_MAX: i64 = 1_000_000;

/// Per-camera frame state: an orthonormal-up-to-drift basis pair, a
/// world position, and the two speeds.  The right vector is always
/// derived as `fwd x up`, never stored.
#[derive(Clone, Copy, Debug, PartialEq, Eq, Structural)]
pub struct DebugCamera {
    pub fwd: Vec3,
    pub up: Vec3,
    pub position: Vec3,
    pub speed_translate: i64,
    pub speed_rotate: i64,
}

/// Mathematical view of a [`DebugCamera`].
pub struct Cam3 {
    pub fwd: V3,
    pub up: V3,
    pub position: V3,
    pub speed_translate: int,
    pub speed_rotate: int,
}

impl View for DebugCamera {
    type V = Cam3;

    open spec fn view(&self) -> Cam3 {
        Cam3 {
            fwd: self.fwd@,
            up: self.up@,
            position: self.position@,
            speed_translate: self.speed_translate as int,
            speed_rotate: self.speed_rotate as int,
        }
    }
}

impl DebugCamera {
    /// A camera the integrator can work on: bounded components,
    /// non-negative bounded speeds, and a basis pair that the
    /// correction step does not collapse (in particular not parallel
    /// and not zero).
    pub open spec fn wf(self) -> bool {
        &&& bounded3(self.fwd@, BASIS_MAX as int)
        &&& bounded3(self.up@, BASIS_MAX as int)
        &&& basis_ok(self.fwd@, self.up@)
        &&& bounded3(self.position@, POSITION_MAX as int)
        &&& 0 <= self.speed_translate <= SPEED_MAX
        &&& 0 <= self.speed_rotate <= SPEED_MAX
    }

    /// Decide [`DebugCamera::wf`], so a host can test a camera before
    /// handing it to the integrator.
    pub fn check_wf(&self) -> (r: bool)
        ensures
            r == self.wf(),
    {
        let b = BASIS_MAX;
        let in_bounds = -b <= self.fwd.x && self.fwd.x <= b && -b <= self.fwd.y && self.fwd.y
            <= b && -b <= self.fwd.z && self.fwd.z <= b && -b <= self.up.x && self.up.x <= b
            && -b <= self.up.y && self.up.y <= b && -b <= self.up.z && self.up.z <= b
            && -POSITION_MAX <= self.position.x && self.position.x <= POSITION_MAX
            && -POSITION_MAX <= self.position.y && self.position.y <= POSITION_MAX
            && -POSITION_MAX <= self.position.z && self.position.z <= POSITION_MAX
            && 0 <= self.speed_translate && self.speed_translate <= SPEED_MAX
            && 0 <= self.speed_rotate && self.speed_rotate <= SPEED_MAX;
        if in_bounds {
            basis_ok_check(&self.fwd, &self.up)
        } else {
            false
        }
    }
}

impl Default for DebugCamera {
    /// At the origin, facing along negative z with up along positive
    /// y, unit speeds.
    fn default() -> (r: DebugCamera)
        ensures
            r.fwd@ == (V3 { x: 0, y: 0, z: -(SCALE as int) }),
            r.up@ == (V3 { x: 0, y: SCALE as int, z: 0 }),
            r.position@ == (V3 { x: 0, y: 0, z: 0 }),
            r.speed_translate == SCALE,
            r.speed_rotate == SCALE,
    {
        DebugCamera {
            fwd: Vec3 { x: 0, y: 0, z: -SCALE },
            up: Vec3 { x: 0, y: SCALE, z: 0 },
            position: Vec3 { x: 0, y: 0, z: 0 },
            speed_translate: SCALE,
            speed_rotate: SCALE,
        }
    }
}

/// Identity of the gamepad currently driving the camera, if any.
/// Owned by the connection tracker; at most one gamepad is active.
#[derive(Clone, Copy, Debug, PartialEq, Eq, Structural)]
pub struct ActiveGamepad(pub Option<u64>);

/// Which control schemes are live this frame, and the rotation-axis
/// inversion switches.
#[derive(Clone, Copy, Debug, PartialEq, Eq, Structural)]
pub struct DebugCameraActive {
    /// Keyboard and mouse bindings drive any controlled camera.
    pub keymouse: bool,
    /// Gamepad bindings drive any controlled camera.
    pub gamepad: bool,
    /// Negate the yaw-like rotation input.
    pub invert_x: bool,
    /// Negate the pitch-like rotation input.
    pub invert_y: bool,
}

impl Default for DebugCameraActive {
    /// Both schemes enabled, no inversion.
    fn default() -> (r: DebugCameraActive)
        ensures
            r.keymouse,
            r.gamepad,
            !r.invert_x,
            !r.invert_y,
    {
        DebugCameraActive { keymouse: true, gamepad: true, invert_x: false, invert_y: false }
    }
}

/// Host-defined key identifiers for the eight keyboard channels.
/// Keyboard channels are binary: a channel contributes fully while its
/// key is down.
#[derive(Clone, Copy, Debug, PartialEq, Eq, Structural)]
pub struct KeyboardBindings {
    pub fwd: u32,
    pub bwd: u32,
    pub up: u32,
    pub down: u32,
    pub left: u32,
    pub right: u32,
    pub roll_left: u32,
    pub roll_right: u32,
}

impl Default for KeyboardBindings {
    /// Distinct identifiers, one per channel; the host maps them to
    /// physical keys (conventionally W/S/Space/LShift/A/D/Q/E).
    fn default() -> (r: KeyboardBindings)
        ensures
            r == (KeyboardBindings {
                fwd: 0u32,
                bwd: 1u32,
                up: 2u32,
                down: 3u32,
                left: 4u32,
                right: 5u32,
                roll_left: 6u32,
                roll_right: 7u32,
            }),
    {
        KeyboardBindings {
            fwd: 0,
            bwd: 1,
            up: 2,
            down: 3,
            left: 4,
            right: 5,
            roll_left: 6,
            roll_right: 7,
        }
    }
}

/// A concrete gamepad input source for one logical channel.
#[derive(Clone, Copy, Debug, PartialEq, Eq, Structural)]
pub enum GamepadInput {
    /// A signed analog axis, read by axis identifier.
    Axis(u32),
    /// A digital button, read by button identifier.
    Button(u32),
    /// An analog (trigger-style) button, read by button identifier.
    Trigger(u32),
}

/// Gamepad input sources for the twelve logical motion channels.
#[derive(Clone, Copy, Debug, PartialEq, Eq, Structural)]
pub struct GamepadBindings {
    pub fwd: GamepadInput,
    pub bwd: GamepadInput,
    pub up: GamepadInput,
    pub down: GamepadInput,
    pub left: GamepadInput,
    pub right: GamepadInput,
    pub roll_left: GamepadInput,
    pub roll_right: GamepadInput,
    pub yaw_left: GamepadInput,
    pub yaw_right: GamepadInput,
    pub pitch_up: GamepadInput,
    pub pitch_down: GamepadInput,
}

/// Axis identifier conventionally mapped to the left stick, horizontal.
pub const AXIS_LEFT_X: u32 = 0;

/// Axis identifier conventionally mapped to the left stick, vertical.
pub const AXIS_LEFT_Y: u32 = 1;

/// Axis identifier conventionally mapped to the right stick, horizontal.
pub const AXIS_RIGHT_X: u32 = 2;

/// Axis identifier conventionally mapped to the right stick, vertical.
pub const AXIS_RIGHT_Y: u32 = 3;

/// Button identifier conventionally mapped to the left shoulder button.
pub const BUTTON_LEFT_TRIGGER: u32 = 0;

/// Button identifier conventionally mapped to the right shoulder button.
pub const BUTTON_RIGHT_TRIGGER: u32 = 1;

/// Button identifier conventionally mapped to the left analog trigger.
pub const BUTTON_LEFT_TRIGGER_2: u32 = 2;

/// Button identifier conventionally mapped to the right analog trigger.
pub const BUTTON_RIGHT_TRIGGER_2: u32 = 3;

impl Default for GamepadBindings {
    /// Sticks drive translation and yaw/pitch, analog triggers drive
    /// vertical motion, shoulder buttons drive roll.  Opposite channels
    /// deliberately share one physical axis and are told apart by the
    /// sign they ask for.
    fn default() -> (r: GamepadBindings)
        ensures
            r == (GamepadBindings {
                fwd: GamepadInput::Axis(AXIS_LEFT_Y),
                bwd: GamepadInput::Axis(AXIS_LEFT_Y),
                up: GamepadInput::Trigger(BUTTON_RIGHT_TRIGGER_2),
                down: GamepadInput::Trigger(BUTTON_LEFT_TRIGGER_2),
                left: GamepadInput::Axis(AXIS_LEFT_X),
                right: GamepadInput::Axis(AXIS_LEFT_X),
                roll_left: GamepadInput::Button(BUTTON_LEFT_TRIGGER),
                roll_right: GamepadInput::Button(BUTTON_RIGHT_TRIGGER),
                yaw_left: GamepadInput::Axis(AXIS_RIGHT_X),
                yaw_right: GamepadInput::Axis(AXIS_RIGHT_X),
                pitch_up: GamepadInput::Axis(AXIS_RIGHT_Y),
                pitch_down: GamepadInput::Axis(AXIS_RIGHT_Y),
            }),
    {
        GamepadBindings {
            fwd: GamepadInput::Axis(AXIS_LEFT_Y),
            bwd: GamepadInput::Axis(AXIS_LEFT_Y),
            up: GamepadInput::Trigger(BUTTON_RIGHT_TRIGGER_2),
            down: GamepadInput::Trigger(BUTTON_LEFT_TRIGGER_2),
            left: GamepadInput::Axis(AXIS_LEFT_X),
            right: GamepadInput::Axis(AXIS_LEFT_X),
            roll_left: GamepadInput::Button(BUTTON_LEFT_TRIGGER),
            roll_right: GamepadInput::Button(BUTTON_RIGHT_TRIGGER),
            yaw_left: GamepadInput::Axis(AXIS_RIGHT_X),
            yaw_right: GamepadInput::Axis(AXIS_RIGHT_X),
            pitch_up: GamepadInput::Axis(AXIS_RIGHT_Y),
            pitch_down: GamepadInput::Axis(AXIS_RIGHT_Y),
        }
    }
}

/// The keys the host reports as held down this frame.
#[derive(Clone, Debug)]
pub struct KeysPressed {
    pub keys: Vec<u32>,
}

impl KeysPressed {
    /// Whether `key` is held down.
    pub fn pressed(&self, key: u32) -> (r: bool)
        ensures
            r == self.keys@.contains(key),
    {
        let mut i: usize = 0;
        while i < self.keys.len()
            invariant
                0 <= i <= self.keys@.len(),
                forall|j: int| 0 <= j < i ==> self.keys@[j] != key,
            decreases self.keys@.len() - i,
        {
            if self.keys[i] == key {
                return true;
            }
            i = i + 1;
        }
        false
    }
}

/// One axis value the host read from one gamepad this frame.
#[derive(Clone, Copy, Debug)]
pub struct AxisReading {
    pub pad: u64,
    pub axis: u32,
    pub value: i64,
}

/// One digital button the host reports as pressed this frame.
#[derive(Clone, Copy, Debug)]
pub struct ButtonPressed {
    pub pad: u64,
    pub button: u32,
}

/// One analog button (trigger) value the host read this frame.
#[derive(Clone, Copy, Debug)]
pub struct ButtonAxisReading {
    pub pad: u64,
    pub button: u32,
    pub value: i64,
}

/// Value of the first reading for `(pad, axis)`, if any.
pub open spec fn axis_lookup(s: Seq<AxisReading>, pad: u64, axis: u32) -> Option<i64>
    decreases s.len(),
{
    if s.len() == 0 {
        None
    } else if s[0].pad == pad && s[0].axis == axis {
        Some(s[0].value)
    } else {
        axis_lookup(s.drop_first(), pad, axis)
    }
}

/// Whether `(pad, button)` is reported pressed.
pub open spec fn button_lookup(s: Seq<ButtonPressed>, pad: u64, button: u32) -> bool
    decreases s.len(),
{
    if s.len() == 0 {
        false
    } else if s[0].pad == pad && s[0].button == button {
        true
    } else {
        button_lookup(s.drop_first(), pad, button)
    }
}

/// Value of the first trigger reading for `(pad, button)`, if any.
pub open spec fn button_axis_lookup(s: Seq<ButtonAxisReading>, pad: u64, button: u32) -> Option<
    i64,
>
    decreases s.len(),
{
    if s.len() == 0 {
        None
    } else if s[0].pad == pad && s[0].button == button {
        Some(s[0].value)
    } else {
        button_axis_lookup(s.drop_first(), pad, button)
    }
}

/// Everything the host read from the gamepads this frame.
#[derive(Clone, Debug)]
pub struct GamepadState {
    pub axes: Vec<AxisReading>,
    pub buttons: Vec<ButtonPressed>,
    pub button_axes: Vec<ButtonAxisReading>,
}

impl GamepadState {
    /// Analog values are normalized: every axis and trigger reading
    /// lies in `[-1, 1]` fixed point.
    pub open spec fn wf(self) -> bool {
        &&& forall|i: int|
            0 <= i < self.axes@.len() ==> -SCALE <= (#[trigger] self.axes@[i]).value <= SCALE
        &&& forall|i: int|
            0 <= i < self.button_axes@.len() ==> -SCALE <= (
            #[trigger] self.button_axes@[i]).value <= SCALE
    }

    /// Current value of an axis of one gamepad, if the host read one.
    pub fn get_axis(&self, pad: u64, axis: u32) -> (r: Option<i64>)
        ensures
            r == axis_lookup(self.axes@, pad, axis),
    {
        let mut i: usize = 0;
        proof {
            assert(self.axes@.skip(0) =~= self.axes@);
        }
        while i < self.axes.len()
            invariant
                0 <= i <= self.axes@.len(),
                axis_lookup(self.axes@, pad, axis) == axis_lookup(
                    self.axes@.skip(i as int),
                    pad,
                    axis,
                ),
            decreases self.axes@.len() - i,
        {
            let a = self.axes[i];
            proof {
                assert(self.axes@.skip(i as int)[0] == self.axes@[i as int]);
                assert(self.axes@.skip(i as int).drop_first() =~= self.axes@.skip(i as int + 1));
            }
            if a.pad == pad && a.axis == axis {
                return Some(a.value);
            }
            i = i + 1;
        }
        None
    }

    /// Whether a button of one gamepad is pressed.
    pub fn is_pressed(&self, pad: u64, button: u32) -> (r: bool)
        ensures
            r == button_lookup(self.buttons@, pad, button),
    {
        let mut i: usize = 0;
        proof {
            assert(self.buttons@.skip(0) =~= self.buttons@);
        }
        while i < self.buttons.len()
            invariant
                0 <= i <= self.buttons@.len(),
                button_lookup(self.buttons@, pad, button) == button_lookup(
                    self.buttons@.skip(i as int),
                    pad,
                    button,
                ),
            decreases self.buttons@.len() - i,
        {
            let b = self.buttons[i];
            proof {
                assert(self.buttons@.skip(i as int)[0] == self.buttons@[i as int]);
                assert(self.buttons@.skip(i as int).drop_first() =~= self.buttons@.skip(
                    i as int + 1,
                ));
            }
            if b.pad == pad && b.button == button {
                return true;
            }
            i = i + 1;
        }
        false
    }

    /// Current analog value of a trigger of one gamepad, if any.
    pub fn get_button_axis(&self, pad: u64, button: u32) -> (r: Option<i64>)
        ensures
            r == button_axis_lookup(self.button_axes@, pad, button),
    {
        let mut i: usize = 0;
        proof {
            assert(self.button_axes@.skip(0) =~= self.button_axes@);
        }
        while i < self.button_axes.len()
            invariant
                0 <= i <= self.button_axes@.len(),
                button_axis_lookup(self.button_axes@, pad, button) == button_axis_lookup(
                    self.button_axes@.skip(i as int),
                    pad,
                    button,
                ),
            decreases self.button_axes@.len() - i,
        {
            let b = self.button_axes[i];
            proof {
                assert(self.button_axes@.skip(i as int)[0] == self.button_axes@[i as int]);
                assert(self.button_axes@.skip(i as int).drop_first() =~= self.button_axes@.skip(
                    i as int + 1,
                ));
            }
            if b.pad == pad && b.button == button {
                return Some(b.value);
            }
            i = i + 1;
        }
        None
    }
}

/// One mouse-motion delta event, in fixed-point screen units.
#[derive(Clone, Copy, Debug, PartialEq, Eq, Structural)]
pub struct MouseDelta {
    pub x: i64,
    pub y: i64,
}

/// Global default axis deadzone configuration of the host's gamepad
/// layer, adjusted once when a gamepad first becomes active.
#[derive(Clone, Copy, Debug, PartialEq, Eq, Structural)]
pub struct GamepadSettingsState {
    pub deadzone_lowerbound: i64,
    pub deadzone_upperbound: i64,
}

/// One gamepad connection event drained from the host this frame.
#[derive(Clone, Debug)]
pub enum GamepadEvent {
    Connected { id: u64, name: String },
    Disconnected { id: u64 },
}

/// Informational record the connection tracker emits for the host's
/// log.
#[derive(Clone, Debug)]
pub enum GamepadLog {
    ActiveSet { id: u64, name: String },
    ActiveRemoved { id: u64 },
}

/// How the window holds the cursor.
#[derive(Clone, Copy, Debug, PartialEq, Eq, Structural)]
pub enum CursorMode {
    Free,
    Confined,
    Locked,
}

/// Observable cursor state of the primary window.
#[derive(Clone, Copy, Debug, PartialEq, Eq, Structural)]
pub struct CursorState {
    pub visible: bool,
    pub grab_mode: CursorMode,
}

/// A published world transform: positioned at `translation`, looking
/// toward `target`, with `up` as the up reference.
#[derive(Clone, Copy, Debug, PartialEq, Eq, Structural)]
pub struct Transform {
    pub translation: Vec3,
    pub target: Vec3,
    pub up: Vec3,
}

} // verus!
