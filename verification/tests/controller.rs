use debug_camera::math::{Vec3, SCALE};
use debug_camera::resources::{
    ActiveGamepad, AxisReading, ButtonPressed, CursorMode, CursorState, DebugCamera,
    DebugCameraActive, GamepadBindings, GamepadEvent, GamepadInput, GamepadLog,
    GamepadSettingsState, GamepadState, KeyboardBindings, KeysPressed, MouseDelta, Transform,
    AXIS_LEFT_X, AXIS_LEFT_Y, AXIS_RIGHT_X,
};
use debug_camera::systems::{
    accumulate_intent, buttons_to_dir, camera_movement_system, camera_update_system,
    cursor_grab_system, gamepad_connections, input_value, invert,
};

fn empty_pads() -> GamepadState {
    GamepadState { axes: vec![], buttons: vec![], button_axes: vec![] }
}

fn no_keys() -> KeysPressed {
    KeysPressed { keys: vec![] }
}

#[test]
fn buttons_to_dir_values() {
    assert_eq!(buttons_to_dir(true, false), SCALE);
    assert_eq!(buttons_to_dir(false, true), -SCALE);
    assert_eq!(buttons_to_dir(true, true), 0);
    assert_eq!(buttons_to_dir(false, false), 0);
}

#[test]
fn invert_flips_only_when_asked() {
    assert_eq!(invert(37, false), 37);
    assert_eq!(invert(37, true), -37);
    assert_eq!(invert(-5, true), 5);
}

#[test]
fn axis_sign_filter_returns_zero_on_opposite_sign() {
    // An axis tilted the wrong way contributes exactly nothing.
    let pads = GamepadState {
        axes: vec![AxisReading { pad: 7, axis: 0, value: -300 }],
        buttons: vec![],
        button_axes: vec![],
    };
    assert_eq!(input_value(&pads, 7, &GamepadInput::Axis(0), SCALE), 0);
    assert_eq!(input_value(&pads, 7, &GamepadInput::Axis(0), -SCALE), -300);
    // Absent device or axis: zero, never an error.
    assert_eq!(input_value(&pads, 8, &GamepadInput::Axis(0), SCALE), 0);
    assert_eq!(input_value(&pads, 7, &GamepadInput::Axis(3), SCALE), 0);
}

#[test]
fn button_and_trigger_resolution() {
    let pads = GamepadState {
        axes: vec![],
        buttons: vec![ButtonPressed { pad: 7, button: 4 }],
        button_axes: vec![debug_camera::resources::ButtonAxisReading {
            pad: 7,
            button: 9,
            value: 700,
        }],
    };
    assert_eq!(input_value(&pads, 7, &GamepadInput::Button(4), SCALE), SCALE);
    assert_eq!(input_value(&pads, 7, &GamepadInput::Button(4), -SCALE), -SCALE);
    assert_eq!(input_value(&pads, 7, &GamepadInput::Button(5), SCALE), 0);
    assert_eq!(input_value(&pads, 7, &GamepadInput::Trigger(9), -SCALE), -700);
    assert_eq!(input_value(&pads, 7, &GamepadInput::Trigger(9), SCALE), 700);
}

#[test]
fn gamepad_intent_accumulation() {
    let active = DebugCameraActive::default();
    let kb = KeyboardBindings::default();
    let gb = GamepadBindings::default();
    let pads = GamepadState {
        axes: vec![
            AxisReading { pad: 7, axis: AXIS_LEFT_Y, value: 800 },
            AxisReading { pad: 7, axis: AXIS_LEFT_X, value: -400 },
            AxisReading { pad: 7, axis: AXIS_RIGHT_X, value: 600 },
        ],
        buttons: vec![ButtonPressed { pad: 7, button: 0 }],
        button_axes: vec![debug_camera::resources::ButtonAxisReading {
            pad: 7,
            button: 3,
            value: 900,
        }],
    };
    let (t, r) = accumulate_intent(
        1000,
        &no_keys(),
        &active,
        &kb,
        &gb,
        &vec![],
        &pads,
        &ActiveGamepad(Some(7)),
    );
    assert_eq!(t, Vec3 { x: 800, y: 900, z: -400 });
    // Both yaw channels share one axis; the matching one is negated
    // onto the yaw component.  Roll comes from the left shoulder
    // button, requested negative.
    assert_eq!(r, Vec3 { x: -600, y: 0, z: -1000 });
}

#[test]
fn keyboard_intent_at_half_weight() {
    let active = DebugCameraActive::default();
    let kb = KeyboardBindings::default();
    let gb = GamepadBindings::default();
    let keys = KeysPressed { keys: vec![kb.fwd] };
    let (t, r) = accumulate_intent(
        1000,
        &keys,
        &active,
        &kb,
        &gb,
        &vec![],
        &empty_pads(),
        &ActiveGamepad(None),
    );
    assert_eq!(t, Vec3 { x: 500, y: 0, z: 0 });
    assert_eq!(r, Vec3 { x: 0, y: 0, z: 0 });
}

#[test]
fn mouse_motion_sums_and_negates() {
    let active = DebugCameraActive::default();
    let kb = KeyboardBindings::default();
    let gb = GamepadBindings::default();
    let mouse = vec![MouseDelta { x: 10_000, y: -2_000 }, MouseDelta { x: 5_000, y: 1_000 }];
    let (t, r) = accumulate_intent(
        1000,
        &no_keys(),
        &active,
        &kb,
        &gb,
        &mouse,
        &empty_pads(),
        &ActiveGamepad(None),
    );
    assert_eq!(t, Vec3 { x: 0, y: 0, z: 0 });
    assert_eq!(r, Vec3 { x: -7_500, y: 500, z: 0 });
}

#[test]
fn zero_delta_yields_zero_intent_and_still_camera() {
    let active = DebugCameraActive::default();
    let kb = KeyboardBindings::default();
    let gb = GamepadBindings::default();
    let keys = KeysPressed { keys: vec![kb.fwd, kb.up, kb.roll_left] };
    let mouse = vec![MouseDelta { x: 999, y: -999 }];
    let pads = GamepadState {
        axes: vec![AxisReading { pad: 7, axis: AXIS_LEFT_Y, value: 1000 }],
        buttons: vec![],
        button_axes: vec![],
    };
    let apad = ActiveGamepad(Some(7));
    let (t, r) = accumulate_intent(0, &keys, &active, &kb, &gb, &mouse, &pads, &apad);
    assert_eq!(t, Vec3 { x: 0, y: 0, z: 0 });
    assert_eq!(r, Vec3 { x: 0, y: 0, z: 0 });
    let mut cams = vec![DebugCamera::default()];
    camera_movement_system(&mut cams, 0, &keys, &active, &kb, &gb, &mouse, &pads, &apad);
    assert_eq!(cams[0], DebugCamera::default());
}

#[test]
fn keyboard_forward_moves_along_fwd() {
    // Forward key held one second at default speeds: intent x = 0.5,
    // the camera advances half a unit along its forward vector.
    let active = DebugCameraActive::default();
    let kb = KeyboardBindings::default();
    let gb = GamepadBindings::default();
    let keys = KeysPressed { keys: vec![kb.fwd] };
    let mut cams = vec![DebugCamera::default()];
    camera_movement_system(
        &mut cams,
        1000,
        &keys,
        &active,
        &kb,
        &gb,
        &vec![],
        &empty_pads(),
        &ActiveGamepad(None),
    );
    assert_eq!(cams[0].position, Vec3 { x: 0, y: 0, z: -500 });
    assert_eq!(cams[0].fwd, Vec3 { x: 0, y: 0, z: -SCALE });
    assert_eq!(cams[0].up, Vec3 { x: 0, y: SCALE, z: 0 });
}

#[test]
fn mouse_yaw_rotates_about_up() {
    // One mouse event of -200 horizontal, one second: yaw intent
    // +0.1 radian; forward swings within the horizontal plane, up
    // stays put, position stays put.
    let active = DebugCameraActive::default();
    let kb = KeyboardBindings::default();
    let gb = GamepadBindings::default();
    let mouse = vec![MouseDelta { x: -200, y: 0 }];
    let mut cams = vec![DebugCamera::default()];
    camera_movement_system(
        &mut cams,
        1000,
        &no_keys(),
        &active,
        &kb,
        &gb,
        &mouse,
        &empty_pads(),
        &ActiveGamepad(None),
    );
    assert_eq!(cams[0].fwd, Vec3 { x: -100, y: 0, z: -995 });
    assert_eq!(cams[0].up, Vec3 { x: 0, y: SCALE, z: 0 });
    assert_eq!(cams[0].position, Vec3 { x: 0, y: 0, z: 0 });
    // The rotated basis is still unit length and perpendicular up to
    // the fixed-point rounding.
    let f = cams[0].fwd;
    let u = cams[0].up;
    let nf = f.x * f.x + f.y * f.y + f.z * f.z;
    let s2 = SCALE * SCALE;
    assert!((nf - s2).abs() <= 2000, "fwd norm^2 {nf}");
    let d = f.x * u.x + f.y * u.y + f.z * u.z;
    assert!(d.abs() <= 2000, "dot {d}");
}

#[test]
fn invert_x_flips_yaw_direction() {
    let mut active = DebugCameraActive::default();
    active.invert_x = true;
    let kb = KeyboardBindings::default();
    let gb = GamepadBindings::default();
    let mouse = vec![MouseDelta { x: -200, y: 0 }];
    let mut cams = vec![DebugCamera::default()];
    camera_movement_system(
        &mut cams,
        1000,
        &no_keys(),
        &active,
        &kb,
        &gb,
        &mouse,
        &empty_pads(),
        &ActiveGamepad(None),
    );
    assert_eq!(cams[0].fwd, Vec3 { x: 100, y: 0, z: -995 });
}

#[test]
fn inactive_toggles_change_nothing() {
    // With both schemes off neither the camera nor the published
    // transform moves, whatever the inputs say.
    let active = DebugCameraActive {
        keymouse: false,
        gamepad: false,
        invert_x: false,
        invert_y: false,
    };
    let kb = KeyboardBindings::default();
    let gb = GamepadBindings::default();
    let keys = KeysPressed { keys: vec![kb.fwd, kb.bwd, kb.up] };
    let mouse = vec![MouseDelta { x: 300, y: 400 }];
    let mut cams = vec![DebugCamera::default()];
    camera_movement_system(
        &mut cams,
        1000,
        &keys,
        &active,
        &kb,
        &gb,
        &mouse,
        &empty_pads(),
        &ActiveGamepad(None),
    );
    assert_eq!(cams[0], DebugCamera::default());
    let sentinel = Transform {
        translation: Vec3 { x: 1, y: 2, z: 3 },
        target: Vec3 { x: 4, y: 5, z: 6 },
        up: Vec3 { x: 7, y: 8, z: 9 },
    };
    let mut transforms = vec![sentinel];
    camera_update_system(&mut transforms, &cams, &active);
    assert_eq!(transforms[0], sentinel);
}

#[test]
fn transform_publishes_look_at() {
    let active = DebugCameraActive::default();
    let cams = vec![DebugCamera::default()];
    let mut transforms = vec![Transform {
        translation: Vec3 { x: 1, y: 1, z: 1 },
        target: Vec3 { x: 1, y: 1, z: 1 },
        up: Vec3 { x: 1, y: 1, z: 1 },
    }];
    camera_update_system(&mut transforms, &cams, &active);
    assert_eq!(transforms[0].translation, Vec3 { x: 0, y: 0, z: 0 });
    assert_eq!(transforms[0].target, Vec3 { x: 0, y: 0, z: -SCALE });
    assert_eq!(transforms[0].up, Vec3 { x: 0, y: SCALE, z: 0 });
}

#[test]
fn cursor_grab_toggles_once_then_holds() {
    let active = DebugCameraActive::default();
    let mut window = CursorState { visible: true, grab_mode: CursorMode::Free };
    cursor_grab_system(&mut window, &active);
    assert_eq!(window, CursorState { visible: false, grab_mode: CursorMode::Locked });
    cursor_grab_system(&mut window, &active);
    assert_eq!(window, CursorState { visible: false, grab_mode: CursorMode::Locked });
    let inactive = DebugCameraActive {
        keymouse: false,
        gamepad: true,
        invert_x: false,
        invert_y: false,
    };
    cursor_grab_system(&mut window, &inactive);
    assert_eq!(window, CursorState { visible: true, grab_mode: CursorMode::Free });
}

#[test]
fn gamepad_connection_state_machine() {
    // connect(A), connect(B), disconnect(B), disconnect(A): first
    // wins, foreign disconnects are no-ops, and the active gamepad's
    // disconnect clears the slot.
    let mut active = ActiveGamepad(None);
    let mut settings = GamepadSettingsState { deadzone_lowerbound: 0, deadzone_upperbound: 0 };
    let logs = gamepad_connections(
        &mut active,
        &mut settings,
        vec![GamepadEvent::Connected { id: 1, name: String::from("padA") }],
    );
    assert_eq!(active.0, Some(1));
    assert_eq!(settings.deadzone_lowerbound, -100);
    assert_eq!(settings.deadzone_upperbound, 100);
    assert_eq!(logs.len(), 1);
    assert!(matches!(&logs[0], GamepadLog::ActiveSet { id: 1, name } if name == "padA"));

    let logs = gamepad_connections(
        &mut active,
        &mut settings,
        vec![GamepadEvent::Connected { id: 2, name: String::from("padB") }],
    );
    assert_eq!(active.0, Some(1));
    assert_eq!(logs.len(), 0);

    let logs = gamepad_connections(
        &mut active,
        &mut settings,
        vec![GamepadEvent::Disconnected { id: 2 }],
    );
    assert_eq!(active.0, Some(1));
    assert_eq!(logs.len(), 0);

    let logs = gamepad_connections(
        &mut active,
        &mut settings,
        vec![GamepadEvent::Disconnected { id: 1 }],
    );
    assert_eq!(active.0, None);
    assert_eq!(logs.len(), 1);
    assert!(matches!(&logs[0], GamepadLog::ActiveRemoved { id: 1 }));
}

#[test]
fn gamepad_connections_in_one_stream() {
    let mut active = ActiveGamepad(None);
    let mut settings = GamepadSettingsState { deadzone_lowerbound: 5, deadzone_upperbound: 5 };
    let logs = gamepad_connections(
        &mut active,
        &mut settings,
        vec![
            GamepadEvent::Connected { id: 1, name: String::from("padA") },
            GamepadEvent::Connected { id: 2, name: String::from("padB") },
            GamepadEvent::Disconnected { id: 2 },
            GamepadEvent::Disconnected { id: 1 },
        ],
    );
    assert_eq!(active.0, None);
    assert_eq!(settings.deadzone_lowerbound, -100);
    assert_eq!(logs.len(), 2);
    assert!(matches!(&logs[0], GamepadLog::ActiveSet { id: 1, name } if name == "padA"));
    assert!(matches!(&logs[1], GamepadLog::ActiveRemoved { id: 1 }));
}

#[test]
fn defaults_match_conventions() {
    let a = DebugCameraActive::default();
    assert!(a.keymouse && a.gamepad && !a.invert_x && !a.invert_y);
    let gb = GamepadBindings::default();
    assert_eq!(gb.fwd, GamepadInput::Axis(AXIS_LEFT_Y));
    assert_eq!(gb.left, GamepadInput::Axis(AXIS_LEFT_X));
    assert_eq!(gb.yaw_right, GamepadInput::Axis(AXIS_RIGHT_X));
    let cam = DebugCamera::default();
    assert_eq!(cam.speed_translate, SCALE);
    assert_eq!(cam.speed_rotate, SCALE);
}
