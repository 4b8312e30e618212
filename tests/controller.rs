use courier::controller::{
    camera_mouse_movement, movement_intent, MouseDelta, PlayerControlInput, DEFAULT_RUN_SPEED,
    DEFAULT_SENSITIVITY, DEFAULT_WALK_SPEED, FULL_TURN, HALF_TURN, MAX_SENSITIVITY, QUARTER_TURN,
};

fn in_bounds(c: &PlayerControlInput) -> bool {
    -HALF_TURN < c.yaw
        && c.yaw <= HALF_TURN
        && -c.pitch_limit <= c.pitch
        && c.pitch <= c.pitch_limit
}

#[test]
fn control_input_defaults() {
    let c = PlayerControlInput::default();
    assert!(!c.sprint && !c.jump && !c.crouch);
    assert_eq!(c.pitch, 0);
    assert_eq!(c.yaw, 0);
    assert_eq!(c.walk_speed, DEFAULT_WALK_SPEED);
    assert_eq!(c.run_speed, DEFAULT_RUN_SPEED);
    assert_eq!(c.sensitivity, DEFAULT_SENSITIVITY);
    assert_eq!(c.pitch_limit, QUARTER_TURN);
}

#[test]
fn mouse_right_turns_yaw_down_by_scaled_delta() {
    let mut c = PlayerControlInput::default();
    c.apply_mouse_delta(MouseDelta { dx: 10, dy: 0 });
    assert_eq!(c.yaw, -20626480);
    assert_eq!(c.pitch, 0);
}

#[test]
fn mouse_down_lowers_pitch() {
    let mut c = PlayerControlInput::default();
    c.apply_mouse_delta(MouseDelta { dx: 0, dy: 3 });
    assert_eq!(c.pitch, -6187944);
    assert_eq!(c.yaw, 0);
}

#[test]
fn yaw_wraps_past_half_turn() {
    let mut c = PlayerControlInput::default();
    c.yaw = 640000000;
    c.apply_mouse_delta(MouseDelta { dx: -5, dy: 0 });
    assert_eq!(c.yaw, 650313240 - FULL_TURN);
    assert_eq!(c.yaw, -645686760);
}

#[test]
fn yaw_half_turn_is_kept_and_minus_half_turn_becomes_half_turn() {
    let mut c = PlayerControlInput::default();
    c.sensitivity = 1;
    c.yaw = HALF_TURN - 1;
    c.apply_mouse_delta(MouseDelta { dx: -1, dy: 0 });
    assert_eq!(c.yaw, HALF_TURN);
    c.yaw = -HALF_TURN + 1;
    c.apply_mouse_delta(MouseDelta { dx: 1, dy: 0 });
    assert_eq!(c.yaw, HALF_TURN);
}

#[test]
fn pitch_clamps_to_quarter_turn() {
    let mut c = PlayerControlInput::default();
    c.apply_mouse_delta(MouseDelta { dx: 0, dy: -1000 });
    assert_eq!(c.pitch, QUARTER_TURN);
    c.apply_mouse_delta(MouseDelta { dx: 0, dy: 1000 });
    assert_eq!(c.pitch, -QUARTER_TURN);
}

#[test]
fn pitch_clamps_to_configured_limit() {
    let mut c = PlayerControlInput::default();
    c.pitch_limit = 100000000;
    c.apply_mouse_delta(MouseDelta { dx: 0, dy: -60 });
    assert_eq!(c.pitch, 100000000);
}

#[test]
fn repeated_large_deltas_stay_in_bounds() {
    let mut c = PlayerControlInput::default();
    c.sensitivity = MAX_SENSITIVITY;
    let deltas = vec![
        MouseDelta { dx: i32::MAX, dy: i32::MIN },
        MouseDelta { dx: i32::MIN, dy: i32::MAX },
        MouseDelta { dx: 123456789, dy: -987654321 },
        MouseDelta { dx: i32::MAX, dy: i32::MAX },
    ];
    for d in &deltas {
        c.apply_mouse_delta(*d);
        assert!(in_bounds(&c));
    }
    let mut d = PlayerControlInput::default();
    d.sensitivity = MAX_SENSITIVITY;
    camera_mouse_movement(&mut d, &deltas);
    assert_eq!(c, d);
    let mut inverted = PlayerControlInput::default();
    inverted.sensitivity = -MAX_SENSITIVITY;
    for delta in &deltas {
        inverted.apply_mouse_delta(*delta);
        assert!(in_bounds(&inverted));
    }
}

#[test]
fn yaw_wraps_by_full_turns() {
    let mut c = PlayerControlInput::default();
    c.sensitivity = MAX_SENSITIVITY;
    c.apply_mouse_delta(MouseDelta { dx: -2000, dy: 0 });
    // 2e12 milliarcseconds is 1 543 full turns and 272 000 000 more.
    assert_eq!(c.yaw, 272000000);
    c.apply_mouse_delta(MouseDelta { dx: 1, dy: 0 });
    // 272 000 000 - 1 000 000 000 = -728 000 000, past minus half a turn.
    assert_eq!(c.yaw, -728000000 + FULL_TURN);
}

#[test]
fn mouse_movement_applies_every_delta_in_order() {
    let mut c = PlayerControlInput::default();
    let deltas = vec![MouseDelta { dx: 1, dy: 1 }, MouseDelta { dx: 2, dy: -2 }];
    camera_mouse_movement(&mut c, &deltas);
    assert_eq!(c.yaw, -3 * DEFAULT_SENSITIVITY);
    assert_eq!(c.pitch, DEFAULT_SENSITIVITY);
    let before = c;
    camera_mouse_movement(&mut c, &vec![]);
    assert_eq!(c, before);
}

#[test]
fn sprint_selects_run_speed() {
    let c = PlayerControlInput::default();
    assert_eq!(c.movement_speed(true), 4000);
    assert_eq!(c.movement_speed(false), 2000);
}

#[test]
fn movement_keys_combine_per_axis() {
    let m = movement_intent(true, false, false, true);
    assert_eq!((m.forward, m.right), (1, 1));
    let m = movement_intent(true, true, true, false);
    assert_eq!((m.forward, m.right), (0, -1));
    let m = movement_intent(false, true, true, true);
    assert_eq!((m.forward, m.right), (-1, 0));
    let m = movement_intent(false, false, false, false);
    assert_eq!((m.forward, m.right), (0, 0));
}

#[test]
fn default_sensitivity_is_a_hundredth_radian_per_count() {
    let mut c = PlayerControlInput::default();
    c.apply_mouse_delta(MouseDelta { dx: -400, dy: 0 });
    // 4 radians is past half a turn and wraps to 4 - 2 pi.
    assert_eq!(c.yaw, -470940800);
    assert_eq!(c.pitch, 0);
    let radians = c.yaw as f64 * std::f64::consts::PI / HALF_TURN as f64;
    assert!((radians - (4.0 - std::f64::consts::TAU)).abs() < 1e-5);
    let per_count = DEFAULT_SENSITIVITY as f64 * std::f64::consts::PI / HALF_TURN as f64;
    assert!((per_count - 0.01).abs() < 1e-8);
}

#[test]
fn negative_sensitivity_inverts_look() {
    let mut c = PlayerControlInput::default();
    c.sensitivity = -DEFAULT_SENSITIVITY;
    c.apply_mouse_delta(MouseDelta { dx: 10, dy: 2 });
    assert_eq!(c.yaw, 20626480);
    assert_eq!(c.pitch, 4125296);
}
