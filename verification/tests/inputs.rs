use graphics::input::{add_input_cmd, InputEvent, InputsCommanded, Key, EPS_MOUSE};

const LEFT: u32 = 1;

fn after(events: &[InputEvent]) -> InputsCommanded {
    let mut inputs = InputsCommanded::default();
    for event in events {
        add_input_cmd(event, &mut inputs, LEFT);
    }
    inputs
}

fn key(key: Key, pressed: bool) -> InputEvent {
    InputEvent::Key { key, pressed }
}

#[test]
fn the_mouse_threshold_is_the_bit_pattern_of_its_number() {
    assert_eq!(EPS_MOUSE, 0.00001f32.to_bits());
}

#[test]
fn nothing_is_held_at_first() {
    let inputs = InputsCommanded::default();
    assert!(!inputs.inputs_present());
    assert_eq!(inputs.mouse_delta_x, 0.0f32.to_bits());
    assert_eq!(inputs.mouse_delta_y, 0.0f32.to_bits());
    assert!(!inputs.free_look && !inputs.run && !inputs.panning && !inputs.cursor_out_of_window);
}

#[test]
fn each_key_holds_its_input_while_it_is_down() {
    let flags: [(Key, fn(&InputsCommanded) -> bool); 9] = [
        (Key::KeyW, |i| i.fwd),
        (Key::KeyS, |i| i.back),
        (Key::KeyA, |i| i.left),
        (Key::KeyD, |i| i.right),
        (Key::Space, |i| i.up),
        (Key::KeyC, |i| i.down),
        (Key::KeyQ, |i| i.roll_ccw),
        (Key::KeyE, |i| i.roll_cw),
        (Key::ShiftLeft, |i| i.run),
    ];
    for (which, flag) in flags {
        let down = after(&[key(which, true)]);
        assert!(flag(&down));
        for (other, other_flag) in flags {
            if other != which {
                assert!(!other_flag(&down));
            }
        }
        assert_eq!(down.inputs_present(), which != Key::ShiftLeft);
        let up = after(&[key(which, true), key(which, false)]);
        assert_eq!(up, InputsCommanded::default());
    }
}

#[test]
fn other_keys_and_other_events_change_nothing() {
    assert_eq!(after(&[key(Key::Other, true)]), InputsCommanded::default());
    assert_eq!(after(&[InputEvent::Other]), InputsCommanded::default());
    let held = after(&[key(Key::KeyW, true), key(Key::Other, false), InputEvent::Other]);
    assert!(held.fwd);
}

#[test]
fn the_left_button_looks_around_while_it_is_down() {
    let down = after(&[InputEvent::Button { button: LEFT, pressed: true }]);
    assert!(down.free_look);
    assert!(!down.inputs_present());
    let up = after(&[
        InputEvent::Button { button: LEFT, pressed: true },
        InputEvent::Button { button: LEFT, pressed: false },
    ]);
    assert!(!up.free_look);
    let other = after(&[InputEvent::Button { button: LEFT + 1, pressed: true }]);
    assert_eq!(other, InputsCommanded::default());
    let mut inputs = InputsCommanded::default();
    add_input_cmd(&InputEvent::Button { button: 0, pressed: true }, &mut inputs, 0);
    assert!(inputs.free_look);
}

#[test]
fn mouse_motion_is_present_beyond_the_threshold() {
    for (x, y) in [(0.0f32, 0.0f32), (0.00001, 0.0), (-0.00001, 0.000009), (-0.0, 0.0)] {
        let moved =
            after(&[InputEvent::MouseMotion { total_x: x.to_bits(), total_y: y.to_bits() }]);
        assert_eq!(moved.mouse_delta_x, x.to_bits());
        assert_eq!(moved.mouse_delta_y, y.to_bits());
        assert!(!moved.inputs_present(), "{x} {y}");
    }
    for (x, y) in [
        (0.000011f32, 0.0f32),
        (0.0, -0.5),
        (-3.0, 0.0),
        (f32::INFINITY, 0.0),
        (0.0, f32::NEG_INFINITY),
        (1e-5 + 1e-9, 0.0),
    ] {
        let moved =
            after(&[InputEvent::MouseMotion { total_x: x.to_bits(), total_y: y.to_bits() }]);
        assert!(moved.inputs_present(), "{x} {y}");
    }
    let values = [0.0f32, 1e-5, -1e-5, 2e-5, -2e-5, 1.0, -1.0, f32::NAN, f32::MAX, f32::MIN_POSITIVE];
    for x in values {
        for y in values {
            let moved =
                after(&[InputEvent::MouseMotion { total_x: x.to_bits(), total_y: y.to_bits() }]);
            assert_eq!(moved.inputs_present(), x.abs() > 0.00001 || y.abs() > 0.00001);
        }
    }
}

#[test]
fn the_wheel_scrolls_down_for_a_turn_above_zero_and_up_otherwise() {
    for y in [1.0f32, 0.25, f32::INFINITY, f32::MIN_POSITIVE] {
        let turned = after(&[InputEvent::ScrollLines { y: y.to_bits() }]);
        assert!(turned.scroll_down && !turned.scroll_up, "{y}");
        assert!(turned.inputs_present());
    }
    for y in [-1.0f32, 0.0, -0.0, f32::NEG_INFINITY, f32::NAN] {
        let turned = after(&[InputEvent::ScrollLines { y: y.to_bits() }]);
        assert!(turned.scroll_up && !turned.scroll_down, "{y}");
        assert!(turned.inputs_present());
    }
    let both = after(&[
        InputEvent::ScrollLines { y: 1.0f32.to_bits() },
        InputEvent::ScrollLines { y: (-1.0f32).to_bits() },
    ]);
    assert!(both.scroll_up && both.scroll_down);
}
