use puppetmaster::EventInputHandler;

const KEY_W: u32 = 17;
const KEY_UP: u32 = 200;
const KEY_S: u32 = 31;
const KEY_X: u32 = 45;

const UP: u32 = 1;
const DOWN: u32 = 2;
const JUMP: u32 = 3;

fn sample() -> EventInputHandler {
    EventInputHandler::new_with_controls(vec![(KEY_W, UP), (KEY_UP, UP), (KEY_S, DOWN)])
}

#[test]
fn event_new_handler_binds_nothing() {
    let mut handler = EventInputHandler::new();
    assert!(handler.control_config().is_empty());
    handler.on_input_down(KEY_W);
    handler.update();
    assert_eq!(handler.press_time(UP), 0);
    assert!(handler.up(UP));
    assert!(handler.all_pressed().is_empty());
}

#[test]
fn event_default_is_new() {
    let handler = EventInputHandler::default();
    assert!(handler.control_config().is_empty());
    assert_eq!(handler.press_time(UP), 0);
}

#[test]
fn event_never_activated_control_is_up() {
    let mut handler = sample();
    assert_eq!(handler.press_time(DOWN), 0);
    for _ in 0..5 {
        handler.on_input_down(KEY_W);
        handler.update();
        assert_eq!(handler.press_time(DOWN), 0);
        assert!(!handler.down(DOWN));
        assert!(handler.up(DOWN));
        assert!(!handler.clicked(DOWN));
        // A control that nothing is bound to.
        assert_eq!(handler.press_time(JUMP), 0);
        assert!(handler.up(JUMP));
    }
}

#[test]
fn event_queries_before_first_update_read_zero() {
    let mut handler = sample();
    handler.on_input_down(KEY_W);
    assert_eq!(handler.press_time(UP), 0);
    assert!(handler.up(UP));
    assert!(!handler.down(UP));
    assert!(!handler.clicked(UP));
}

#[test]
fn event_held_control_counts_frames() {
    let mut handler = sample();
    handler.on_input_down(KEY_S);
    for frame in 1..=10u32 {
        handler.update();
        assert_eq!(handler.press_time(DOWN), frame);
        assert!(handler.down(DOWN));
        assert!(!handler.up(DOWN));
        assert_eq!(handler.clicked(DOWN), frame == 1);
    }
}

#[test]
fn event_release_resets_on_next_update() {
    let mut handler = sample();
    handler.on_input_down(KEY_S);
    for _ in 0..7 {
        handler.update();
    }
    assert_eq!(handler.press_time(DOWN), 7);
    handler.on_input_up(KEY_S);
    // The release takes effect with the next frame, not before.
    assert_eq!(handler.press_time(DOWN), 7);
    handler.update();
    assert_eq!(handler.press_time(DOWN), 0);
    assert!(handler.up(DOWN));
    handler.on_input_down(KEY_S);
    handler.update();
    assert_eq!(handler.press_time(DOWN), 1);
    assert!(handler.clicked(DOWN));
}

#[test]
fn event_duplicate_input_keeps_first_pair() {
    let mut handler = EventInputHandler::new_with_controls(vec![(KEY_W, UP), (KEY_W, DOWN)]);
    assert_eq!(handler.control_config().len(), 1);
    assert_eq!(handler.control_config().get(&KEY_W), Some(&UP));
    handler.on_input_down(KEY_W);
    handler.update();
    assert_eq!(handler.press_time(UP), 1);
    assert_eq!(handler.press_time(DOWN), 0);
}

#[test]
fn event_two_inputs_share_one_control() {
    let mut handler = sample();
    handler.on_input_down(KEY_W);
    handler.update();
    assert!(handler.down(UP));
    assert_eq!(handler.press_time(UP), 1);
    handler.on_input_up(KEY_W);
    handler.update();
    assert!(handler.up(UP));

    handler.on_input_down(KEY_UP);
    handler.update();
    assert!(handler.down(UP));
    assert_eq!(handler.press_time(UP), 1);

    // Both at once: still one step per frame.
    handler.on_input_down(KEY_W);
    handler.update();
    assert_eq!(handler.press_time(UP), 2);
    handler.update();
    assert_eq!(handler.press_time(UP), 3);
}

#[test]
fn event_release_of_either_input_releases_the_control() {
    let mut handler = sample();
    handler.on_input_down(KEY_W);
    handler.on_input_down(KEY_UP);
    handler.update();
    assert_eq!(handler.press_time(UP), 1);
    handler.on_input_up(KEY_W);
    handler.update();
    assert_eq!(handler.press_time(UP), 0);
}

#[test]
fn event_press_release_press_within_a_frame_is_active() {
    let mut handler = sample();
    handler.on_input_down(KEY_S);
    handler.on_input_up(KEY_S);
    handler.on_input_down(KEY_S);
    handler.update();
    assert_eq!(handler.press_time(DOWN), 1);
    assert!(handler.clicked(DOWN));
}

#[test]
fn event_press_then_release_within_a_frame_is_inactive() {
    let mut handler = sample();
    handler.on_input_down(KEY_S);
    handler.on_input_up(KEY_S);
    handler.update();
    assert_eq!(handler.press_time(DOWN), 0);
}

#[test]
fn event_repeated_press_counts_once_per_frame() {
    let mut handler = sample();
    handler.on_input_down(KEY_S);
    handler.on_input_down(KEY_S);
    handler.on_input_down(KEY_S);
    handler.update();
    assert_eq!(handler.press_time(DOWN), 1);
}

#[test]
fn event_unbound_input_is_ignored() {
    let mut handler = sample();
    handler.on_input_down(KEY_X);
    handler.update();
    assert_eq!(handler.press_time(UP), 0);
    assert_eq!(handler.press_time(DOWN), 0);
    handler.on_input_down(KEY_S);
    handler.on_input_up(KEY_X);
    handler.update();
    assert_eq!(handler.press_time(DOWN), 1);
}

#[test]
fn event_clear_inputs_then_update_resets_everything() {
    let mut handler = sample();
    handler.on_input_down(KEY_W);
    handler.on_input_down(KEY_S);
    for _ in 0..20 {
        handler.update();
    }
    assert_eq!(handler.press_time(UP), 20);
    assert_eq!(handler.press_time(DOWN), 20);
    handler.clear_inputs();
    // Durations are reset by the frame, not by the call.
    assert_eq!(handler.press_time(UP), 20);
    handler.update();
    assert_eq!(handler.press_time(UP), 0);
    assert_eq!(handler.press_time(DOWN), 0);
    assert!(handler.up(UP));
    assert!(handler.up(DOWN));
}

#[test]
fn event_clear_inputs_before_update_hides_all_input() {
    let mut handler = sample();
    for _ in 0..3 {
        handler.on_input_down(KEY_W);
        handler.clear_inputs();
        handler.update();
        assert_eq!(handler.press_time(UP), 0);
    }
}

#[test]
fn event_skipped_update_leaves_durations_stale() {
    let mut handler = sample();
    handler.on_input_down(KEY_W);
    handler.update();
    handler.update();
    handler.on_input_up(KEY_W);
    assert_eq!(handler.press_time(UP), 2);
    assert_eq!(handler.press_time(UP), 2);
}

#[test]
fn event_all_pressed_reports_every_binding_once() {
    let mut handler = sample();
    handler.on_input_down(KEY_W);
    handler.update();
    handler.update();
    let mut rows = handler.all_pressed();
    rows.sort();
    assert_eq!(rows, vec![(KEY_W, UP, 2), (KEY_S, DOWN, 0), (KEY_UP, UP, 2)]);
    // Computed afresh on every call.
    handler.on_input_down(KEY_S);
    handler.update();
    let mut rows = handler.all_pressed();
    rows.sort();
    assert_eq!(rows, vec![(KEY_W, UP, 3), (KEY_S, DOWN, 1), (KEY_UP, UP, 3)]);
}

#[test]
fn event_all_pressed_supports_releasing_everything() {
    let mut handler = sample();
    handler.on_input_down(KEY_W);
    handler.on_input_down(KEY_S);
    handler.update();
    for (input, _, frames) in handler.all_pressed() {
        if frames > 0 {
            handler.on_input_up(input);
        }
    }
    handler.update();
    assert!(handler.up(UP));
    assert!(handler.up(DOWN));
}

#[test]
fn event_rebinding_takes_effect_for_later_events() {
    let mut handler = sample();
    handler.control_config_mut().insert(KEY_X, JUMP);
    assert_eq!(handler.control_config().get(&KEY_X), Some(&JUMP));
    assert_eq!(handler.control_config().len(), 4);
    handler.on_input_down(KEY_X);
    handler.update();
    assert_eq!(handler.press_time(JUMP), 1);
}

#[test]
fn event_unbinding_a_held_control_keeps_its_duration() {
    let mut handler = sample();
    handler.on_input_down(KEY_S);
    handler.update();
    handler.update();
    assert_eq!(handler.press_time(DOWN), 2);
    handler.control_config_mut().remove(&KEY_S);
    handler.update();
    // Nothing is bound to the control any more, so frames pass it by.
    assert_eq!(handler.press_time(DOWN), 2);
    handler.clear_inputs();
    handler.update();
    assert_eq!(handler.press_time(DOWN), 2);
    assert_eq!(handler.press_time(UP), 0);
}

#[test]
fn event_clone_is_independent() {
    let mut handler = sample();
    handler.on_input_down(KEY_W);
    handler.update();
    let mut copy = handler.clone();
    assert_eq!(copy.press_time(UP), 1);
    assert_eq!(copy.control_config().len(), 3);
    copy.update();
    assert_eq!(copy.press_time(UP), 2);
    assert_eq!(handler.press_time(UP), 1);
    copy.on_input_up(KEY_W);
    copy.control_config_mut().insert(KEY_X, JUMP);
    copy.update();
    handler.update();
    assert_eq!(copy.press_time(UP), 0);
    assert_eq!(handler.press_time(UP), 2);
    assert_eq!(handler.control_config().len(), 3);
}

#[test]
fn event_debug_output_names_the_type() {
    let text = format!("{:?}", sample());
    assert!(text.contains("EventInputHandler"));
}

#[test]
fn event_many_bindings_advance_one_step_per_frame() {
    // A hundred inputs on ten controls: input n drives control n % 10.
    let pairs: Vec<(u32, u32)> = (0..100).map(|n| (1000 + n, n % 10)).collect();
    let mut handler = EventInputHandler::new_with_controls(pairs);
    assert_eq!(handler.control_config().len(), 100);
    // Press every input of the even controls.
    for n in 0..100 {
        if n % 2 == 0 {
            handler.on_input_down(1000 + n);
        }
    }
    for frame in 1..=50u32 {
        handler.update();
        for control in 0..10 {
            let expected = if control % 2 == 0 { frame } else { 0 };
            assert_eq!(handler.press_time(control), expected);
        }
    }
    assert_eq!(handler.all_pressed().len(), 100);
}
