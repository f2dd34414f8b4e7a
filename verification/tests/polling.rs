use puppetmaster::PollingInputHandler;

const KEY_A: u32 = 65;
const KEY_B: u32 = 66;
const KEY_C: u32 = 67;
const KEY_Z: u32 = 90;

const UP: u32 = 1;
const DOWN: u32 = 2;
const JUMP: u32 = 3;

fn sample() -> PollingInputHandler {
    PollingInputHandler::new_with_controls(vec![(KEY_A, UP), (KEY_B, UP), (KEY_C, DOWN)])
}

#[test]
fn polling_scenario_shared_control() {
    let mut handler = sample();
    handler.update(vec![KEY_A]);
    assert!(handler.down(UP));
    assert_eq!(handler.press_time(UP), 1);
    assert!(!handler.down(DOWN));
    handler.update(vec![KEY_B]);
    assert_eq!(handler.press_time(UP), 2);
    handler.update(vec![]);
    assert_eq!(handler.press_time(UP), 0);
}

#[test]
fn polling_new_handler_binds_nothing() {
    let mut handler = PollingInputHandler::new();
    handler.update(vec![KEY_A, KEY_B]);
    assert_eq!(handler.press_time(UP), 0);
    assert!(handler.up(UP));
    let mut other = PollingInputHandler::default();
    other.update(vec![KEY_A]);
    assert_eq!(other.press_time(UP), 0);
}

#[test]
fn polling_never_activated_control_is_up() {
    let mut handler = sample();
    assert_eq!(handler.press_time(DOWN), 0);
    for _ in 0..5 {
        handler.update(vec![KEY_A]);
        assert_eq!(handler.press_time(DOWN), 0);
        assert!(!handler.down(DOWN));
        assert!(handler.up(DOWN));
        assert!(!handler.clicked(DOWN));
        assert_eq!(handler.press_time(JUMP), 0);
    }
}

#[test]
fn polling_held_control_counts_frames() {
    let mut handler = sample();
    for frame in 1..=10u32 {
        handler.update(vec![KEY_C]);
        assert_eq!(handler.press_time(DOWN), frame);
        assert!(handler.down(DOWN));
        assert!(!handler.up(DOWN));
        assert_eq!(handler.clicked(DOWN), frame == 1);
    }
}

#[test]
fn polling_release_resets_on_next_update() {
    let mut handler = sample();
    for _ in 0..6 {
        handler.update(vec![KEY_C]);
    }
    assert_eq!(handler.press_time(DOWN), 6);
    handler.update(vec![KEY_A]);
    assert_eq!(handler.press_time(DOWN), 0);
    assert_eq!(handler.press_time(UP), 1);
}

#[test]
fn polling_duplicate_input_keeps_first_pair() {
    let mut handler = PollingInputHandler::new_with_controls(vec![
        (KEY_A, UP),
        (KEY_C, DOWN),
        (KEY_A, DOWN),
        (KEY_A, JUMP),
    ]);
    handler.update(vec![KEY_A]);
    assert_eq!(handler.press_time(UP), 1);
    assert_eq!(handler.press_time(DOWN), 0);
    assert_eq!(handler.press_time(JUMP), 0);
}

#[test]
fn polling_both_inputs_of_a_control_count_once() {
    let mut handler = sample();
    handler.update(vec![KEY_A, KEY_B]);
    assert_eq!(handler.press_time(UP), 1);
    handler.update(vec![KEY_B, KEY_A]);
    assert_eq!(handler.press_time(UP), 2);
    handler.update(vec![KEY_B]);
    assert_eq!(handler.press_time(UP), 3);
}

#[test]
fn polling_duplicate_and_unbound_inputs_are_tolerated() {
    let mut handler = sample();
    handler.update(vec![KEY_Z, KEY_C, KEY_C, KEY_Z, KEY_C]);
    assert_eq!(handler.press_time(DOWN), 1);
    assert_eq!(handler.press_time(UP), 0);
    handler.update(vec![KEY_Z]);
    assert_eq!(handler.press_time(DOWN), 0);
}

#[test]
fn polling_clear_inputs_forgets_durations() {
    let mut handler = sample();
    for _ in 0..12 {
        handler.update(vec![KEY_A, KEY_C]);
    }
    assert_eq!(handler.press_time(UP), 12);
    handler.clear_inputs();
    assert_eq!(handler.press_time(UP), 0);
    assert_eq!(handler.press_time(DOWN), 0);
    handler.update(vec![]);
    assert_eq!(handler.press_time(UP), 0);
    assert_eq!(handler.press_time(DOWN), 0);
    assert!(handler.up(UP));
}

#[test]
fn polling_clear_inputs_before_update_restarts_the_count() {
    let mut handler = sample();
    for _ in 0..4 {
        handler.clear_inputs();
        handler.update(vec![KEY_A]);
        assert_eq!(handler.press_time(UP), 1);
    }
}

#[test]
fn polling_rebinding_takes_effect_in_the_next_frame() {
    let mut handler = sample();
    assert_eq!(handler.control_config().len(), 3);
    assert_eq!(handler.control_config().get(&KEY_B), Some(&UP));
    handler.control_config_mut().insert(KEY_Z, JUMP);
    handler.control_config_mut().remove(&KEY_B);
    handler.update(vec![KEY_Z, KEY_B]);
    assert_eq!(handler.press_time(JUMP), 1);
    assert_eq!(handler.press_time(UP), 0);
}

#[test]
fn polling_unbinding_a_held_control_keeps_its_duration() {
    let mut handler = sample();
    handler.update(vec![KEY_C]);
    handler.update(vec![KEY_C]);
    handler.control_config_mut().remove(&KEY_C);
    handler.update(vec![]);
    assert_eq!(handler.press_time(DOWN), 2);
    handler.clear_inputs();
    handler.update(vec![]);
    assert_eq!(handler.press_time(DOWN), 0);
}

#[test]
fn polling_clone_is_independent() {
    let mut handler = sample();
    handler.update(vec![KEY_A]);
    let mut copy = handler.clone();
    assert_eq!(copy.press_time(UP), 1);
    copy.update(vec![KEY_A, KEY_C]);
    assert_eq!(copy.press_time(UP), 2);
    assert_eq!(copy.press_time(DOWN), 1);
    assert_eq!(handler.press_time(UP), 1);
    assert_eq!(handler.press_time(DOWN), 0);
}

#[test]
fn polling_debug_output_names_the_type() {
    let text = format!("{:?}", sample());
    assert!(text.contains("PollingInputHandler"));
}

#[test]
fn polling_many_bindings_advance_one_step_per_frame() {
    // A hundred inputs on ten controls: input n drives control n % 10.
    let pairs: Vec<(u32, u32)> = (0..100).map(|n| (1000 + n, n % 10)).collect();
    let mut handler = PollingInputHandler::new_with_controls(pairs);
    let pressed: Vec<u32> = (0..100).filter(|n| n % 10 < 3).map(|n| 1000 + n).collect();
    for frame in 1..=50u32 {
        handler.update(pressed.clone());
        for control in 0..10 {
            let expected = if control < 3 { frame } else { 0 };
            assert_eq!(handler.press_time(control), expected);
        }
    }
    handler.update(vec![1005]);
    for control in 0..10 {
        let expected = if control == 5 { 1 } else { 0 };
        assert_eq!(handler.press_time(control), expected);
    }
}
