use ra_metal_capture::backend::Interrupted;
use ra_metal_capture::interrupt::{InterruptState, SignalAction};

#[test]
fn check_reports_interrupted_once_the_flag_is_raised() {
    let mut state = InterruptState::new();
    assert!(state.check().is_ok());
    state.on_signal();
    let err = state.check().unwrap_err();
    assert_eq!(err, Interrupted);
}

#[test]
fn registered_child_is_what_the_handler_would_kill() {
    let mut state = InterruptState::new();
    state.register_child(4242);
    assert_eq!(state.child, 4242);
    state.clear_child();
    assert_eq!(state.child, 0);
}

#[test]
fn first_ctrl_c_kills_the_child_and_the_second_exits() {
    let mut state = InterruptState::new();
    assert_eq!(state.on_signal(), SignalAction::Nothing);
    let mut state = InterruptState::new();
    state.register_child(99);
    assert_eq!(state.on_signal(), SignalAction::Kill(99));
    assert_eq!(state.on_signal(), SignalAction::Exit(130));
    state.clear_child();
    assert!(state.check().is_err());
}

#[test]
fn an_interrupt_survives_children_coming_and_going() {
    let mut state = InterruptState::new();
    assert_eq!(state.on_signal(), SignalAction::Nothing);
    state.register_child(7);
    assert!(state.check().is_err());
    state.clear_child();
    state.register_child(8);
    assert!(state.check().is_err());
    assert_eq!(state.on_signal(), SignalAction::Exit(130));
}
