use genshin_auto::control::{
    dialog_end_step, presence_step, ClipRect, ControlState, EndAction, Point, PresenceLog,
};

// A lost window is logged exactly once per loss, not once per tick, until it
// reappears; finding it again is also logged exactly once.
#[test]
fn presence_transitions_log_once_per_edge() {
    let mut state = ControlState::new();
    assert!(!state.window_missing);
    assert_eq!(presence_step(&mut state, false), Some(PresenceLog::NotFound));
    assert_eq!(presence_step(&mut state, false), None);
    assert_eq!(presence_step(&mut state, false), None);
    assert_eq!(presence_step(&mut state, true), Some(PresenceLog::Found));
    assert_eq!(presence_step(&mut state, true), None);
    assert_eq!(presence_step(&mut state, false), Some(PresenceLog::NotFound));
}

#[test]
fn presence_step_keeps_saved_cursor() {
    let mut state = ControlState::new();
    state.saved_cursor = Point { x: 11, y: -4 };
    presence_step(&mut state, false);
    assert_eq!(state.saved_cursor, Point { x: 11, y: -4 });
}

#[test]
fn foreground_window_means_no_end_action() {
    let mut state = ControlState::new();
    state.saved_cursor = Point { x: 5, y: 7 };
    let clip = ClipRect { left: 100, top: 200, right: 100, bottom: 200 };
    let act = dialog_end_step(&mut state, true, clip, Point { x: 1, y: 2 });
    assert_eq!(act, EndAction::NoAction);
    assert_eq!(state.saved_cursor, Point { x: 5, y: 7 });
}

// A cursor clip locked to a single point, while the target window is not
// foreground, means the dialog session ended: restore to the saved position.
#[test]
fn point_lock_ends_session_and_restores_saved_position() {
    let mut state = ControlState::new();
    state.saved_cursor = Point { x: 5, y: 7 };
    let clip = ClipRect { left: 100, top: 200, right: 100, bottom: 200 };
    let act = dialog_end_step(&mut state, false, clip, Point { x: 1, y: 2 });
    assert_eq!(act, EndAction::EndSession(Point { x: 5, y: 7 }));
    assert_eq!(state.saved_cursor, Point { x: 5, y: 7 });
}

// The all-zero rectangle is the "no clip" value: degenerate but not a lock.
#[test]
fn zero_clip_rect_records_cursor_instead() {
    let mut state = ControlState::new();
    state.saved_cursor = Point { x: 5, y: 7 };
    let clip = ClipRect { left: 0, top: 0, right: 0, bottom: 0 };
    let act = dialog_end_step(&mut state, false, clip, Point { x: 42, y: 43 });
    assert_eq!(act, EndAction::NoAction);
    assert_eq!(state.saved_cursor, Point { x: 42, y: 43 });
}

#[test]
fn free_form_clip_records_cursor() {
    let mut state = ControlState::new();
    let clip = ClipRect { left: 0, top: 0, right: 1920, bottom: 1080 };
    let act = dialog_end_step(&mut state, false, clip, Point { x: -3, y: 9 });
    assert_eq!(act, EndAction::NoAction);
    assert_eq!(state.saved_cursor, Point { x: -3, y: 9 });
}
