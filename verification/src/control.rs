//! The per-tick decisions of the control loop: the edge-triggered
//! window-presence log and the dialog-end heuristic. The loop itself only
//! performs operating-system work (locate, capture, inject, notify) and
//! hands the results back here as plain values.

use vstd::prelude::*;

verus! {

/// An absolute cursor position.
#[derive(Clone, Copy, PartialEq, Eq, Structural, Debug)]
pub struct Point {
    pub x: i32,
    pub y: i32,
}

/// The cursor-clip rectangle reported by the operating system; all zeroes
/// means "no clip".
#[derive(Clone, Copy, PartialEq, Eq, Structural, Debug)]
pub struct ClipRect {
    pub left: i32,
    pub top: i32,
    pub right: i32,
    pub bottom: i32,
}

/// A window-presence transition worth one log line.
#[derive(Clone, Copy, PartialEq, Eq, Structural, Debug)]
pub enum PresenceLog {
    Found,
    NotFound,
}

/// What the control loop carries from tick to tick: whether the target
/// window was missing last tick, and the last cursor position recorded
/// while the cursor was free.
#[derive(Clone, Copy, PartialEq, Eq, Structural, Debug)]
pub struct ControlState {
    pub window_missing: bool,
    pub saved_cursor: Point,
}

/// What a no-match tick does about the dialog-end heuristic.
#[derive(Clone, Copy, PartialEq, Eq, Structural, Debug)]
pub enum EndAction {
    /// Nothing to do outside.
    NoAction,
    /// The dialog session ended: release the cursor clip, restore the
    /// cursor to the carried point, log it and show a notification.
    EndSession(Point),
}

impl ControlState {
    /// The state at startup: the window is treated as present, the saved
    /// cursor position is the origin.
    pub fn new() -> (r: ControlState)
        ensures
            r.window_missing == false,
            r.saved_cursor == (Point { x: 0, y: 0 }),
    {
        ControlState { window_missing: false, saved_cursor: Point { x: 0, y: 0 } }
    }
}

/// The presence step as a value: the new "missing" flag and the log line it
/// owes, if any.
pub open spec fn spec_presence(missing: bool, found: bool) -> (bool, Option<PresenceLog>) {
    if found {
        (false, if missing {
            Some(PresenceLog::Found)
        } else {
            None
        })
    } else {
        (true, if !missing {
            Some(PresenceLog::NotFound)
        } else {
            None
        })
    }
}

/// Record whether the target window was found this tick. A transition in
/// either direction is logged exactly once, on its edge; staying in the same
/// state logs nothing.
pub fn presence_step(state: &mut ControlState, found: bool) -> (log: Option<PresenceLog>)
    ensures
        final(state).window_missing == spec_presence(old(state).window_missing, found).0,
        log == spec_presence(old(state).window_missing, found).1,
        final(state).saved_cursor == old(state).saved_cursor,
{
    if found {
        if state.window_missing {
            state.window_missing = false;
            Some(PresenceLog::Found)
        } else {
            None
        }
    } else {
        if !state.window_missing {
            state.window_missing = true;
            Some(PresenceLog::NotFound)
        } else {
            None
        }
    }
}

/// A loss of the window is logged exactly once per loss: the first absent
/// tick after a present tick logs it, and every further absent tick logs
/// nothing until the window reappears.
pub proof fn lemma_loss_logged_once(missing: bool)
    ensures
        !missing ==> spec_presence(missing, false).1 == Some(PresenceLog::NotFound),
        missing ==> spec_presence(missing, false).1 is None,
        spec_presence(spec_presence(missing, false).0, false).1 is None,
{
}

/// The cursor is clip-locked to a single point: a degenerate rectangle that
/// is not the "no clip" value.
pub open spec fn spec_locked_to_point(clip: ClipRect) -> bool {
    &&& clip.left == clip.right
    &&& clip.top == clip.bottom
    &&& clip != (ClipRect { left: 0, top: 0, right: 0, bottom: 0 })
}

/// The dialog-end heuristic, run only on a tick whose scan found no match.
///
/// While the target window is foreground, nothing is done. Otherwise a
/// cursor clip locked to a single point means the dialog session just
/// ended: the caller must release the clip and restore the cursor to the
/// carried position. Any other clip means the cursor is free, and its
/// current position is recorded for the next restore.
pub fn dialog_end_step(
    state: &mut ControlState,
    target_is_foreground: bool,
    clip: ClipRect,
    cursor: Point,
) -> (act: EndAction)
    ensures
        target_is_foreground ==> act == EndAction::NoAction && *final(state) == *old(state),
        !target_is_foreground && spec_locked_to_point(clip) ==> act == EndAction::EndSession(
            old(state).saved_cursor,
        ) && *final(state) == *old(state),
        !target_is_foreground && !spec_locked_to_point(clip) ==> act == EndAction::NoAction
            && *final(state) == (ControlState { saved_cursor: cursor, ..*old(state) }),
{
    if target_is_foreground {
        EndAction::NoAction
    } else {
        let zero = ClipRect { left: 0, top: 0, right: 0, bottom: 0 };
        if clip.left == clip.right && clip.top == clip.bottom && !(clip == zero) {
            EndAction::EndSession(state.saved_cursor)
        } else {
            state.saved_cursor = cursor;
            EndAction::NoAction
        }
    }
}

} // verus!
