//! The toggle controller: the process-wide "automation enabled" flag and
//! the audio cue each flip owes. The hotkey callback flips the flag; the
//! control loop only reads it.

use vstd::prelude::*;

verus! {

/// The audible cue a toggle triggers: one per flip.
#[derive(Clone, Copy, PartialEq, Eq, Structural, Debug)]
pub enum Cue {
    TurnOn,
    TurnOff,
}

/// The "automation enabled" flag. Created enabled at startup; flipped only
/// by the toggle controller, read every tick by the control loop.
#[derive(Clone, Copy, PartialEq, Eq, Structural, Debug)]
pub struct SharedFlag {
    pub enabled: bool,
}

/// A flip as a value: the new flag and the cue it owes.
pub open spec fn spec_toggle(enabled: bool) -> (bool, Cue) {
    if enabled {
        (false, Cue::TurnOff)
    } else {
        (true, Cue::TurnOn)
    }
}

impl SharedFlag {
    /// The flag at startup: enabled.
    pub fn new() -> (r: SharedFlag)
        ensures
            r.enabled == true,
    {
        SharedFlag { enabled: true }
    }

    pub fn is_enabled(&self) -> (r: bool)
        ensures
            r == self.enabled,
    {
        self.enabled
    }

    /// Flip the flag and say which cue to play: turning off when it was
    /// enabled, turning on when it was not.
    pub fn toggle(&mut self) -> (cue: Cue)
        ensures
            final(self).enabled == spec_toggle(old(self).enabled).0,
            final(self).enabled == !old(self).enabled,
            cue == spec_toggle(old(self).enabled).1,
    {
        if self.enabled {
            self.enabled = false;
            Cue::TurnOff
        } else {
            self.enabled = true;
            Cue::TurnOn
        }
    }
}

/// Toggling twice ends at the original value, and the two flips owe exactly
/// one cue each, one of each kind.
pub proof fn lemma_double_toggle(enabled: bool)
    ensures
        spec_toggle(spec_toggle(enabled).0).0 == enabled,
        spec_toggle(enabled).1 != spec_toggle(spec_toggle(enabled).0).1,
{
}

} // verus!
