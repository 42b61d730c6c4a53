use genshin_auto::toggle::{Cue, SharedFlag};

#[test]
fn flag_starts_enabled() {
    let flag = SharedFlag::new();
    assert!(flag.is_enabled());
}

// Two toggles in a row end at the original value and owe exactly two cues,
// one per toggle, one of each kind.
#[test]
fn double_toggle_restores_flag_and_owes_two_cues() {
    let mut flag = SharedFlag::new();
    let before = flag.is_enabled();
    let mut cues: Vec<Cue> = Vec::new();
    cues.push(flag.toggle());
    cues.push(flag.toggle());
    assert_eq!(flag.is_enabled(), before);
    assert_eq!(cues.len(), 2);
    assert_eq!(cues[0], Cue::TurnOff);
    assert_eq!(cues[1], Cue::TurnOn);
}

#[test]
fn toggle_alternates_cues_with_state() {
    let mut flag = SharedFlag::new();
    assert_eq!(flag.toggle(), Cue::TurnOff);
    assert!(!flag.is_enabled());
    assert_eq!(flag.toggle(), Cue::TurnOn);
    assert!(flag.is_enabled());
}
