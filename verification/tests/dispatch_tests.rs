//! The dispatcher's decision logic: atomic key validation and process
//! outcome mapping.

use audio_controller_core::dispatch::{command_outcome, plan_keystrokes, KeyEvent};
use audio_controller_core::errors::MessageError;

#[test]
fn plan_emits_press_release_per_key_in_order() {
    let lookups = vec![Some(10u64), Some(20), Some(30)];
    let events = plan_keystrokes(&lookups).unwrap();
    assert_eq!(
        events,
        vec![
            KeyEvent::Press(10),
            KeyEvent::Release(10),
            KeyEvent::Press(20),
            KeyEvent::Release(20),
            KeyEvent::Press(30),
            KeyEvent::Release(30),
        ]
    );
}

#[test]
fn plan_of_no_keys_is_empty() {
    let events = plan_keystrokes(&Vec::new()).unwrap();
    assert!(events.is_empty());
}

#[test]
fn invalid_key_mid_sequence_plans_zero_events() {
    // One unresolved code in the middle: the plan is an error carrying no
    // events at all, not the two events before it.
    let lookups = vec![Some(10u64), None, Some(30)];
    assert_eq!(plan_keystrokes(&lookups), Err(MessageError::NoMatchingKey));
}

#[test]
fn invalid_key_at_start_and_end() {
    assert_eq!(
        plan_keystrokes(&vec![None, Some(1)]),
        Err(MessageError::NoMatchingKey)
    );
    assert_eq!(
        plan_keystrokes(&vec![Some(1), None]),
        Err(MessageError::NoMatchingKey)
    );
}

#[test]
fn command_outcome_mapping() {
    assert_eq!(command_outcome(Some(true)), Ok(()));
    assert_eq!(command_outcome(Some(false)), Err(MessageError::CommandExitFailure));
    assert_eq!(command_outcome(None), Err(MessageError::CommandLaunch));
}
