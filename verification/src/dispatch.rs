//! The host-side action dispatcher's decision logic.
//!
//! The dispatcher's platform calls — spawning a process, pressing a key —
//! live outside this library; what is verified here is every decision around
//! them: key-sequence validation is all-or-nothing, and a process outcome
//! maps to exactly one reported result.

use crate::errors::MessageError;
use vstd::prelude::*;

verus! {

/// One emulated keyboard event, carrying the platform's resolved key handle.
#[derive(Debug, Clone, Copy, PartialEq, Eq, Structural)]
pub enum KeyEvent {
    /// Key down.
    Press(u64),
    /// Key up.
    Release(u64),
}

/// Plans the keyboard events for a key-code sequence, given each code's
/// resolution to a platform key handle (`None` where no key matches).
///
/// Validation is atomic: if any code is unresolved the plan is
/// `Err(MessageError::NoMatchingKey)` and holds no event at all — never a
/// partial prefix — and otherwise the plan is press followed by release for
/// each key, in the sequence's order.
pub fn plan_keystrokes(lookups: &Vec<Option<u64>>) -> (r: Result<Vec<KeyEvent>, MessageError>)
    ensures
        r is Ok <==> (forall|i: int| 0 <= i < lookups@.len() ==> lookups@[i] is Some),
        r matches Ok(events) ==> {
            &&& events@.len() == 2 * lookups@.len()
            &&& forall|i: int| 0 <= i < lookups@.len() ==> events@[2 * i] == KeyEvent::Press(
                (#[trigger] lookups@[i])->Some_0,
            ) && events@[2 * i + 1] == KeyEvent::Release(lookups@[i]->Some_0)
        },
        r is Err ==> r == Err::<Vec<KeyEvent>, MessageError>(MessageError::NoMatchingKey),
{
    let n = lookups.len();
    let mut keys: Vec<u64> = Vec::new();
    let mut i: usize = 0;
    while i < n
        invariant
            n == lookups@.len(),
            i <= n,
            keys@.len() == i,
            forall|k: int| 0 <= k < i ==> lookups@[k] is Some && keys@[k] == (
            #[trigger] lookups@[k])->Some_0,
        decreases n - i,
    {
        match lookups[i] {
            Some(key) => {
                keys.push(key);
            },
            None => {
                return Err(MessageError::NoMatchingKey);
            },
        }
        i = i + 1;
    }
    let mut events: Vec<KeyEvent> = Vec::new();
    let mut j: usize = 0;
    while j < n
        invariant
            n == lookups@.len(),
            n == keys@.len(),
            j <= n,
            events@.len() == 2 * j,
            forall|k: int| 0 <= k < n ==> lookups@[k] is Some && keys@[k] == (
            #[trigger] lookups@[k])->Some_0,
            forall|k: int| 0 <= k < j ==> events@[2 * k] == KeyEvent::Press(
                (#[trigger] lookups@[k])->Some_0,
            ) && events@[2 * k + 1] == KeyEvent::Release(lookups@[k]->Some_0),
        decreases n - j,
    {
        events.push(KeyEvent::Press(keys[j]));
        events.push(KeyEvent::Release(keys[j]));
        j = j + 1;
    }
    Ok(events)
}

/// Maps a host process outcome to the dispatcher's report: `None` when the
/// process could not be started, otherwise whether it exited successfully.
pub fn command_outcome(status: Option<bool>) -> (r: Result<(), MessageError>)
    ensures
        match status {
            Some(true) => r is Ok,
            Some(false) => r == Err::<(), MessageError>(MessageError::CommandExitFailure),
            None => r == Err::<(), MessageError>(MessageError::CommandLaunch),
        },
{
    match status {
        Some(true) => Ok(()),
        Some(false) => Err(MessageError::CommandExitFailure),
        None => Err(MessageError::CommandLaunch),
    }
}

} // verus!
