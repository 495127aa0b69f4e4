//! What a controller slot does when it fires: spawn a host command, emulate a
//! keyboard sequence, or emit one media key.

use vstd::prelude::*;

verus! {

/// One slot's behaviour. Exactly one variant is active per value.
#[derive(Debug, Clone, PartialEq)]
pub enum Action {
    /// Spawn the host command registered under this index.
    Command(u8),
    /// Emulate key down + key up for each key code, in order.
    KbdHid(Vec<u8>),
    /// Emit a single media-key HID usage.
    MediaHid(u16),
}

/// The mathematical value of an [`Action`].
pub enum ActionView {
    Command(u8),
    KbdHid(Seq<u8>),
    MediaHid(u16),
}

impl View for Action {
    type V = ActionView;

    open spec fn view(&self) -> ActionView {
        match self {
            Action::Command(idx) => ActionView::Command(*idx),
            Action::KbdHid(codes) => ActionView::KbdHid(codes@),
            Action::MediaHid(code) => ActionView::MediaHid(*code),
        }
    }
}

impl Default for Action {
    /// The default action runs the command registered under index zero.
    fn default() -> (r: Self)
        ensures
            r@ == ActionView::Command(0),
    {
        Action::Command(0x00)
    }
}

} // verus!
