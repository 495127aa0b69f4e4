//! One slot's configuration entry: the command or key sequence it runs.

use vstd::prelude::*;

verus! {

/// What one configured slot does when it fires: run a host command with
/// discrete arguments, or emulate a key-press sequence.
#[derive(Debug, Clone, PartialEq)]
pub enum ConfigEntry {
    /// Slot index and the command's argument list, one argument per element.
    Command(u8, Vec<String>),
    /// Slot index and the key codes to press and release, in order.
    KeyPress(u8, Vec<u8>),
}

/// The mathematical value of a [`ConfigEntry`].
pub enum ConfigEntryView {
    Command(u8, Seq<Seq<char>>),
    KeyPress(u8, Seq<u8>),
}

impl View for ConfigEntry {
    type V = ConfigEntryView;

    open spec fn view(&self) -> ConfigEntryView {
        match self {
            ConfigEntry::Command(idx, args) => ConfigEntryView::Command(
                *idx,
                args@.map_values(|a: String| a@),
            ),
            ConfigEntry::KeyPress(idx, codes) => ConfigEntryView::KeyPress(*idx, codes@),
        }
    }
}

impl Default for ConfigEntry {
    /// The default entry is the command in slot zero with no arguments.
    fn default() -> (r: Self)
        ensures
            r@ matches ConfigEntryView::Command(idx, args) && idx == 0 && args
                == Seq::<Seq<char>>::empty(),
    {
        let r = ConfigEntry::Command(0, Vec::new());
        proof {
            assert(Seq::<String>::empty().map_values(|a: String| a@)
                =~= Seq::<Seq<char>>::empty());
        }
        r
    }
}

} // verus!
