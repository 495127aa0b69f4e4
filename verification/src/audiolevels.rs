//! Slider level readings reported by the device, one per slider.

use crate::N_SLIDERS;
use vstd::prelude::*;

verus! {

/// A fixed-size array of slider level readings (each nominally 0–1024).
#[derive(Debug, Clone, PartialEq)]
pub struct AudioLvls {
    data: [u16; N_SLIDERS],
}

impl View for AudioLvls {
    type V = Seq<u16>;

    closed spec fn view(&self) -> Seq<u16> {
        self.data@
    }
}

impl AudioLvls {
    /// Every value holds exactly one reading per slider.
    pub proof fn lemma_view_len(&self)
        ensures
            self@.len() == N_SLIDERS,
    {
        broadcast use vstd::array::group_array_axioms;

    }

    /// Wraps one reading per slider.
    pub fn new(data: [u16; N_SLIDERS]) -> (r: Self)
        ensures
            r@ == data@,
            r@.len() == N_SLIDERS,
    {
        Self { data }
    }

    /// Builds the reading set from five individual values.
    pub fn from_parts(v0: u16, v1: u16, v2: u16, v3: u16, v4: u16) -> (r: Self)
        ensures
            r@ == seq![v0, v1, v2, v3, v4],
    {
        let data: [u16; N_SLIDERS] = [v0, v1, v2, v3, v4];
        assert(data@ =~= seq![v0, v1, v2, v3, v4]);
        Self { data }
    }

    /// The reading for slider `i`.
    pub fn level(&self, i: usize) -> (v: u16)
        requires
            i < N_SLIDERS,
        ensures
            v == self@[i as int],
    {
        self.data[i]
    }
}

/// A slider-level reading set exchanged on its own, outside a message.
///
/// Same shape as [`AudioLvls`]; kept as a separate type because standalone
/// reports and message payloads evolve independently.
#[derive(Debug, Clone, PartialEq)]
pub struct AudioLevels {
    data: [u16; N_SLIDERS],
}

impl View for AudioLevels {
    type V = Seq<u16>;

    closed spec fn view(&self) -> Seq<u16> {
        self.data@
    }
}

impl AudioLevels {
    /// Wraps one reading per slider.
    pub fn new(data: [u16; N_SLIDERS]) -> (r: Self)
        ensures
            r@ == data@,
            r@.len() == N_SLIDERS,
    {
        Self { data }
    }

    /// The reading for slider `i`.
    pub fn level(&self, i: usize) -> (v: u16)
        requires
            i < N_SLIDERS,
        ensures
            v == self@[i as int],
    {
        self.data[i]
    }
}

} // verus!
