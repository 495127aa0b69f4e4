//! Configuration data carried by messages: per-button actions and per-slider
//! bindings, held in bounded lists whose capacities are transport constants.

use crate::action::Action;
use crate::action::ActionView;
use crate::{N_HWB, N_SLIDERS, N_SWB};
use vstd::prelude::*;

verus! {

/// A bounded list of button actions; at most `N` entries.
///
/// Stands in for a fixed-capacity vector on the device. Every constructor
/// establishes [`BtnConfig::wf`] and every method preserves it.
#[derive(Debug, Clone, PartialEq)]
pub struct BtnConfig<const N: usize> {
    items: Vec<Action>,
}

impl<const N: usize> BtnConfig<N> {
    /// The capacity bound: well-formed values hold at most `N` actions.
    pub closed spec fn wf(&self) -> bool {
        self.items@.len() <= N
    }

    /// The actions held, in order, as mathematical values.
    pub closed spec fn view(&self) -> Seq<ActionView> {
        self.items@.map_values(|a: Action| a@)
    }

    /// Creates an empty button configuration.
    pub fn new() -> (r: Self)
        ensures
            r.wf(),
            r@ == Seq::<ActionView>::empty(),
    {
        let r = BtnConfig { items: Vec::new() };
        proof {
            assert(r@ =~= Seq::<ActionView>::empty());
        }
        r
    }

    /// Appends one action; refused (input handed back) when the list is full.
    pub fn push(&mut self, action: Action) -> (r: Option<Action>)
        requires
            old(self).wf(),
        ensures
            final(self).wf(),
            old(self)@.len() < N ==> r is None && final(self)@ == old(self)@.push(action@),
            old(self)@.len() >= N ==> r == Some(action) && final(self)@ == old(self)@,
    {
        if self.items.len() < N {
            let ghost prior = self@;
            let ghost av = action@;
            self.items.push(action);
            proof {
                assert(self@ =~= prior.push(av));
            }
            None
        } else {
            Some(action)
        }
    }

    /// The number of actions held.
    pub fn len(&self) -> (n: usize)
        requires
            self.wf(),
        ensures
            n == self@.len(),
            n <= N,
    {
        self.items.len()
    }

    /// The action at `i`.
    pub fn get(&self, i: usize) -> (a: &Action)
        requires
            i < self@.len(),
        ensures
            a@ == self@[i as int],
    {
        &self.items[i]
    }
}

impl<const N: usize> BtnConfig<N> {
    /// Within the crate: wraps an already-bounded action list.
    pub(crate) fn from_actions(items: Vec<Action>) -> (r: Self)
        requires
            items@.len() <= N,
        ensures
            r.wf(),
            r@ == items@.map_values(|a: Action| a@),
    {
        BtnConfig { items }
    }
}

impl<const N: usize> Default for BtnConfig<N> {
    /// The default configuration is empty.
    fn default() -> (r: Self)
        ensures
            r.wf(),
            r@ == Seq::<ActionView>::empty(),
    {
        BtnConfig::new()
    }
}

/// One slider's binding: the name of the host process whose volume it drives.
#[derive(Debug, Clone, PartialEq)]
pub struct Slider {
    host_process: String,
}

impl View for Slider {
    type V = Seq<char>;

    closed spec fn view(&self) -> Seq<char> {
        self.host_process@
    }
}

impl Slider {
    /// Binds a slider to the named host process.
    pub fn new(host_process: String) -> (r: Self)
        ensures
            r@ == host_process@,
    {
        Self { host_process }
    }

    /// The bound host process name.
    pub fn host_process(&self) -> (r: &String)
        ensures
            r@ == self@,
    {
        &self.host_process
    }
}

/// A bounded list of slider bindings; at most `N` entries.
#[derive(Debug, Clone, PartialEq)]
pub struct SliderConfig<const N: usize> {
    items: Vec<Slider>,
}

impl<const N: usize> SliderConfig<N> {
    /// The capacity bound: well-formed values hold at most `N` sliders.
    pub closed spec fn wf(&self) -> bool {
        self.items@.len() <= N
    }

    /// The slider bindings held, in order, as process names.
    pub closed spec fn view(&self) -> Seq<Seq<char>> {
        self.items@.map_values(|s: Slider| s@)
    }

    /// Creates an empty slider configuration.
    pub fn new() -> (r: Self)
        ensures
            r.wf(),
            r@ == Seq::<Seq<char>>::empty(),
    {
        let r = SliderConfig { items: Vec::new() };
        proof {
            assert(r@ =~= Seq::<Seq<char>>::empty());
        }
        r
    }

    /// Appends one slider binding; refused (input handed back) when full.
    pub fn push(&mut self, slider: Slider) -> (r: Option<Slider>)
        requires
            old(self).wf(),
        ensures
            final(self).wf(),
            old(self)@.len() < N ==> r is None && final(self)@ == old(self)@.push(slider@),
            old(self)@.len() >= N ==> r == Some(slider) && final(self)@ == old(self)@,
    {
        if self.items.len() < N {
            let ghost prior = self@;
            let ghost sv = slider@;
            self.items.push(slider);
            proof {
                assert(self@ =~= prior.push(sv));
            }
            None
        } else {
            Some(slider)
        }
    }

    /// The number of sliders held.
    pub fn len(&self) -> (n: usize)
        requires
            self.wf(),
        ensures
            n == self@.len(),
            n <= N,
    {
        self.items.len()
    }

    /// The slider at `i`.
    pub fn get(&self, i: usize) -> (s: &Slider)
        requires
            i < self@.len(),
        ensures
            s@ == self@[i as int],
    {
        &self.items[i]
    }
}

impl<const N: usize> SliderConfig<N> {
    /// Within the crate: wraps an already-bounded slider list.
    pub(crate) fn from_sliders(items: Vec<Slider>) -> (r: Self)
        requires
            items@.len() <= N,
        ensures
            r.wf(),
            r@ == items@.map_values(|s: Slider| s@),
    {
        SliderConfig { items }
    }
}

impl<const N: usize> Default for SliderConfig<N> {
    /// The default configuration is empty.
    fn default() -> (r: Self)
        ensures
            r.wf(),
            r@ == Seq::<Seq<char>>::empty(),
    {
        SliderConfig::new()
    }
}

/// One software button entry: the action it fires and an optional bitmap name.
#[derive(Debug, Clone, PartialEq)]
pub struct BtnEntry {
    exec_action: Action,
    bitmap: Option<String>,
}

/// The mathematical value of a [`BtnEntry`].
pub struct BtnEntryView {
    pub exec_action: ActionView,
    pub bitmap: Option<Seq<char>>,
}

impl View for BtnEntry {
    type V = BtnEntryView;

    closed spec fn view(&self) -> BtnEntryView {
        BtnEntryView {
            exec_action: self.exec_action@,
            bitmap: match self.bitmap {
                Some(ref s) => Some(s@),
                None => None,
            },
        }
    }
}

impl BtnEntry {
    /// Pairs an action with an optional bitmap name.
    pub fn new(exec_action: Action, bitmap: Option<String>) -> (r: Self)
        ensures
            r@.exec_action == exec_action@,
            bitmap matches Some(s) ==> r@.bitmap == Some(s@),
            bitmap is None ==> r@.bitmap is None,
    {
        Self { exec_action, bitmap }
    }

    /// The action this entry fires.
    pub fn exec_action(&self) -> (a: &Action)
        ensures
            a@ == self@.exec_action,
    {
        &self.exec_action
    }
}

impl Default for BtnEntry {
    /// The default entry fires the default action and names no bitmap.
    fn default() -> (r: Self)
        ensures
            r@.exec_action == ActionView::Command(0),
            r@.bitmap is None,
    {
        Self { exec_action: Action::default(), bitmap: None }
    }
}

/// The whole controller configuration sent at startup: hardware-button
/// actions, software-button actions, and slider bindings.
#[derive(Debug, Clone, PartialEq)]
pub struct Config {
    pub(crate) hw_btn_cfg: BtnConfig<N_HWB>,
    pub(crate) sw_btn_cfg: BtnConfig<N_SWB>,
    pub(crate) slider_cfg: SliderConfig<N_SLIDERS>,
}

/// The mathematical value of a [`Config`].
pub struct ConfigView {
    pub hw_btns: Seq<ActionView>,
    pub sw_btns: Seq<ActionView>,
    pub sliders: Seq<Seq<char>>,
}

impl View for Config {
    type V = ConfigView;

    closed spec fn view(&self) -> ConfigView {
        ConfigView {
            hw_btns: self.hw_btn_cfg@,
            sw_btns: self.sw_btn_cfg@,
            sliders: self.slider_cfg@,
        }
    }
}

impl Config {
    /// Well-formed configurations keep every list within its capacity.
    pub closed spec fn wf(&self) -> bool {
        self.hw_btn_cfg.wf() && self.sw_btn_cfg.wf() && self.slider_cfg.wf()
    }

    /// Assembles a configuration from its three parts.
    pub fn new(
        hw_btn_cfg: BtnConfig<N_HWB>,
        sw_btn_cfg: BtnConfig<N_SWB>,
        slider_cfg: SliderConfig<N_SLIDERS>,
    ) -> (r: Self)
        requires
            hw_btn_cfg.wf(),
            sw_btn_cfg.wf(),
            slider_cfg.wf(),
        ensures
            r.wf(),
            r@.hw_btns == hw_btn_cfg@,
            r@.sw_btns == sw_btn_cfg@,
            r@.sliders == slider_cfg@,
    {
        Self { hw_btn_cfg, sw_btn_cfg, slider_cfg }
    }
}

impl Config {
    /// Within the crate: a well-formed configuration has well-formed parts.
    pub(crate) proof fn lemma_wf_parts(&self)
        requires
            self.wf(),
        ensures
            self.hw_btn_cfg.wf(),
            self.sw_btn_cfg.wf(),
            self.slider_cfg.wf(),
            self@.hw_btns == self.hw_btn_cfg@,
            self@.sw_btns == self.sw_btn_cfg@,
            self@.sliders == self.slider_cfg@,
    {
    }
}

impl Default for Config {
    /// The default configuration is empty in all three parts.
    fn default() -> (r: Self)
        ensures
            r.wf(),
            r@.hw_btns == Seq::<ActionView>::empty(),
            r@.sw_btns == Seq::<ActionView>::empty(),
            r@.sliders == Seq::<Seq<char>>::empty(),
    {
        Config::new(BtnConfig::new(), BtnConfig::new(), SliderConfig::new())
    }
}

/// Raw bitmap pixel data with its dimensions.
#[derive(Debug, Clone, PartialEq)]
pub struct RawBmpData {
    w: usize,
    h: usize,
    raw_data: Vec<u8>,
}

impl RawBmpData {
    /// The stored width.
    pub closed spec fn spec_width(&self) -> usize {
        self.w
    }

    /// The stored height.
    pub closed spec fn spec_height(&self) -> usize {
        self.h
    }

    /// The stored pixel bytes.
    pub closed spec fn spec_data(&self) -> Seq<u8> {
        self.raw_data@
    }

    /// Wraps raw pixel bytes with their dimensions.
    pub fn new(w: usize, h: usize, raw_data: Vec<u8>) -> (r: Self)
        ensures
            r.spec_width() == w,
            r.spec_height() == h,
            r.spec_data() == raw_data@,
    {
        Self { w, h, raw_data }
    }
}

impl Default for RawBmpData {
    /// The default value is an empty zero-by-zero bitmap.
    fn default() -> (r: Self)
        ensures
            r.spec_width() == 0,
            r.spec_height() == 0,
            r.spec_data() == Seq::<u8>::empty(),
    {
        Self { w: 0, h: 0, raw_data: Vec::new() }
    }
}

} // verus!
