//! The connection state machine and the small configuration types.

use audio_controller_core::action::Action;
use audio_controller_core::audiolevels::{AudioLevels, AudioLvls};
use audio_controller_core::config::{BtnConfig, BtnEntry, RawBmpData, Slider, SliderConfig};
use audio_controller_core::config_entry::ConfigEntry;
use audio_controller_core::device::{Buffers, CompositeDeviceProfile, LinkState, MyDeviceHandler};
use audio_controller_core::errors::MyError;

#[test]
fn handler_starts_idle_and_unconfigured() {
    let handler = MyDeviceHandler::new();
    assert!(!handler.is_configured());
}

#[test]
fn handler_lifecycle_transitions() {
    let mut handler = MyDeviceHandler::new();
    handler.enabled(true);
    assert!(!handler.is_configured());
    handler.addressed(4);
    assert!(!handler.is_configured());
    handler.configured(true);
    assert!(handler.is_configured());
    handler.reset();
    assert!(!handler.is_configured());
    handler.configured(true);
    handler.enabled(false);
    assert!(!handler.is_configured());
}

#[test]
fn handler_deconfiguration() {
    let mut handler = MyDeviceHandler::default();
    handler.configured(true);
    handler.configured(false);
    assert!(!handler.is_configured());
}

#[test]
fn link_states_are_distinct() {
    assert_ne!(LinkState::Idle, LinkState::Enumerating);
    assert_ne!(LinkState::Enumerating, LinkState::Configured);
}

#[test]
fn buffers_default_builds() {
    let _buffers = Buffers::default();
}

#[test]
fn action_default_is_command_zero() {
    assert_eq!(Action::default(), Action::Command(0));
}

#[test]
fn config_entry_default_is_empty_command() {
    assert_eq!(ConfigEntry::default(), ConfigEntry::Command(0, Vec::new()));
}

#[test]
fn btn_entry_accessors() {
    let entry = BtnEntry::new(Action::MediaHid(3), Some(String::from("play.bmp")));
    assert_eq!(entry.exec_action(), &Action::MediaHid(3));
    let default_entry = BtnEntry::default();
    assert_eq!(default_entry.exec_action(), &Action::Command(0));
}

#[test]
fn btn_config_refuses_overflow() {
    let mut cfg: BtnConfig<2> = BtnConfig::new();
    assert!(cfg.push(Action::Command(1)).is_none());
    assert!(cfg.push(Action::Command(2)).is_none());
    assert_eq!(cfg.push(Action::Command(3)), Some(Action::Command(3)));
    assert_eq!(cfg.len(), 2);
    assert_eq!(cfg.get(1), &Action::Command(2));
}

#[test]
fn slider_config_refuses_overflow() {
    let mut cfg: SliderConfig<1> = SliderConfig::new();
    assert!(cfg.push(Slider::new(String::from("a"))).is_none());
    let refused = cfg.push(Slider::new(String::from("b")));
    assert_eq!(refused.unwrap().host_process(), &String::from("b"));
    assert_eq!(cfg.len(), 1);
    assert_eq!(cfg.get(0).host_process(), &String::from("a"));
}

#[test]
fn audio_levels_accessors() {
    let levels = AudioLvls::new([5, 6, 7, 8, 9]);
    assert_eq!(levels.level(0), 5);
    assert_eq!(levels.level(4), 9);
    assert_eq!(AudioLvls::from_parts(5, 6, 7, 8, 9), levels);
    let standalone = AudioLevels::new([5, 6, 7, 8, 9]);
    assert_eq!(standalone.level(2), 7);
}

#[test]
fn raw_bmp_data_builds() {
    let bmp = RawBmpData::new(2, 2, vec![0, 1, 2, 3]);
    let _clone = bmp.clone();
    let _default = RawBmpData::default();
}

#[test]
fn my_error_carries_its_message() {
    let err = MyError::_Generic("something went wrong");
    match err {
        MyError::_Generic(text) => assert_eq!(text, "something went wrong"),
    }
}

#[test]
fn composite_profile_class_codes() {
    let profile = CompositeDeviceProfile::new(0x0577, 0x0577);
    assert_eq!(profile.vendor_id, 0x0577);
    assert_eq!(profile.product_id, 0x0577);
    assert_eq!(profile.device_class, 0xEF);
    assert_eq!(profile.device_sub_class, 0x02);
    assert_eq!(profile.device_protocol, 0x01);
}
