//! Round trips and malformed-input behaviour of the message codec.

use audio_controller_core::action::Action;
use audio_controller_core::audiolevels::AudioLvls;
use audio_controller_core::config::{BtnConfig, Config, Slider, SliderConfig};
use audio_controller_core::errors::MessageError;
use audio_controller_core::message::Message;
use audio_controller_core::{N_HWB, N_SLIDERS, N_SWB};

fn round_trip(m: Message) {
    let bytes = m.serialize().unwrap();
    let back = Message::deserialize(&bytes).unwrap();
    assert_eq!(back, m);
}

#[test]
fn round_trip_btn_press_command() {
    round_trip(Message::BtnPress(Action::Command(2)));
}

#[test]
fn round_trip_btn_press_kbd_hid() {
    round_trip(Message::BtnPress(Action::KbdHid(vec![b'a', b'b', b'z'])));
    round_trip(Message::BtnPress(Action::KbdHid(Vec::new())));
}

#[test]
fn round_trip_btn_press_media_hid() {
    round_trip(Message::BtnPress(Action::MediaHid(0xE2)));
}

#[test]
fn round_trip_edit_buttons() {
    round_trip(Message::EditSWBtn(7, Action::MediaHid(0x30)));
    round_trip(Message::EditHWBtn(0, Action::KbdHid(vec![1, 2, 3])));
}

#[test]
fn round_trip_audio_levels() {
    round_trip(Message::AudioLvls(AudioLvls::new([0, 512, 1024, 3, 77])));
}

fn sample_config() -> Config {
    let mut hw: BtnConfig<N_HWB> = BtnConfig::new();
    assert!(hw.push(Action::Command(1)).is_none());
    assert!(hw.push(Action::KbdHid(vec![b'x'])).is_none());
    let mut sw: BtnConfig<N_SWB> = BtnConfig::new();
    assert!(sw.push(Action::MediaHid(0xCD)).is_none());
    let mut sliders: SliderConfig<N_SLIDERS> = SliderConfig::new();
    assert!(sliders.push(Slider::new(String::from("firefox"))).is_none());
    assert!(sliders.push(Slider::new(String::from("müsic ▶"))).is_none());
    Config::new(hw, sw, sliders)
}

#[test]
fn round_trip_startup_configuration() {
    round_trip(Message::StartupConfiguration(sample_config()));
}

#[test]
fn round_trip_empty_configuration() {
    round_trip(Message::StartupConfiguration(Config::default()));
}

#[test]
fn exact_encoding_of_command_press() {
    // Tag 3 (BtnPress), action tag 0 (Command), index 2.
    let bytes = Message::BtnPress(Action::Command(2)).serialize().unwrap();
    assert_eq!(bytes, vec![3, 0, 2]);
}

#[test]
fn exact_encoding_of_media_key() {
    // Action tag 2, then the usage code little-endian.
    let bytes = Message::BtnPress(Action::MediaHid(0x1234)).serialize().unwrap();
    assert_eq!(bytes, vec![3, 2, 0x34, 0x12]);
}

#[test]
fn exact_encoding_of_kbd_hid() {
    // Action tag 1, a 64-bit little-endian byte count, then the codes.
    let bytes = Message::EditSWBtn(5, Action::KbdHid(vec![9, 8])).serialize().unwrap();
    assert_eq!(bytes, vec![1, 5, 1, 2, 0, 0, 0, 0, 0, 0, 0, 9, 8]);
}

#[test]
fn exact_encoding_of_audio_levels() {
    let bytes = Message::AudioLvls(AudioLvls::new([1, 2, 3, 4, 0x0400]))
        .serialize()
        .unwrap();
    assert_eq!(bytes, vec![4, 1, 0, 2, 0, 3, 0, 4, 0, 0, 4]);
}

#[test]
fn deserialize_rejects_empty_input() {
    assert_eq!(Message::deserialize(&[]), Err(MessageError::Cbor));
}

#[test]
fn deserialize_rejects_unknown_tag() {
    assert_eq!(Message::deserialize(&[9, 0, 2]), Err(MessageError::Cbor));
    assert_eq!(Message::deserialize(&[3, 7, 1]), Err(MessageError::Cbor));
}

#[test]
fn deserialize_rejects_truncation() {
    let bytes = Message::BtnPress(Action::KbdHid(vec![1, 2, 3])).serialize().unwrap();
    for cut in 0..bytes.len() {
        assert_eq!(Message::deserialize(&bytes[..cut]), Err(MessageError::Cbor));
    }
}

#[test]
fn deserialize_rejects_trailing_bytes() {
    let mut bytes = Message::BtnPress(Action::Command(2)).serialize().unwrap();
    bytes.push(0);
    assert_eq!(Message::deserialize(&bytes), Err(MessageError::Cbor));
}

#[test]
fn deserialize_rejects_oversized_length_prefix() {
    // KbdHid claiming u64::MAX bytes.
    let mut bytes = vec![3, 1];
    bytes.extend_from_slice(&[0xFF; 8]);
    bytes.push(0);
    assert_eq!(Message::deserialize(&bytes), Err(MessageError::Cbor));
}

#[test]
fn deserialize_rejects_over_capacity_config() {
    // StartupConfiguration whose hardware-button count exceeds N_HWB.
    let mut bytes = vec![0u8];
    bytes.extend_from_slice(&((N_HWB as u64) + 1).to_le_bytes());
    assert_eq!(Message::deserialize(&bytes), Err(MessageError::Cbor));
}

#[test]
fn deserialize_rejects_invalid_utf8_slider_name() {
    // A config with one slider whose name bytes are not UTF-8.
    let mut bytes = vec![0u8];
    bytes.extend_from_slice(&0u64.to_le_bytes()); // no hardware buttons
    bytes.extend_from_slice(&0u64.to_le_bytes()); // no software buttons
    bytes.extend_from_slice(&1u64.to_le_bytes()); // one slider
    bytes.extend_from_slice(&2u64.to_le_bytes()); // two name bytes
    bytes.extend_from_slice(&[0xC0, 0x20]); // invalid UTF-8
    assert_eq!(Message::deserialize(&bytes), Err(MessageError::Cbor));
}

#[test]
fn deserialize_accepts_valid_config_bytes() {
    let bytes = Message::StartupConfiguration(sample_config()).serialize().unwrap();
    let m = Message::deserialize(&bytes).unwrap();
    match m {
        Message::StartupConfiguration(_) => {},
        other => panic!("decoded the wrong variant: {:?}", other),
    }
}
