//! Core library for a USB "macro controller": the message codec, the packet
//! framer, the transport endpoint abstraction, the device connection state
//! machine, and the host-side action dispatcher's decision logic.
//!
//! The transport exchanges fixed-capacity packets; a logical message is one
//! encoded byte buffer split over a run of packets where the first packet
//! strictly shorter than the capacity terminates the message.

use vstd::prelude::*;

pub mod action;
pub mod audiolevels;
pub mod codec;
pub mod config;
pub mod config_entry;
pub mod device;
pub mod dispatch;
pub mod endpoint;
pub mod errors;
pub mod framing;
pub mod message;
pub mod messaging;

verus! {

/// Capacity in bytes of one serial transport packet.
pub const SERIAL_PACKET_SIZE: u16 = 64;

/// Capacity in bytes of one HID transport packet.
pub const HID_PACKET_SIZE: u16 = 8;

/// The number of hardware buttons.
pub const N_HWB: usize = 8;

/// The number of software button entries.
pub const N_SWB: usize = 255;

/// The number of sliders on the controller.
pub const N_SLIDERS: usize = 5;

} // verus!
