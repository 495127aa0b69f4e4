//! The device-side connection state machine and bring-up buffers.
//!
//! A USB bus event handler updates two things: the lifecycle state —
//! idle, enumerating, configured — and the single-writer "is configured"
//! flag that other tasks poll before driving the transport. The handler
//! here is that logic; wiring it to a concrete USB stack's callbacks is the
//! executable shell's concern.

use vstd::prelude::*;

verus! {

/// Where the device stands in the USB connection lifecycle.
#[derive(Debug, Clone, Copy, PartialEq, Eq, Structural)]
pub enum LinkState {
    /// No USB stack is running.
    Idle,
    /// The bus is up but the host has not selected a configuration.
    Enumerating,
    /// The host has configured the device; interfaces are active.
    Configured,
}

/// The bus event handler: tracks the lifecycle state and the configured
/// flag, which only this handler writes.
#[derive(Debug)]
pub struct MyDeviceHandler {
    configured: bool,
    state: LinkState,
}

impl MyDeviceHandler {
    /// The single-writer flag other tasks poll.
    pub closed spec fn configured_flag(&self) -> bool {
        self.configured
    }

    /// The lifecycle state.
    pub closed spec fn link_state(&self) -> LinkState {
        self.state
    }

    /// A fresh handler: stack not running, not configured.
    pub fn new() -> (r: Self)
        ensures
            !r.configured_flag(),
            r.link_state() == LinkState::Idle,
    {
        MyDeviceHandler { configured: false, state: LinkState::Idle }
    }

    /// The bus was powered on or off; either way the configuration is gone.
    pub fn enabled(&mut self, enabled: bool)
        ensures
            !final(self).configured_flag(),
            final(self).link_state() == if enabled {
                LinkState::Enumerating
            } else {
                LinkState::Idle
            },
    {
        self.configured = false;
        self.state = if enabled {
            LinkState::Enumerating
        } else {
            LinkState::Idle
        };
    }

    /// A bus reset: back to enumeration, configuration gone.
    pub fn reset(&mut self)
        ensures
            !final(self).configured_flag(),
            final(self).link_state() == LinkState::Enumerating,
    {
        self.configured = false;
        self.state = LinkState::Enumerating;
    }

    /// The host assigned an address; the device is still not configured.
    pub fn addressed(&mut self, addr: u8)
        ensures
            !final(self).configured_flag(),
            final(self).link_state() == LinkState::Enumerating,
    {
        let _ = addr;
        self.configured = false;
        self.state = LinkState::Enumerating;
    }

    /// The host selected or deselected a configuration.
    pub fn configured(&mut self, configured: bool)
        ensures
            final(self).configured_flag() == configured,
            final(self).link_state() == if configured {
                LinkState::Configured
            } else {
                LinkState::Enumerating
            },
    {
        self.configured = configured;
        self.state = if configured {
            LinkState::Configured
        } else {
            LinkState::Enumerating
        };
    }

    /// Reads the configured flag.
    pub fn is_configured(&self) -> (r: bool)
        ensures
            r == self.configured_flag(),
    {
        self.configured
    }
}

impl Default for MyDeviceHandler {
    /// The default handler is fresh: idle and not configured.
    fn default() -> (r: Self)
        ensures
            !r.configured_flag(),
            r.link_state() == LinkState::Idle,
    {
        MyDeviceHandler::new()
    }
}

/// The identity and class codes a composite USB device announces.
///
/// The vendor and product identifiers are free configuration; the class
/// triple is fixed by the profile: an interface-association composite
/// device so the serial and HID interfaces share one physical connection.
#[derive(Debug, Clone, Copy, PartialEq, Eq, Structural)]
pub struct CompositeDeviceProfile {
    pub vendor_id: u16,
    pub product_id: u16,
    pub device_class: u8,
    pub device_sub_class: u8,
    pub device_protocol: u8,
}

impl CompositeDeviceProfile {
    /// The interface-association composite class triple.
    pub open spec fn is_composite(&self) -> bool {
        self.device_class == 0xEF && self.device_sub_class == 0x02 && self.device_protocol
            == 0x01
    }

    /// A composite device profile for the given vendor and product.
    pub fn new(vendor_id: u16, product_id: u16) -> (r: Self)
        ensures
            r.is_composite(),
            r.vendor_id == vendor_id,
            r.product_id == product_id,
    {
        CompositeDeviceProfile {
            vendor_id,
            product_id,
            device_class: 0xEF,
            device_sub_class: 0x02,
            device_protocol: 0x01,
        }
    }
}

/// The statically-sized buffers a composite USB device is built over:
/// endpoint-out, configuration descriptor, BOS descriptor and control
/// buffers.
#[derive(Debug)]
pub struct Buffers {
    ep_out_buffer: [u8; 256],
    config_descriptor: [u8; 256],
    bos_descriptor: [u8; 256],
    control_buf: [u8; 64],
}

impl Buffers {
    /// All four buffers hold only zeroes.
    pub closed spec fn all_zero(&self) -> bool {
        &&& self.ep_out_buffer@ == Seq::new(256, |i: int| 0u8)
        &&& self.config_descriptor@ == Seq::new(256, |i: int| 0u8)
        &&& self.bos_descriptor@ == Seq::new(256, |i: int| 0u8)
        &&& self.control_buf@ == Seq::new(64, |i: int| 0u8)
    }
}

impl Default for Buffers {
    /// Fresh buffers are zero-filled.
    fn default() -> (r: Self)
        ensures
            r.all_zero(),
    {
        let r = Buffers {
            ep_out_buffer: [0u8; 256],
            config_descriptor: [0u8; 256],
            bos_descriptor: [0u8; 256],
            control_buf: [0u8; 64],
        };
        proof {
            broadcast use vstd::array::group_array_axioms;

            assert(r.ep_out_buffer@ =~= Seq::new(256, |i: int| 0u8));
            assert(r.config_descriptor@ =~= Seq::new(256, |i: int| 0u8));
            assert(r.bos_descriptor@ =~= Seq::new(256, |i: int| 0u8));
            assert(r.control_buf@ =~= Seq::new(64, |i: int| 0u8));
        }
        r
    }
}

} // verus!
