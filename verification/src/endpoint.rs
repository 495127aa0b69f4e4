//! The transport endpoint abstraction: a capability interface over a
//! bidirectional packet channel, and an in-memory endpoint bound to it.
//!
//! Any concrete transport — a USB CDC-ACM endpoint, a plain serial port, a
//! socket — is modelled by two packet queues: the packets still to be
//! delivered to this endpoint, and the packets it has accepted for sending.
//! The framer depends only on this interface, never on transport specifics.

use crate::errors::TransportError;
use crate::framing::packet_capacity;
use crate::SERIAL_PACKET_SIZE;
use vstd::prelude::*;

verus! {

/// A bidirectional packet channel: receive one packet, send one packet.
///
/// `incoming()` holds the packets not yet delivered, oldest first; `sent()`
/// the packets accepted for sending, oldest first. `inv()` is the
/// endpoint's configuration invariant; it bounds every queued packet by the
/// transport's packet capacity, so a caller reading into a buffer of that
/// capacity never overflows.
pub trait PacketEndpoint: Sized {
    /// Packets awaiting delivery to this endpoint, oldest first.
    spec fn incoming(&self) -> Seq<Seq<u8>>;

    /// Packets this endpoint has accepted for sending, oldest first.
    spec fn sent(&self) -> Seq<Seq<u8>>;

    /// The endpoint's configuration invariant.
    spec fn inv(&self) -> bool;

    /// Under the invariant, no queued packet exceeds the packet capacity.
    proof fn inv_packet_bound(&self)
        requires
            self.inv(),
        ensures
            forall|i: int| 0 <= i < self.incoming().len()
                ==> #[trigger] self.incoming()[i].len() <= packet_capacity(),
    ;

    /// Delivers the oldest pending packet into the front of `buf`, leaving
    /// the buffer's length unchanged, and reports the packet's length.
    ///
    /// Fails with [`TransportError::Overflow`] when the packet exceeds the
    /// buffer — a configuration bug, since the invariant bounds packets by
    /// the capacity — and with [`TransportError::Disabled`] or
    /// [`TransportError::Closed`] when no packet will arrive.
    fn receive_packet(&mut self, buf: &mut Vec<u8>) -> (r: Result<usize, TransportError>)
        requires
            old(self).inv(),
        ensures
            final(self).inv(),
            final(self).sent() == old(self).sent(),
            match r {
                Ok(n) => {
                    &&& old(self).incoming().len() > 0
                    &&& n == old(self).incoming()[0].len()
                    &&& n <= old(buf)@.len()
                    &&& final(buf)@.len() == old(buf)@.len()
                    &&& final(buf)@.subrange(0, n as int) == old(self).incoming()[0]
                    &&& final(self).incoming() == old(self).incoming().drop_first()
                },
                Err(TransportError::Overflow) => {
                    &&& old(self).incoming().len() > 0
                    &&& old(self).incoming()[0].len() > old(buf)@.len()
                    &&& final(self).incoming() == old(self).incoming()
                    &&& final(buf)@ == old(buf)@
                },
                Err(_) => {
                    &&& old(self).incoming().len() == 0
                    &&& final(self).incoming() == old(self).incoming()
                    &&& final(buf)@ == old(buf)@
                },
            },
    ;

    /// Hands one packet of at most the packet capacity to the transport.
    ///
    /// On success the packet is appended to `sent()`; a refusal reports
    /// [`TransportError::Disabled`] or [`TransportError::Closed`] and sends
    /// nothing.
    fn send_packet(&mut self, packet: &[u8]) -> (r: Result<(), TransportError>)
        requires
            old(self).inv(),
            packet@.len() <= packet_capacity(),
        ensures
            final(self).inv(),
            final(self).incoming() == old(self).incoming(),
            match r {
                Ok(_) => final(self).sent() == old(self).sent().push(packet@),
                Err(e) => (e == TransportError::Disabled || e == TransportError::Closed)
                    && final(self).sent() == old(self).sent(),
            },
    ;
}

/// An in-memory endpoint: delivers a pre-loaded script of packets and
/// records what is sent. It stands in for a live transport in proofs and
/// tests; a disconnection mid-stream is modelled by ending the script, with
/// `closed` telling which error the next read reports.
#[derive(Debug)]
pub struct LoopbackEndpoint {
    incoming: Vec<Vec<u8>>,
    sent: Vec<Vec<u8>>,
    closed: bool,
}

impl LoopbackEndpoint {
    /// Builds an endpoint that will deliver `packets` in order and then
    /// report `Closed` (when `closed`) or `Disabled`.
    pub fn new(packets: Vec<Vec<u8>>, closed: bool) -> (r: Self)
        requires
            forall|i: int| 0 <= i < packets.deep_view().len()
                ==> #[trigger] packets.deep_view()[i].len() <= packet_capacity(),
        ensures
            r.inv(),
            r.incoming() == packets.deep_view(),
            r.sent() == Seq::<Seq<u8>>::empty(),
    {
        let r = LoopbackEndpoint { incoming: packets, sent: Vec::new(), closed };
        proof {
            assert(r.sent.deep_view() =~= Seq::<Seq<u8>>::empty());
        }
        r
    }

    /// The packets this endpoint has accepted for sending, oldest first.
    pub fn sent_packets(&self) -> (r: &Vec<Vec<u8>>)
        ensures
            r.deep_view() == self.sent(),
    {
        &self.sent
    }

    /// How many packets are still queued for delivery.
    pub fn pending(&self) -> (n: usize)
        ensures
            n == self.incoming().len(),
    {
        self.incoming.len()
    }
}

impl PacketEndpoint for LoopbackEndpoint {
    closed spec fn incoming(&self) -> Seq<Seq<u8>> {
        self.incoming.deep_view()
    }

    closed spec fn sent(&self) -> Seq<Seq<u8>> {
        self.sent.deep_view()
    }

    closed spec fn inv(&self) -> bool {
        forall|i: int| 0 <= i < self.incoming.deep_view().len()
            ==> #[trigger] self.incoming.deep_view()[i].len() <= packet_capacity()
    }

    proof fn inv_packet_bound(&self) {
    }

    fn receive_packet(&mut self, buf: &mut Vec<u8>) -> (r: Result<usize, TransportError>) {
        if self.incoming.len() == 0 {
            if self.closed {
                return Err(TransportError::Closed);
            } else {
                return Err(TransportError::Disabled);
            }
        }
        let n = self.incoming[0].len();
        if n > buf.len() {
            return Err(TransportError::Overflow);
        }
        let packet = self.incoming.remove(0);
        let mut k: usize = 0;
        while k < n
            invariant
                n == packet@.len(),
                n <= buf@.len(),
                k <= n,
                buf@.len() == old(buf)@.len(),
                buf@.subrange(0, k as int) == packet@.subrange(0, k as int),
                buf@.skip(k as int) == old(buf)@.skip(k as int),
            decreases n - k,
        {
            let ghost prior = buf@;
            buf.set(k, packet[k]);
            proof {
                assert(buf@.subrange(0, k + 1) =~= prior.subrange(0, k as int).push(
                    packet@[k as int],
                ));
                assert(packet@.subrange(0, k + 1) =~= packet@.subrange(0, k as int).push(
                    packet@[k as int],
                ));
                assert(buf@.skip(k + 1) =~= prior.skip(k as int).drop_first());
                assert(old(buf)@.skip(k + 1) =~= old(buf)@.skip(k as int).drop_first());
            }
            k = k + 1;
        }
        proof {
            assert(packet@.subrange(0, n as int) =~= packet@);
            assert(self.incoming.deep_view() =~~= old(self).incoming().drop_first());
        }
        Ok(n)
    }

    fn send_packet(&mut self, packet: &[u8]) -> (r: Result<(), TransportError>) {
        let owned = vstd::slice::slice_to_vec(packet);
        let ghost before = self.sent.deep_view();
        self.sent.push(owned);
        proof {
            assert(self.sent.deep_view() =~~= before.push(packet@));
        }
        Ok(())
    }
}

} // verus!
