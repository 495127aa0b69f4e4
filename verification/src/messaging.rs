//! Sending and receiving whole messages over a packet endpoint: the framer
//! driving the transport abstraction.
//!
//! One message is in flight at a time per direction: a send hands every
//! packet of one message to the endpoint before returning, and a receive
//! consumes packets until the terminator. A transport failure before the
//! terminator is reported as [`FrameError::TransportClosed`], never as an
//! empty or partial message.

use crate::codec::{spec_message_decode, spec_message_encode, wf_message};
use crate::endpoint::PacketEndpoint;
use crate::errors::{FrameError, MessageError};
use crate::framing::{frame_payload, lemma_packets_bounded, packet_capacity, spec_packets,
    spec_take_message};
use crate::message::Message;
use crate::SERIAL_PACKET_SIZE;
use vstd::prelude::*;

verus! {

/// Joins an already-accumulated prefix of `k` full packets with the outcome
/// of reassembling the remaining packet run.
spec fn join_prefix(prefix: Seq<u8>, k: int, rest: Option<(Seq<u8>, int)>) -> Option<
    (Seq<u8>, int),
> {
    match rest {
        None => None,
        Some((payload, used)) => Some((prefix + payload, k + used)),
    }
}

/// Sends one message over the endpoint: every packet of its framing, in
/// order. On a transport refusal the send stops and reports
/// [`MessageError::USBWriteFailure`], leaving a proper prefix of the
/// packet run sent; no packet of a new message is interleaved.
pub fn send_message_over<E: PacketEndpoint>(ep: &mut E, msg: &Message) -> (r: Result<
    (),
    MessageError,
>)
    requires
        old(ep).inv(),
        msg.wf(),
    ensures
        final(ep).inv(),
        final(ep).incoming() == old(ep).incoming(),
        wf_message(msg@),
        match r {
            Ok(_) => final(ep).sent() == old(ep).sent() + spec_packets(
                spec_message_encode(msg@),
            ),
            Err(e) => e == MessageError::USBWriteFailure && (exists|k: int|
                0 <= k <= spec_packets(spec_message_encode(msg@)).len() && final(ep).sent()
                    == old(ep).sent() + spec_packets(spec_message_encode(msg@)).take(k)),
        },
{
    let bytes = match msg.serialize() {
        Ok(b) => b,
        Err(_) => {
            proof {
                assert(false);
            }
            return Err(MessageError::Cbor);
        },
    };
    let packets = frame_payload(bytes.as_slice());
    let ghost all = spec_packets(spec_message_encode(msg@));
    proof {
        lemma_packets_bounded(bytes@);
        assert(old(ep).sent() + all.take(0) =~= old(ep).sent());
    }
    let mut k: usize = 0;
    while k < packets.len()
        invariant
            ep.inv(),
            k <= packets.len(),
            wf_message(msg@),
            all == spec_packets(spec_message_encode(msg@)),
            packets.deep_view() == all,
            forall|i: int| 0 <= i < all.len() ==> #[trigger] all[i].len()
                <= packet_capacity(),
            ep.incoming() == old(ep).incoming(),
            ep.sent() == old(ep).sent() + all.take(k as int),
        decreases packets.len() - k,
    {
        let packet = &packets[k];
        proof {
            assert(packet@ == all[k as int]);
        }
        match ep.send_packet(packet.as_slice()) {
            Ok(_) => {
                proof {
                    assert(all.take(k + 1) =~= all.take(k as int).push(all[k as int]));
                    assert((old(ep).sent() + all.take(k as int)).push(all[k as int])
                        =~= old(ep).sent() + all.take(k + 1));
                }
                k = k + 1;
            },
            Err(_) => {
                proof {
                    assert(ep.sent() == old(ep).sent() + all.take(k as int));
                }
                return Err(MessageError::USBWriteFailure);
            },
        }
    }
    proof {
        assert(all.take(packets@.len() as int) =~= all);
    }
    Ok(())
}

/// Frames one message for sending: its encoded bytes split into transport
/// packets, terminator included.
pub fn frame_for_send(msg: &Message) -> (r: Result<Vec<Vec<u8>>, MessageError>)
    requires
        msg.wf(),
    ensures
        r matches Ok(packets) && packets.deep_view() == spec_packets(
            spec_message_encode(msg@),
        ),
        wf_message(msg@),
{
    let bytes = match msg.serialize() {
        Ok(b) => b,
        Err(_) => {
            proof {
                assert(false);
            }
            return Err(MessageError::Cbor);
        },
    };
    Ok(frame_payload(bytes.as_slice()))
}

/// Law: what a sender puts on the wire, a receiver reconstructs to the
/// identical message. For every well-formed message value, reassembling its
/// framed packet run (whatever packets follow it) consumes exactly that run
/// and yields its encoded bytes, and decoding those bytes yields exactly
/// the original message value.
pub proof fn lemma_send_receive_round_trip(m: crate::message::MessageView, rest: Seq<Seq<u8>>)
    requires
        wf_message(m),
    ensures
        spec_take_message(spec_packets(spec_message_encode(m)) + rest) == Some(
            (spec_message_encode(m), spec_packets(spec_message_encode(m)).len() as int),
        ),
        spec_message_decode(spec_message_encode(m)) == Some(m),
{
    crate::framing::lemma_frame_reassemble(spec_message_encode(m), rest);
    crate::codec::lemma_message_round_trip(m);
}

/// Receives one message from the endpoint.
///
/// Packets are read and accumulated until the first one strictly shorter
/// than the capacity; that terminator completes the message, which is then
/// decoded. A transport failure before the terminator yields
/// [`FrameError::TransportClosed`] — a half-received message is discarded,
/// never decoded. A complete accumulation that does not decode yields
/// [`FrameError::Cbor`].
pub fn receive_message_over<E: PacketEndpoint>(ep: &mut E) -> (r: Result<Message, FrameError>)
    requires
        old(ep).inv(),
    ensures
        final(ep).inv(),
        final(ep).sent() == old(ep).sent(),
        match spec_take_message(old(ep).incoming()) {
            Some((payload, used)) => final(ep).incoming() == old(ep).incoming().skip(used)
                && (match spec_message_decode(payload) {
                Some(v) => r matches Ok(m) && m@ == v && m.wf(),
                None => r == Err::<Message, FrameError>(FrameError::Cbor),
            }),
            None => r == Err::<Message, FrameError>(FrameError::TransportClosed)
                && final(ep).incoming() == Seq::<Seq<u8>>::empty(),
        },
{
    let psize = SERIAL_PACKET_SIZE as usize;
    let mut acc: Vec<u8> = Vec::new();
    let mut buf: Vec<u8> = vec![0u8; psize];
    let ghost orig = old(ep).incoming();
    let ghost mut used: int = 0;
    proof {
        assert(orig.skip(0) =~= orig);
        if spec_take_message(orig) is Some {
            let (payload, j) = spec_take_message(orig)->Some_0;
            assert(Seq::<u8>::empty() + payload =~= payload);
        }
    }
    loop
        invariant
            ep.inv(),
            buf@.len() == psize,
            psize == packet_capacity(),
            orig == old(ep).incoming(),
            ep.sent() == old(ep).sent(),
            0 <= used <= orig.len(),
            ep.incoming() == orig.skip(used),
            spec_take_message(orig) == join_prefix(acc@, used, spec_take_message(
                ep.incoming(),
            )),
        decreases ep.incoming().len(),
    {
        proof {
            ep.inv_packet_bound();
        }
        let ghost before = ep.incoming();
        match ep.receive_packet(&mut buf) {
            Err(_) => {
                proof {
                    assert(ep.incoming() =~= Seq::<Seq<u8>>::empty());
                }
                return Err(FrameError::TransportClosed);
            },
            Ok(n) => {
                let ghost head = before[0];
                let ghost acc_before = acc@;
                acc.extend_from_slice(vstd::slice::slice_subrange(buf.as_slice(), 0, n));
                proof {
                    assert(buf@.subrange(0, n as int) == head);
                    assert(acc@ == acc_before + head);
                }
                if n < psize {
                    proof {
                        assert(spec_take_message(before) == Some((head, 1int)));
                        used = used + 1;
                        assert(ep.incoming() =~= orig.skip(used));
                    }
                    return match Message::deserialize(acc.as_slice()) {
                        Ok(m) => Ok(m),
                        Err(_) => Err(FrameError::Cbor),
                    };
                }
                proof {
                    assert(head.len() == psize);
                    let rest = spec_take_message(ep.incoming());
                    assert(spec_take_message(before) == match rest {
                        None => None,
                        Some((payload, j)) => Some((head + payload, j + 1)),
                    });
                    if rest is Some {
                        let (payload, j) = rest->Some_0;
                        assert(acc_before + (head + payload) =~= (acc_before + head)
                            + payload);
                    }
                    used = used + 1;
                    assert(ep.incoming() =~= orig.skip(used));
                }
            },
        }
    }
}

/// One step of the device's serial service loop: receive one message and
/// echo it back.
///
/// A decodable message is echoed — its framed packets handed to the
/// endpoint until it refuses, as the device's loop tolerates a send refusal
/// — and reported `Ok`. A malformed message or a transport failure is the
/// corresponding receive error, with nothing sent.
pub fn echo_message_over<E: PacketEndpoint>(ep: &mut E) -> (r: Result<(), FrameError>)
    requires
        old(ep).inv(),
    ensures
        final(ep).inv(),
        match spec_take_message(old(ep).incoming()) {
            Some((payload, used)) => final(ep).incoming() == old(ep).incoming().skip(used)
                && (match spec_message_decode(payload) {
                Some(v) => r is Ok && (exists|k: int|
                    0 <= k <= spec_packets(spec_message_encode(v)).len()
                        && final(ep).sent() == old(ep).sent() + spec_packets(
                        spec_message_encode(v),
                    ).take(k)),
                None => r == Err::<(), FrameError>(FrameError::Cbor) && final(ep).sent()
                    == old(ep).sent(),
            }),
            None => r == Err::<(), FrameError>(FrameError::TransportClosed)
                && final(ep).sent() == old(ep).sent(),
        },
{
    let msg = match receive_message_over(ep) {
        Ok(m) => m,
        Err(e) => {
            return Err(e);
        },
    };
    match send_message_over(ep, &msg) {
        Ok(_) => {
            proof {
                let all = spec_packets(spec_message_encode(msg@));
                assert(all.take(all.len() as int) =~= all);
            }
        },
        Err(_) => {
        },
    }
    Ok(())
}

/// Sends whole messages over a transport.
///
/// `tx_wire()` is the run of packets the transport has accepted, oldest
/// first; `tx_inv()` the transport's configuration invariant. Every packet
/// endpoint is a message sender by framing each message over its packets.
pub trait MessageSender: Sized {
    /// The packets accepted for sending so far, oldest first.
    spec fn tx_wire(&self) -> Seq<Seq<u8>>;

    /// The transport's configuration invariant.
    spec fn tx_inv(&self) -> bool;

    /// Sends one message: its framed packets in order, then — only on
    /// success — the run of packets grows by exactly that framing.
    fn send_message(&mut self, msg: Message) -> (r: Result<(), MessageError>)
        requires
            old(self).tx_inv(),
            msg.wf(),
        ensures
            final(self).tx_inv(),
            match r {
                Ok(_) => final(self).tx_wire() == old(self).tx_wire() + spec_packets(
                    spec_message_encode(msg@),
                ),
                Err(e) => e == MessageError::USBWriteFailure && (exists|k: int|
                    0 <= k <= spec_packets(spec_message_encode(msg@)).len()
                        && final(self).tx_wire() == old(self).tx_wire()
                        + spec_packets(spec_message_encode(msg@)).take(k)),
            },
    ;
}

/// Receives whole messages from a transport.
///
/// `rx_wire()` is the run of packets still to be delivered, oldest first;
/// `rx_inv()` the transport's configuration invariant.
pub trait MessageReceiver: Sized {
    /// The packets still awaiting delivery, oldest first.
    spec fn rx_wire(&self) -> Seq<Seq<u8>>;

    /// The transport's configuration invariant.
    spec fn rx_inv(&self) -> bool;

    /// Receives one message, as [`receive_message_over`] does.
    fn receive_message(&mut self) -> (r: Result<Message, FrameError>)
        requires
            old(self).rx_inv(),
        ensures
            final(self).rx_inv(),
            match spec_take_message(old(self).rx_wire()) {
                Some((payload, used)) => final(self).rx_wire() == old(self).rx_wire().skip(used)
                    && (match spec_message_decode(payload) {
                    Some(v) => r matches Ok(m) && m@ == v && m.wf(),
                    None => r == Err::<Message, FrameError>(FrameError::Cbor),
                }),
                None => r == Err::<Message, FrameError>(FrameError::TransportClosed)
                    && final(self).rx_wire() == Seq::<Seq<u8>>::empty(),
            },
    ;
}

impl<E: PacketEndpoint> MessageSender for E {
    open spec fn tx_wire(&self) -> Seq<Seq<u8>> {
        self.sent()
    }

    open spec fn tx_inv(&self) -> bool {
        self.inv()
    }

    fn send_message(&mut self, msg: Message) -> (r: Result<(), MessageError>) {
        send_message_over(self, &msg)
    }
}

impl<E: PacketEndpoint> MessageReceiver for E {
    open spec fn rx_wire(&self) -> Seq<Seq<u8>> {
        self.incoming()
    }

    open spec fn rx_inv(&self) -> bool {
        self.inv()
    }

    fn receive_message(&mut self) -> (r: Result<Message, FrameError>) {
        receive_message_over(self)
    }
}

/// How many decoded messages the hand-off queue holds at most.
pub const MESSAGE_QUEUE_CAPACITY: usize = 5;

/// The bounded queue that hands decoded messages to the application task.
///
/// The full-queue policy is refuse-and-report: a push onto a full queue
/// hands the message back to the producer, which logs and drops it; the
/// queue never blocks.
#[derive(Debug)]
pub struct MessageQueue {
    items: Vec<Message>,
}

impl MessageQueue {
    /// The queued messages, oldest first.
    pub closed spec fn view(&self) -> Seq<Message> {
        self.items@
    }

    /// The capacity bound every queue maintains.
    pub closed spec fn wf(&self) -> bool {
        self.items@.len() <= MESSAGE_QUEUE_CAPACITY
    }

    /// An empty queue.
    pub fn new() -> (r: Self)
        ensures
            r.wf(),
            r@ == Seq::<Message>::empty(),
    {
        MessageQueue { items: Vec::new() }
    }

    /// How many messages are queued.
    pub fn len(&self) -> (n: usize)
        requires
            self.wf(),
        ensures
            n == self@.len(),
            n <= MESSAGE_QUEUE_CAPACITY,
    {
        self.items.len()
    }

    /// Enqueues one message; a full queue refuses it and hands it back.
    pub fn push(&mut self, msg: Message) -> (r: Option<Message>)
        requires
            old(self).wf(),
        ensures
            final(self).wf(),
            old(self)@.len() < MESSAGE_QUEUE_CAPACITY ==> r is None && final(self)@ == old(
                self,
            )@.push(msg),
            old(self)@.len() >= MESSAGE_QUEUE_CAPACITY ==> r == Some(msg) && final(self)@
                == old(self)@,
    {
        if self.items.len() < MESSAGE_QUEUE_CAPACITY {
            self.items.push(msg);
            None
        } else {
            Some(msg)
        }
    }

    /// Dequeues the oldest message, or nothing from an empty queue.
    pub fn pop(&mut self) -> (r: Option<Message>)
        requires
            old(self).wf(),
        ensures
            final(self).wf(),
            old(self)@.len() == 0 ==> r is None && final(self)@ == old(self)@,
            old(self)@.len() > 0 ==> r == Some(old(self)@[0]) && final(self)@ == old(
                self,
            )@.drop_first(),
    {
        if self.items.len() == 0 {
            None
        } else {
            Some(self.items.remove(0))
        }
    }
}

/// Reassembles one message from packets handed in one at a time.
///
/// This is the receive path for callers that do their own packet I/O: feed
/// each received packet's bytes; the first one strictly shorter than the
/// packet capacity completes the message, which [`MessageAccumulator::finish`]
/// then decodes. A caller whose transport fails before that point discards
/// the accumulator instead — a partial accumulation is never decoded.
pub struct MessageAccumulator {
    buf: Vec<u8>,
    complete: bool,
}

impl MessageAccumulator {
    /// The bytes accumulated so far.
    pub closed spec fn bytes(&self) -> Seq<u8> {
        self.buf@
    }

    /// Whether a terminator packet has arrived.
    pub closed spec fn is_complete(&self) -> bool {
        self.complete
    }

    /// Starts an empty accumulation.
    pub fn new() -> (r: Self)
        ensures
            r.bytes() == Seq::<u8>::empty(),
            !r.is_complete(),
    {
        MessageAccumulator { buf: Vec::new(), complete: false }
    }

    /// Feeds one received packet; the result tells whether the message is
    /// now complete.
    pub fn push_packet(&mut self, packet: &[u8]) -> (done: bool)
        requires
            !old(self).is_complete(),
            packet@.len() <= packet_capacity(),
        ensures
            final(self).bytes() == old(self).bytes() + packet@,
            done == (packet@.len() < packet_capacity()),
            final(self).is_complete() == done,
    {
        self.buf.extend_from_slice(packet);
        if packet.len() < SERIAL_PACKET_SIZE as usize {
            self.complete = true;
            true
        } else {
            false
        }
    }

    /// Decodes the completed accumulation.
    pub fn finish(&self) -> (r: Result<Message, FrameError>)
        requires
            self.is_complete(),
        ensures
            match spec_message_decode(self.bytes()) {
                Some(v) => r matches Ok(m) && m@ == v && m.wf(),
                None => r == Err::<Message, FrameError>(FrameError::Cbor),
            },
    {
        match Message::deserialize(self.buf.as_slice()) {
            Ok(m) => Ok(m),
            Err(_) => Err(FrameError::Cbor),
        }
    }
}

} // verus!
