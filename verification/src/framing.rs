//! The packet framer: one logical message's byte buffer is carried as a run
//! of fixed-capacity packets, and the first packet strictly shorter than the
//! capacity terminates the message.
//!
//! [`spec_packets`] gives the exact packet run for any payload; a payload
//! whose length is an exact multiple of the capacity ends with one explicit
//! zero-length packet, and an empty payload is one zero-length packet.
//! [`spec_take_message`] gives the exact result of reassembling a packet
//! run; [`lemma_frame_reassemble`] proves the two are inverse.

use crate::SERIAL_PACKET_SIZE;
use vstd::prelude::*;

verus! {

/// The packet capacity as a spec-level integer.
pub open spec fn packet_capacity() -> int {
    SERIAL_PACKET_SIZE as int
}

/// The packet run that carries `payload`: full packets while at least the
/// capacity remains, then one strictly short (possibly empty) packet.
pub open spec fn spec_packets(payload: Seq<u8>) -> Seq<Seq<u8>>
    decreases payload.len(),
{
    if payload.len() < packet_capacity() {
        seq![payload]
    } else {
        seq![payload.take(packet_capacity())] + spec_packets(payload.skip(packet_capacity()))
    }
}

/// Reassembles one message from the front of a packet run: bytes accumulate
/// until the first packet strictly shorter than the capacity, which
/// terminates the message. Yields the payload and how many packets it used;
/// yields nothing when no terminator is present.
pub open spec fn spec_take_message(packets: Seq<Seq<u8>>) -> Option<(Seq<u8>, int)>
    decreases packets.len(),
{
    if packets.len() == 0 {
        None
    } else if packets[0].len() < packet_capacity() {
        Some((packets[0], 1))
    } else {
        match spec_take_message(packets.drop_first()) {
            None => None,
            Some((rest, k)) => Some((packets[0] + rest, k + 1)),
        }
    }
}

/// Law: the shape of a framed payload. A payload of length `k * P + r` with
/// `0 <= r < P` becomes exactly `k + 1` packets: `k` full ones holding the
/// payload in order, then one of length `r` — the terminator. In particular
/// an exact multiple of `P` ends with one zero-length packet, a shorter
/// final chunk is itself the terminator and no extra packet follows it, and
/// an empty payload is one zero-length packet.
pub proof fn lemma_packets_shape(payload: Seq<u8>)
    ensures
        spec_packets(payload).len() == payload.len() as int / packet_capacity() + 1,
        forall|i: int| 0 <= i < payload.len() as int / packet_capacity()
            ==> #[trigger] spec_packets(payload)[i] == payload.subrange(
            packet_capacity() * i,
            packet_capacity() * i + packet_capacity(),
        ),
        spec_packets(payload)[payload.len() as int / packet_capacity()] == payload.skip(
            packet_capacity() * (payload.len() as int / packet_capacity()),
        ),
        spec_packets(payload).last().len() == payload.len() as int % packet_capacity(),
    decreases payload.len(),
{
    let p = packet_capacity();
    let n = payload.len() as int;
    if n < p {
        assert(n / p == 0) by (nonlinear_arith)
            requires 0 <= n < p;
        assert(n % p == n) by (nonlinear_arith)
            requires 0 <= n < p;
        assert(payload.skip(0) =~= payload);
    } else {
        let tail = payload.skip(p);
        lemma_packets_shape(tail);
        assert(tail.len() == n - p);
        assert((n - p) / p == n / p - 1) by (nonlinear_arith)
            requires p == 64, n >= p;
        assert((n - p) % p == n % p) by (nonlinear_arith)
            requires p == 64, n >= p;
        let k = n / p;
        assert(k >= 1) by (nonlinear_arith)
            requires p == 64, n >= p, k == n / p;
        assert forall|i: int| 0 <= i < k implies #[trigger] spec_packets(payload)[i]
            == payload.subrange(p * i, p * i + p) by {
            if i == 0 {
                assert(payload.take(p) =~= payload.subrange(0, p));
            } else {
                assert(spec_packets(payload)[i] == spec_packets(tail)[i - 1]);
                assert(spec_packets(tail)[i - 1] == tail.subrange(p * (i - 1), p * (i - 1)
                    + p));
                assert(tail.subrange(p * (i - 1), p * (i - 1) + p) =~= payload.subrange(
                    p * i,
                    p * i + p,
                ));
            }
        }
        assert(spec_packets(payload)[k] == spec_packets(tail)[k - 1]);
        assert(tail.skip(p * (k - 1)) =~= payload.skip(p * k));
    }
}

/// Every framed packet fits the packet capacity.
pub proof fn lemma_packets_bounded(payload: Seq<u8>)
    ensures
        forall|i: int| 0 <= i < spec_packets(payload).len()
            ==> #[trigger] spec_packets(payload)[i].len() <= packet_capacity(),
    decreases payload.len(),
{
    let p = packet_capacity();
    if payload.len() >= p {
        lemma_packets_bounded(payload.skip(p));
        assert forall|i: int| 0 <= i < spec_packets(payload).len() implies #[trigger]
            spec_packets(payload)[i].len() <= p by {
            if i > 0 {
                assert(spec_packets(payload)[i] == spec_packets(payload.skip(p))[i - 1]);
            }
        }
    }
}

/// Law: reassembly inverts framing. Feeding the framed packets of a payload
/// (with any further packets after them) to the reassembler yields exactly
/// that payload and consumes exactly the framed packets.
pub proof fn lemma_frame_reassemble(payload: Seq<u8>, rest: Seq<Seq<u8>>)
    ensures
        spec_take_message(spec_packets(payload) + rest) == Some(
            (payload, spec_packets(payload).len() as int),
        ),
    decreases payload.len(),
{
    let p = packet_capacity();
    let run = spec_packets(payload) + rest;
    if payload.len() < p {
        assert(run[0] == payload);
    } else {
        assert(run[0] == payload.take(p));
        assert(run[0].len() == p);
        assert(run.drop_first() =~= spec_packets(payload.skip(p)) + rest);
        lemma_frame_reassemble(payload.skip(p), rest);
        assert(payload.take(p) + payload.skip(p) =~= payload);
    }
}

/// Law: a run of full packets alone never completes a message: without a
/// terminator packet the reassembler yields nothing.
pub proof fn lemma_unterminated_stream(packets: Seq<Seq<u8>>)
    requires
        forall|i: int| 0 <= i < packets.len() ==> #[trigger] packets[i].len()
            >= packet_capacity(),
    ensures
        spec_take_message(packets) is None,
    decreases packets.len(),
{
    if packets.len() > 0 {
        assert(packets[0].len() >= packet_capacity());
        lemma_unterminated_stream(packets.drop_first());
    }
}

/// Splits a payload into its transport packets.
///
/// Produces full packets while at least `SERIAL_PACKET_SIZE` bytes remain,
/// then one strictly short packet: the final chunk when the length is not an
/// exact multiple, a zero-length terminator when it is, and a single
/// zero-length packet for an empty payload.
pub fn frame_payload(payload: &[u8]) -> (r: Vec<Vec<u8>>)
    ensures
        r.deep_view() == spec_packets(payload@),
{
    let psize = SERIAL_PACKET_SIZE as usize;
    let mut packets: Vec<Vec<u8>> = Vec::new();
    let mut i: usize = 0;
    proof {
        assert(packets.deep_view() + spec_packets(payload@.skip(0)) =~= spec_packets(
            payload@.skip(0),
        ));
        assert(payload@.skip(0) =~= payload@);
    }
    while payload.len() - i >= psize
        invariant
            psize == packet_capacity(),
            i <= payload@.len(),
            spec_packets(payload@) == packets.deep_view() + spec_packets(
                payload@.skip(i as int),
            ),
        decreases payload@.len() - i,
    {
        let chunk = vstd::slice::slice_to_vec(
            vstd::slice::slice_subrange(payload, i, i + psize),
        );
        let ghost before = packets.deep_view();
        packets.push(chunk);
        proof {
            let tail = payload@.skip(i as int);
            assert(tail.take(packet_capacity()) =~= chunk@);
            assert(tail.skip(packet_capacity()) =~= payload@.skip(i + psize));
            assert(packets.deep_view() =~~= before.push(chunk@));
            assert(before + (seq![chunk@] + spec_packets(payload@.skip(i + psize)))
                =~= before.push(chunk@) + spec_packets(payload@.skip(i + psize)));
        }
        i = i + psize;
    }
    let tail = vstd::slice::slice_to_vec(
        vstd::slice::slice_subrange(payload, i, payload.len()),
    );
    let ghost before = packets.deep_view();
    packets.push(tail);
    proof {
        assert(payload@.skip(i as int) =~= tail@);
        assert(spec_packets(tail@) =~= seq![tail@]);
        assert(packets.deep_view() =~~= before.push(tail@));
        assert(before + seq![tail@] =~= before.push(tail@));
    }
    packets
}

} // verus!
