//! Framing shapes, reassembly, and the transport-level message exchange.

use audio_controller_core::action::Action;
use audio_controller_core::endpoint::{LoopbackEndpoint, PacketEndpoint};
use audio_controller_core::errors::{FrameError, TransportError};
use audio_controller_core::framing::frame_payload;
use audio_controller_core::message::Message;
use audio_controller_core::messaging::{
    echo_message_over, frame_for_send, receive_message_over, send_message_over,
    MessageAccumulator, MessageQueue, MessageReceiver, MessageSender,
    MESSAGE_QUEUE_CAPACITY,
};
use audio_controller_core::SERIAL_PACKET_SIZE;

const P: usize = SERIAL_PACKET_SIZE as usize;

fn lens(packets: &Vec<Vec<u8>>) -> Vec<usize> {
    packets.iter().map(|p| p.len()).collect()
}

#[test]
fn frame_exact_multiple_appends_zero_length_terminator() {
    let payload = vec![7u8; 2 * P];
    let packets = frame_payload(&payload);
    assert_eq!(lens(&packets), vec![P, P, 0]);
    let rebuilt: Vec<u8> = packets.concat();
    assert_eq!(rebuilt, payload);
}

#[test]
fn frame_non_exact_has_no_extra_terminator() {
    let payload = vec![1u8; 2 * P + 2];
    let packets = frame_payload(&payload);
    assert_eq!(lens(&packets), vec![P, P, 2]);
}

#[test]
fn frame_empty_payload_is_one_zero_length_packet() {
    let packets = frame_payload(&[]);
    assert_eq!(lens(&packets), vec![0]);
}

#[test]
fn frame_short_payload_is_one_packet() {
    let packets = frame_payload(&[1, 2, 3]);
    assert_eq!(lens(&packets), vec![3]);
    assert_eq!(packets[0], vec![1, 2, 3]);
}

/// A 130-byte encoding with P = 64 goes out as packets of length 64, 64, 2,
/// and the receiver reconstructs the identical message value.
#[test]
fn scenario_130_byte_message() {
    // The key-code list is sized so the whole encoding is exactly 130 bytes.
    let msg = Message::BtnPress(Action::KbdHid(vec![b'k'; 120]));
    let encoded = msg.serialize().unwrap();
    assert_eq!(encoded.len(), 130);

    let packets = frame_for_send(&msg).unwrap();
    assert_eq!(lens(&packets), vec![64, 64, 2]);

    let mut ep = LoopbackEndpoint::new(packets, true);
    let received = receive_message_over(&mut ep).unwrap();
    assert_eq!(received, msg);
    assert_eq!(ep.pending(), 0);
}

#[test]
fn exact_multiple_message_round_trips_over_endpoint() {
    // Encodes to exactly 128 bytes: two full packets plus the terminator.
    let msg = Message::BtnPress(Action::KbdHid(vec![0x41; 118]));
    assert_eq!(msg.serialize().unwrap().len(), 2 * P);
    let packets = frame_for_send(&msg).unwrap();
    assert_eq!(lens(&packets), vec![P, P, 0]);

    let mut ep = LoopbackEndpoint::new(packets, true);
    assert_eq!(receive_message_over(&mut ep).unwrap(), msg);
}

#[test]
fn send_message_records_framed_packets() {
    let msg = Message::BtnPress(Action::Command(2));
    let mut ep = LoopbackEndpoint::new(Vec::new(), false);
    send_message_over(&mut ep, &msg).unwrap();
    let sent = ep.sent_packets();
    assert_eq!(lens(sent), vec![3]);
    assert_eq!(sent[0], msg.serialize().unwrap());
}

#[test]
fn send_via_trait_matches_frame_for_send() {
    let msg = Message::BtnPress(Action::KbdHid(vec![5; 200]));
    let framed = frame_for_send(&msg).unwrap();
    let mut ep = LoopbackEndpoint::new(Vec::new(), false);
    ep.send_message(msg).unwrap();
    assert_eq!(ep.sent_packets(), &framed);
}

#[test]
fn receive_empty_message_packet_is_malformed_not_empty() {
    // A lone zero-length packet terminates a zero-byte message; no message
    // encodes to zero bytes, so this is a decode error, not a silent success.
    let mut ep = LoopbackEndpoint::new(vec![Vec::new()], true);
    assert_eq!(receive_message_over(&mut ep), Err(FrameError::Cbor));
}

#[test]
fn partial_stream_reports_transport_closed() {
    // Two full packets and then the transport closes: no terminator ever
    // arrives, so the receiver reports the closed transport, not a message.
    let msg = Message::BtnPress(Action::KbdHid(vec![9; 150]));
    let mut packets = frame_for_send(&msg).unwrap();
    assert_eq!(lens(&packets), vec![64, 64, 32]);
    packets.pop();
    let mut ep = LoopbackEndpoint::new(packets, true);
    assert_eq!(receive_message_over(&mut ep), Err(FrameError::TransportClosed));
}

#[test]
fn disabled_endpoint_also_reports_transport_closed() {
    let mut ep = LoopbackEndpoint::new(Vec::new(), false);
    assert_eq!(ep.receive_message(), Err(FrameError::TransportClosed));
}

#[test]
fn corrupt_complete_stream_reports_cbor() {
    let mut ep = LoopbackEndpoint::new(vec![vec![99, 99, 99]], true);
    assert_eq!(receive_message_over(&mut ep), Err(FrameError::Cbor));
}

#[test]
fn accumulator_reassembles_multi_packet_message() {
    let msg = Message::BtnPress(Action::KbdHid(vec![7; 100]));
    let packets = frame_for_send(&msg).unwrap();
    let mut acc = MessageAccumulator::new();
    let mut done = false;
    for packet in &packets {
        assert!(!done, "bytes arrived after the terminator packet");
        done = acc.push_packet(packet);
    }
    assert!(done);
    assert_eq!(acc.finish().unwrap(), msg);
}

#[test]
fn accumulator_flags_completion_only_on_short_packet() {
    let mut acc = MessageAccumulator::new();
    assert!(!acc.push_packet(&[0u8; P]));
    assert!(acc.push_packet(&[0u8; 10]));
}

#[test]
fn loopback_receive_packet_semantics() {
    let mut ep = LoopbackEndpoint::new(vec![vec![1, 2, 3], Vec::new()], false);
    let mut buf = vec![0u8; P];
    assert_eq!(ep.receive_packet(&mut buf), Ok(3));
    assert_eq!(&buf[..3], &[1, 2, 3]);
    assert_eq!(buf.len(), P);
    assert_eq!(ep.receive_packet(&mut buf), Ok(0));
    assert_eq!(ep.receive_packet(&mut buf), Err(TransportError::Disabled));
}

#[test]
fn loopback_closed_script_reports_closed() {
    let mut ep = LoopbackEndpoint::new(Vec::new(), true);
    let mut buf = vec![0u8; P];
    assert_eq!(ep.receive_packet(&mut buf), Err(TransportError::Closed));
}

#[test]
fn receive_packet_overflow_on_small_buffer() {
    let mut ep = LoopbackEndpoint::new(vec![vec![1, 2, 3, 4, 5]], false);
    let mut buf = vec![0u8; 3];
    assert_eq!(ep.receive_packet(&mut buf), Err(TransportError::Overflow));
    assert_eq!(TransportError::Overflow.is_fatal(), true);
    assert_eq!(TransportError::Closed.is_fatal(), false);
    assert_eq!(TransportError::Disabled.is_fatal(), false);
    // The packet was not consumed: a proper buffer still receives it.
    let mut big = vec![0u8; P];
    assert_eq!(ep.receive_packet(&mut big), Ok(5));
}

#[test]
fn send_over_accepting_endpoint_succeeds() {
    let mut ep = LoopbackEndpoint::new(Vec::new(), false);
    assert_eq!(send_message_over(&mut ep, &Message::BtnPress(Action::Command(0))), Ok(()));
}

#[test]
fn echo_step_receives_and_sends_back() {
    let msg = Message::BtnPress(Action::KbdHid(vec![b'q'; 70]));
    let framed = frame_for_send(&msg).unwrap();
    let mut ep = LoopbackEndpoint::new(framed.clone(), true);
    echo_message_over(&mut ep).unwrap();
    assert_eq!(ep.pending(), 0);
    assert_eq!(ep.sent_packets(), &framed);
}

#[test]
fn echo_step_propagates_receive_errors() {
    let mut ep = LoopbackEndpoint::new(vec![vec![0xAB, 0xCD]], true);
    assert_eq!(echo_message_over(&mut ep), Err(FrameError::Cbor));
    assert!(ep.sent_packets().is_empty());

    let mut closed = LoopbackEndpoint::new(vec![vec![0u8; P]], true);
    assert_eq!(echo_message_over(&mut closed), Err(FrameError::TransportClosed));
}

#[test]
fn message_queue_is_fifo_and_refuses_overflow() {
    let mut queue = MessageQueue::new();
    for i in 0..MESSAGE_QUEUE_CAPACITY {
        let refused = queue.push(Message::BtnPress(Action::Command(i as u8)));
        assert!(refused.is_none());
    }
    assert_eq!(queue.len(), MESSAGE_QUEUE_CAPACITY);
    // A full queue hands the message back instead of blocking.
    let refused = queue.push(Message::BtnPress(Action::Command(9)));
    assert_eq!(refused, Some(Message::BtnPress(Action::Command(9))));
    assert_eq!(queue.pop(), Some(Message::BtnPress(Action::Command(0))));
    assert_eq!(queue.pop(), Some(Message::BtnPress(Action::Command(1))));
    assert_eq!(queue.len(), MESSAGE_QUEUE_CAPACITY - 2);
}

#[test]
fn message_queue_pop_of_empty_is_none() {
    let mut queue = MessageQueue::new();
    assert_eq!(queue.pop(), None);
}
