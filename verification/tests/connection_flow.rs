use catnip_tcp::connection::{
    Event, Ipv4Endpoint, TcpConnection, TcpConnectionHandle, TcpConnectionId, TcpOptions,
    TcpSegment,
};
use catnip_tcp::fail::Fail;
use catnip_tcp::rto::RTO_INITIAL_MS;

fn test_cxnid() -> TcpConnectionId {
    TcpConnectionId {
        local: Ipv4Endpoint { addr: 0x0A00_0001, port: 80 },
        remote: Ipv4Endpoint { addr: 0x0A00_0002, port: 43210 },
    }
}

fn test_connection(window: u32, mss: usize) -> TcpConnection {
    TcpConnection::new(
        test_cxnid(),
        TcpConnectionHandle::new(7),
        1000,
        window,
        TcpOptions { advertised_mss: mss, retries2: 5 },
    )
}

fn inbound(seq_num: u32, payload: Vec<u8>, window_size: u32) -> TcpSegment {
    TcpSegment { cxnid: None, seq_num, ack_num: None, window_size, payload }
}

#[test]
fn handles_are_nonzero_tokens() {
    let h = TcpConnectionHandle::new(7);
    assert_eq!(h.get(), 7);
    assert_eq!(h, TcpConnectionHandle::new(7));
}

#[test]
fn construction_exposes_identity_and_defaults() {
    let c = test_connection(1000, 1460);
    assert_eq!(*c.get_cxnid(), test_cxnid());
    assert_eq!(c.get_handle().get(), 7);
    assert_eq!(c.get_mss(), 1460);
    assert_eq!(c.get_last_seq_num(), 1000);
    assert_eq!(c.get_local_receive_window_size(), 1000);
    assert_eq!(c.get_rto(), RTO_INITIAL_MS);
    assert_eq!(c.try_get_ack_num(), None);
}

#[test]
fn inbound_data_raises_an_event_and_updates_the_peer_window() {
    let mut c = test_connection(1000, 1460);
    c.set_remote_isn(0);
    let out = c.receive(inbound(0, vec![3u8; 600], 512), 100).unwrap();
    // The local window is 400, not zero: nothing to send back at once.
    assert!(out.is_none());
    assert_eq!(c.send_window.remote_window, 512);
    assert_eq!(c.try_get_ack_num(), Some(600));
    assert_eq!(c.get_local_receive_window_size(), 400);
    // The window turned from empty to non-empty: one notification.
    assert_eq!(c.pop_event(), Some(Event::TcpBytesAvailable(c.get_handle())));
    assert_eq!(c.pop_event(), None);
    // The application reads the bytes back.
    assert_eq!(c.read(), Ok(Some(vec![3u8; 600])));
    assert_eq!(c.get_local_receive_window_size(), 1000);
}

#[test]
fn a_filled_window_synthesizes_a_zero_window_advertisement() {
    let mut c = test_connection(1000, 1460);
    let out = c.receive(inbound(0, vec![1u8; 1000], 512), 100).unwrap();
    let z = out.expect("window reached zero");
    assert_eq!(z.window_size, 0);
    assert_eq!(z.payload.len(), 0);
    assert_eq!(z.cxnid, Some(test_cxnid()));
    assert_eq!(z.ack_num, Some(1000));
}

#[test]
fn out_of_order_inbound_segments_are_absorbed() {
    let mut c = test_connection(1000, 1460);
    // The recoverable condition never escapes the connection layer.
    assert_eq!(c.receive(inbound(555, vec![1u8; 10], 512), 100), Ok(None));
    // The peer-window update from the segment still applies.
    assert_eq!(c.send_window.remote_window, 512);
    // Nothing was buffered and no event was raised.
    assert_eq!(c.read(), Ok(None));
    assert_eq!(c.pop_event(), None);
}

#[test]
fn over_capacity_inbound_segments_are_absorbed() {
    let mut c = test_connection(1000, 1460);
    c.receive(inbound(0, vec![1u8; 600], 512), 100).unwrap();
    // 500 more bytes would overflow the 1000-byte window: dropped silently.
    assert_eq!(c.receive(inbound(600, vec![2u8; 500], 512), 101), Ok(None));
    assert_eq!(c.get_local_receive_window_size(), 400);
    assert_eq!(c.read(), Ok(Some(vec![1u8; 600])));
    assert_eq!(c.read(), Ok(None));
}

#[test]
fn a_closed_receiver_is_a_propagated_failure() {
    let mut c = test_connection(1000, 1460);
    c.receive_window.close();
    assert_eq!(c.receive(inbound(0, vec![1u8; 10], 512), 100), Err(Fail::Closed));
    assert_eq!(c.read(), Err(Fail::Closed));
}

#[test]
fn outbound_bytes_are_segmented_and_stamped() {
    let mut c = test_connection(1000, 100);
    c.set_remote_receive_window_size(1000);
    c.write((0..120u8).collect());
    let s1 = c.get_next_transmittable_segment(None, 10).expect("first segment");
    assert_eq!(s1.payload, (0..100u8).collect::<Vec<u8>>());
    assert_eq!(s1.seq_num, 1000);
    assert_eq!(s1.cxnid, Some(test_cxnid()));
    let s2 = c.get_next_transmittable_segment(None, 11).expect("second segment");
    assert_eq!(s2.payload, (100..120u8).collect::<Vec<u8>>());
    assert_eq!(s2.seq_num, 1100);
    assert_eq!(c.get_next_transmittable_segment(None, 12), None);
    assert_eq!(c.get_last_seq_num(), 1120);
}

#[test]
fn retransmissions_come_back_as_stamped_segments() {
    let mut c = test_connection(1000, 100);
    c.set_remote_receive_window_size(1000);
    c.write(vec![9u8; 100]);
    c.get_next_transmittable_segment(None, 0).unwrap();
    // Nothing due before the initial timeout elapses.
    assert_eq!(c.get_retransmissions(RTO_INITIAL_MS - 1).unwrap().len(), 0);
    let due = c.get_retransmissions(RTO_INITIAL_MS + 1).unwrap();
    assert_eq!(due.len(), 1);
    assert_eq!(due[0].seq_num, 1000);
    assert_eq!(due[0].payload, vec![9u8; 100]);
    assert_eq!(due[0].cxnid, Some(test_cxnid()));
    assert_eq!(c.send_window.inflight[0].retries, 1);
}

#[test]
fn acknowledgements_flow_through_the_connection() {
    let mut c = test_connection(1000, 100);
    c.set_remote_receive_window_size(1000);
    c.write(vec![5u8; 100]);
    c.get_next_transmittable_segment(None, 0).unwrap();
    assert_eq!(c.acknowledge(1100, 50), Ok(()));
    assert_eq!(c.send_window.send_unacked, 1100);
    // A duplicate acknowledgement is recoverable and absorbed here,
    // leaving the window untouched; unsent bytes are a fatal violation.
    assert_eq!(c.acknowledge(1100, 60), Ok(()));
    assert_eq!(c.send_window.send_unacked, 1100);
    assert_eq!(c.acknowledge(1200, 70), Err(Fail::ProtocolViolation));
}

#[test]
fn control_sequence_numbers_are_consumed_one_at_a_time() {
    let mut c = test_connection(1000, 1460);
    c.incr_seq_num();
    assert_eq!(c.get_last_seq_num(), 1001);
    assert_eq!(c.send_window.send_unacked, 1001);
}

#[test]
fn mss_negotiation_through_the_connection() {
    let mut c = test_connection(1000, 1460);
    assert_eq!(c.negotiate_mss(Some(536)), Ok(()));
    assert_eq!(c.get_mss(), 536);
    assert_eq!(c.negotiate_mss(Some(0)), Err(Fail::NegotiationFailure));
    assert_eq!(c.get_mss(), 536);
}

#[test]
fn the_inbound_queue_is_served_through_accessors() {
    let mut c = test_connection(1000, 1460);
    assert_eq!(c.get_input_queue().len(), 0);
    c.enqueue_input(inbound(0, vec![1u8; 4], 100));
    c.enqueue_input(inbound(4, vec![2u8; 4], 100));
    assert_eq!(c.get_input_queue().len(), 2);
    let first = c.dequeue_input().expect("queued segment");
    assert_eq!(first.seq_num, 0);
    let second = c.dequeue_input().expect("queued segment");
    assert_eq!(second.seq_num, 4);
    assert_eq!(c.dequeue_input().is_none(), true);
}

#[test]
fn delayed_ack_deadline_spans_inbound_segments() {
    let mut c = test_connection(1000, 1460);
    c.receive(inbound(0, vec![1u8; 10], 512), 100).unwrap();
    c.receive(inbound(10, vec![1u8; 10], 512), 150).unwrap();
    assert_eq!(c.receive_window.ack_deadline, Some(600));
    // Sending the acknowledgement clears the deadline.
    let ack = c.try_get_ack_num().unwrap();
    c.receive_window.ack_sent(ack);
    assert_eq!(c.receive_window.ack_deadline, None);
}
