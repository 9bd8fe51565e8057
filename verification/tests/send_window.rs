use catnip_tcp::fail::Fail;
use catnip_tcp::rto::RTO_MIN_MS;
use catnip_tcp::sender::{TcpSendWindow, FALLBACK_MSS};

fn bytes(n: usize) -> Vec<u8> {
    (0..n).map(|i| (i % 251) as u8).collect()
}

#[test]
fn peer_window_caps_the_payload_below_mss() {
    let mut s = TcpSendWindow::new(0, 100);
    s.push(bytes(200));
    s.set_remote_receive_window_size(50);
    let p = s.get_next_transmittable_payload(None, 0).unwrap();
    assert_eq!(p.len(), 50);
    assert_eq!(p, bytes(200)[..50].to_vec());
}

#[test]
fn transmit_round_trip_is_exact_and_ordered() {
    let mut s = TcpSendWindow::new(0, 100);
    let data = bytes(250);
    s.push(data.clone());
    s.set_remote_receive_window_size(1000);
    let mut sent: Vec<u8> = Vec::new();
    while let Some(p) = s.get_next_transmittable_payload(None, 0) {
        sent.extend_from_slice(&p);
    }
    // The concatenation is the pushed bytes, in order, no gaps, no
    // duplicates, carved as 100 + 100 + 50.
    assert_eq!(sent, data);
    assert_eq!(s.unsent.len(), 0);
    assert_eq!(s.inflight.len(), 3);
    assert_eq!(s.bytes_in_flight, 250);
}

#[test]
fn requested_cap_and_empty_buffer_bound_the_payload() {
    let mut s = TcpSendWindow::new(0, 100);
    s.push(bytes(80));
    s.set_remote_receive_window_size(1000);
    let p = s.get_next_transmittable_payload(Some(30), 0).unwrap();
    assert_eq!(p.len(), 30);
    let p2 = s.get_next_transmittable_payload(None, 0).unwrap();
    assert_eq!(p2.len(), 50);
    assert_eq!(s.get_next_transmittable_payload(None, 0), None);
}

#[test]
fn zero_peer_window_is_the_persist_condition() {
    let mut s = TcpSendWindow::new(0, 100);
    s.push(bytes(10));
    assert_eq!(s.get_next_transmittable_payload(None, 0), None);
}

#[test]
fn retransmission_after_timeout_and_peer_unreachable() {
    let mut s = TcpSendWindow::new(0, 100);
    s.set_remote_receive_window_size(1000);
    s.push(bytes(100));
    // A small sample pins the timeout at the 200 ms floor.
    s.rto.record_sample(10);
    assert_eq!(s.get_rto(), RTO_MIN_MS);

    let p = s.get_next_transmittable_payload(None, 0).unwrap();
    assert_eq!(p.len(), 100);

    // Not yet due one millisecond before the deadline.
    assert_eq!(s.get_retransmissions(199, 5).unwrap().len(), 0);

    // Due just past the deadline: returned with its counter at 1.
    let due = s.get_retransmissions(201, 5).unwrap();
    assert_eq!(due.len(), 1);
    assert_eq!(due[0].seq_no, 0);
    assert_eq!(due[0].payload, bytes(100));
    assert_eq!(s.inflight[0].retries, 1);
    assert_eq!(s.inflight[0].send_time, 201);

    // Four more misses bring the counter to the budget of five.
    let mut now = 201;
    for _ in 0..4 {
        now += 201;
        assert_eq!(s.get_retransmissions(now, 5).unwrap().len(), 1);
    }
    assert_eq!(s.inflight[0].retries, 5);

    // The sixth miss exhausts the budget: the peer is unreachable.
    now += 201;
    assert_eq!(s.get_retransmissions(now, 5), Err(Fail::PeerUnreachable));
}

#[test]
fn acknowledgement_retires_whole_segments() {
    let mut s = TcpSendWindow::new(0, 100);
    s.set_remote_receive_window_size(1000);
    s.push(bytes(200));
    s.get_next_transmittable_payload(None, 0).unwrap();
    s.get_next_transmittable_payload(None, 0).unwrap();
    assert_eq!(s.bytes_in_flight, 200);

    assert_eq!(s.acknowledge(100, 50), Ok(()));
    assert_eq!(s.send_unacked, 100);
    assert_eq!(s.bytes_in_flight, 100);
    assert_eq!(s.inflight.len(), 1);
}

#[test]
fn acknowledgement_splits_a_partly_covered_segment() {
    let mut s = TcpSendWindow::new(0, 100);
    s.set_remote_receive_window_size(1000);
    s.push(bytes(100));
    s.get_next_transmittable_payload(None, 0).unwrap();

    assert_eq!(s.acknowledge(40, 10), Ok(()));
    assert_eq!(s.send_unacked, 40);
    assert_eq!(s.bytes_in_flight, 60);
    assert_eq!(s.inflight.len(), 1);
    assert_eq!(s.inflight[0].seq_no, 40);
    assert_eq!(s.inflight[0].bytes, bytes(100)[40..].to_vec());
}

#[test]
fn duplicate_and_overreaching_acks_are_refused() {
    let mut s = TcpSendWindow::new(0, 100);
    s.set_remote_receive_window_size(1000);
    s.push(bytes(50));
    s.get_next_transmittable_payload(None, 0).unwrap();

    // An acknowledgement of nothing new is a duplicate.
    assert_eq!(s.acknowledge(0, 5), Err(Fail::Ignored));
    // An acknowledgement past what was ever sent is a protocol violation.
    assert_eq!(s.acknowledge(51, 5), Err(Fail::ProtocolViolation));
    // The failures left the window untouched.
    assert_eq!(s.send_unacked, 0);
    assert_eq!(s.bytes_in_flight, 50);
}

#[test]
fn acknowledged_round_trips_feed_the_estimator() {
    let mut s = TcpSendWindow::new(0, 100);
    s.set_remote_receive_window_size(1000);
    s.push(bytes(100));
    s.get_next_transmittable_payload(None, 1000).unwrap();
    assert_eq!(s.acknowledge(100, 1400), Ok(()));
    // The 400 ms round trip seeded the estimator.
    assert_eq!(s.rto.srtt, 400);
    assert_eq!(s.get_rto(), 1200);
}

#[test]
fn every_fully_acknowledged_range_feeds_the_estimator() {
    let mut s = TcpSendWindow::new(0, 100);
    s.set_remote_receive_window_size(1000);
    s.push(bytes(200));
    s.get_next_transmittable_payload(None, 1000).unwrap();
    s.get_next_transmittable_payload(None, 1100).unwrap();
    // One acknowledgement retires both ranges: samples 400 then 300.
    assert_eq!(s.acknowledge(200, 1400), Ok(()));
    // After 400: srtt = 400, rttvar = 200. After 300:
    // rttvar = (3 * 200 + 100) / 4 = 175, srtt = (7 * 400 + 300) / 8 = 387.
    assert_eq!(s.rto.srtt, 387);
    assert_eq!(s.rto.rttvar, 175);
    assert_eq!(s.get_rto(), 387 + 4 * 175);
}

#[test]
fn retransmitted_ranges_contribute_no_sample() {
    let mut s = TcpSendWindow::new(0, 100);
    s.set_remote_receive_window_size(1000);
    s.push(bytes(100));
    s.rto.record_sample(10);
    assert_eq!(s.get_rto(), RTO_MIN_MS);
    s.get_next_transmittable_payload(None, 0).unwrap();
    // The range goes out again before being acknowledged.
    assert_eq!(s.get_retransmissions(201, 5).unwrap().len(), 1);
    // Its acknowledgement is ambiguous, so the estimator ignores it.
    assert_eq!(s.acknowledge(100, 500), Ok(()));
    assert_eq!(s.rto.srtt, 10);
    assert_eq!(s.get_rto(), RTO_MIN_MS);
}

#[test]
fn mss_negotiation_takes_the_smaller_value() {
    let mut s = TcpSendWindow::new(0, 1460);
    assert_eq!(s.negotiate_mss(Some(1200)), Ok(()));
    assert_eq!(s.get_mss(), 1200);

    let mut s2 = TcpSendWindow::new(0, 1460);
    assert_eq!(s2.negotiate_mss(Some(9000)), Ok(()));
    assert_eq!(s2.get_mss(), 1460);

    let mut s3 = TcpSendWindow::new(0, 1460);
    assert_eq!(s3.negotiate_mss(None), Ok(()));
    assert_eq!(s3.get_mss(), FALLBACK_MSS);
}

#[test]
fn mss_negotiation_refuses_zero() {
    let mut s = TcpSendWindow::new(0, 1460);
    assert_eq!(s.negotiate_mss(Some(0)), Err(Fail::NegotiationFailure));
    assert_eq!(s.get_mss(), 1460);
}

#[test]
fn sequence_numbers_wrap_through_the_send_path() {
    let mut s = TcpSendWindow::new(0xFFFF_FFF0, 100);
    s.set_remote_receive_window_size(1000);
    s.push(bytes(32));
    let p = s.get_next_transmittable_payload(None, 0).unwrap();
    assert_eq!(p.len(), 32);
    // 0xFFFF_FFF0 + 32 wraps to 0x10.
    assert_eq!(s.get_last_seq_num(), 0x10);
    assert_eq!(s.acknowledge(0x10, 1), Ok(()));
    assert_eq!(s.send_unacked, 0x10);
    assert_eq!(s.bytes_in_flight, 0);
}
