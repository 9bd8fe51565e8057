use catnip_tcp::fail::Fail;
use catnip_tcp::receiver::{Receiver, DELAYED_ACK_MS};

#[test]
fn admission_and_capacity_scenario() {
    let mut r = Receiver::new(1000);

    // 600 in-order bytes are admitted and narrow the window.
    assert_eq!(r.receive_segment(0, vec![7u8; 600], 0), Ok(()));
    assert_eq!(r.window_size(), 400);

    // The same segment again is out of order: recv_seq_no moved to 600.
    assert_eq!(r.receive_segment(0, vec![7u8; 600], 1), Err(Fail::Ignored));

    // 500 more bytes would overflow the 1000-byte capacity.
    assert_eq!(r.receive_segment(600, vec![8u8; 500], 2), Err(Fail::Ignored));

    // Delivery returns the first 600 bytes and restores the window.
    assert_eq!(r.recv(), Ok(Some(vec![7u8; 600])));
    assert_eq!(r.window_size(), 1000);
}

#[test]
fn delayed_acks_coalesce_onto_one_deadline() {
    let mut r = Receiver::new(1000);
    assert_eq!(r.receive_segment(0, vec![1u8; 10], 100), Ok(()));
    assert_eq!(r.ack_deadline, Some(100 + DELAYED_ACK_MS));
    // A second segment soon after, with no intervening ack_sent, does not
    // schedule a second deadline.
    assert_eq!(r.receive_segment(10, vec![2u8; 10], 140), Ok(()));
    assert_eq!(r.ack_deadline, Some(100 + DELAYED_ACK_MS));
}

#[test]
fn out_of_order_rejection_mutates_nothing() {
    let mut r = Receiver::new(1000);
    r.receive_segment(0, vec![1u8; 100], 0).unwrap();
    let base = r.base_seq_no;
    let ack = r.ack_seq_no;
    let recv = r.recv_seq_no;
    let deadline = r.ack_deadline;
    let chunks = r.recv_queue.len();

    assert_eq!(r.receive_segment(999, vec![3u8; 5], 50), Err(Fail::Ignored));

    assert_eq!(r.base_seq_no, base);
    assert_eq!(r.ack_seq_no, ack);
    assert_eq!(r.recv_seq_no, recv);
    assert_eq!(r.ack_deadline, deadline);
    assert_eq!(r.recv_queue.len(), chunks);
}

#[test]
fn window_tracks_receipt_and_delivery() {
    let mut r = Receiver::new(500);
    assert_eq!(r.window_size(), 500);
    r.receive_segment(0, vec![9u8; 123], 0).unwrap();
    assert_eq!(r.window_size(), 500 - 123);
    assert_eq!(r.recv(), Ok(Some(vec![9u8; 123])));
    assert_eq!(r.window_size(), 500);
}

#[test]
fn acknowledgement_cycle() {
    let mut r = Receiver::new(1000);
    assert_eq!(r.current_ack(), None);
    r.receive_segment(0, vec![4u8; 600], 0).unwrap();
    assert_eq!(r.current_ack(), Some(600));
    r.ack_sent(600);
    assert_eq!(r.current_ack(), None);
    assert_eq!(r.ack_deadline, None);
    assert_eq!(r.ack_seq_no, 600);
}

#[test]
fn sequence_order_holds_after_receipt_and_ack() {
    let mut r = Receiver::new(1000);
    r.receive_segment(0, vec![1u8; 300], 0).unwrap();
    r.ack_sent(300);
    r.recv().unwrap();
    // base_seq_no <= ack_seq_no <= recv_seq_no, all equal here.
    assert_eq!(r.base_seq_no, 300);
    assert_eq!(r.ack_seq_no, 300);
    assert_eq!(r.recv_seq_no, 300);
}

#[test]
fn empty_window_delivers_nothing() {
    let mut r = Receiver::new(1000);
    assert_eq!(r.recv(), Ok(None));
}

#[test]
fn closed_receiver_refuses_everything() {
    let mut r = Receiver::new(1000);
    r.close();
    assert_eq!(r.recv(), Err(Fail::Closed));
    assert_eq!(r.receive_segment(0, vec![1u8; 1], 0), Err(Fail::Closed));
}

#[test]
fn receipt_works_across_the_wrap_point() {
    let mut r = Receiver::new(4096);
    r.remote_isn(0xFFFF_FF00);
    assert_eq!(r.receive_segment(0xFFFF_FF00, vec![5u8; 512], 0), Ok(()));
    // 0xFFFF_FF00 + 512 wraps past zero to 0x100.
    assert_eq!(r.recv_seq_no, 0x100);
    assert_eq!(r.window_size(), 4096 - 512);
    assert_eq!(r.recv(), Ok(Some(vec![5u8; 512])));
    assert_eq!(r.base_seq_no, 0x100);
}
