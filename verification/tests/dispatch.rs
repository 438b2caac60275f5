use nailgun::{
    dispatch_batch, frame_message, simple, Counters, DispatchError, Protocol, QueryInfo,
    RecordingLink, Store, TransportError,
};

#[test]
fn query_encoding_is_real_dns_wire_format() {
    let wire = simple(0x1234, "test.com.", 1).expect("encoding a plain query succeeds");
    // a DNS message starts with its 12-byte header, id first, big-endian
    assert!(wire.len() > 12);
    assert_eq!(wire[0], 0x12);
    assert_eq!(wire[1], 0x34);
    // question count is one
    assert_eq!(wire[4], 0x00);
    assert_eq!(wire[5], 0x01);
    // two different ids differ only in the id bytes
    let other = simple(0x5678, "test.com.", 1).expect("encoding a plain query succeeds");
    assert_eq!(wire[2..], other[2..]);
    assert_ne!(wire[..2], other[..2]);
}

#[test]
fn query_encoding_rejects_a_bad_name() {
    // a label longer than 63 octets is not a well-formed DNS name
    let label = "a".repeat(64);
    let record = format!("{}.com.", label);
    assert!(simple(1, &record, 1).is_err());
}

#[test]
fn stream_framing_prefixes_a_big_endian_length() {
    let msg: Vec<u8> = (0u8..12u8).collect();
    let frames = frame_message(Protocol::Tcp, &msg).expect("12 bytes fit a length prefix");
    assert_eq!(frames.len(), 2);
    assert_eq!(frames[0], vec![0x00, 0x0C]);
    assert_eq!(frames[1], msg);
}

#[test]
fn stream_framing_refuses_an_oversized_message() {
    let msg = vec![0u8; 65536];
    assert_eq!(
        frame_message(Protocol::Tcp, &msg),
        Err(TransportError::TooLong)
    );
    // a datagram transport leaves sizing to the caller
    assert!(frame_message(Protocol::Udp, &msg).is_ok());
}

#[test]
fn stream_send_issues_two_ordered_writes() {
    let msg: Vec<u8> = (100u8..112u8).collect();
    let mut link = RecordingLink::new(Protocol::Tcp);
    link.send(&msg).expect("link never fails");
    assert_eq!(link.writes.len(), 2);
    assert_eq!(link.writes[0], vec![0x00, 0x0C]);
    assert_eq!(link.writes[1], msg);
}

#[test]
fn datagram_send_issues_one_write_per_message() {
    let msg = vec![1u8, 2, 3];
    let mut link = RecordingLink::new(Protocol::Udp);
    link.send(&msg).expect("link never fails");
    assert_eq!(link.writes, vec![msg]);
}

#[test]
fn single_worker_dispatches_a_full_batch() {
    let mut store = Store::with_ids(vec![1, 2, 3]);
    let mut counters = Counters::new();
    let mut link = RecordingLink::new(Protocol::Udp);
    let r = dispatch_batch(
        &mut store,
        &mut counters,
        &mut link,
        "test.com.",
        1,
        3,
        7,
    );
    assert!(r.is_ok());
    assert_eq!(counters.sent, 3);
    assert_eq!(store.free_len(), 0);
    assert_eq!(store.in_flight_len(), 3);
    for id in [1u16, 2, 3] {
        assert_eq!(
            store.in_flight.get(&id).copied(),
            Some(QueryInfo { sent: 7 })
        );
    }
    // one datagram per id, in claim order
    let expected: Vec<Vec<u8>> = [1u16, 2, 3]
        .iter()
        .map(|&id| simple(id, "test.com.", 1).unwrap())
        .collect();
    assert_eq!(link.writes, expected);
}

#[test]
fn worker_stops_at_the_first_transport_failure() {
    let mut store = Store::with_ids(vec![1, 2, 3]);
    let mut counters = Counters::new();
    // the second send call fails
    let mut link = RecordingLink::failing_at(Protocol::Udp, 1);
    let r = dispatch_batch(
        &mut store,
        &mut counters,
        &mut link,
        "test.com.",
        1,
        3,
        9,
    );
    assert_eq!(r, Err(DispatchError::Transport(TransportError::Broken)));
    assert_eq!(counters.sent, 1);
    assert_eq!(store.in_flight_len(), 1);
    assert!(store.in_flight.contains_key(&1));
    assert!(!store.in_flight.contains_key(&2));
    assert!(!store.in_flight.contains_key(&3));
    // query 3 was never attempted: only the first datagram went out and only
    // two send calls were ever made
    assert_eq!(link.writes.len(), 1);
    assert_eq!(link.attempts, 2);
}

#[test]
fn worker_stops_on_an_encoding_failure_before_sending() {
    let label = "b".repeat(64);
    let record = format!("{}.example.", label);
    let mut store = Store::with_ids(vec![5, 6]);
    let mut counters = Counters::new();
    let mut link = RecordingLink::new(Protocol::Udp);
    let r = dispatch_batch(&mut store, &mut counters, &mut link, &record, 1, 2, 0);
    assert!(matches!(r, Err(DispatchError::Encode(_))));
    assert_eq!(counters.sent, 0);
    assert_eq!(link.attempts, 0);
    assert_eq!(store.in_flight_len(), 0);
}

#[test]
fn counter_increments_accumulate_exactly() {
    let mut counters = Counters::new();
    for _ in 0..100 {
        counters.increment_sent();
    }
    counters.increment_received();
    counters.increment_timed_out();
    for _ in 0..23 {
        counters.increment_sent();
    }
    assert_eq!(counters.sent, 123);
    assert_eq!(counters.received, 1);
    assert_eq!(counters.timed_out, 1);
}
