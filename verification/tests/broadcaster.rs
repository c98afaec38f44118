use mirakc_core::broadcaster::{Broadcaster, BroadcasterStream, StreamItem, StreamPoll, SubscribeMessage, UnsubscribeMessage, MAX_CHUNKS};

fn expect_chunk(p: StreamPoll) -> Vec<u8> {
    match p {
        StreamPoll::Ready(c) => c,
        StreamPoll::Pending => panic!("expected a chunk, stream is pending"),
        StreamPoll::End => panic!("expected a chunk, stream has ended"),
    }
}

fn is_end(p: &StreamPoll) -> bool {
    matches!(p, StreamPoll::End)
}

#[test]
fn test_broadcast() {
    let mut b = Broadcaster::new(0, 1000, 0);
    let stream1 = b.subscribe(1);
    let stream2 = b.subscribe(2);

    b.broadcast(&b"hello".to_vec(), 1);

    let chunk = stream1.poll_next(&mut b);
    assert!(!is_end(&chunk));
    let chunk = stream2.poll_next(&mut b);
    assert!(!is_end(&chunk));
}

#[test]
fn test_unsubscribe() {
    let mut b = Broadcaster::new(0, 1000, 0);
    let stream1 = b.subscribe(1);
    let stream2 = b.subscribe(2);

    b.unsubscribe(1);
    b.broadcast(&b"hello".to_vec(), 1);

    let chunk = stream1.poll_next(&mut b);
    assert!(is_end(&chunk));
    let chunk = stream2.poll_next(&mut b);
    assert!(!is_end(&chunk));
}

#[test]
fn test_timeout() {
    let mut b = Broadcaster::new(0, 50, 0);
    let stream1 = b.subscribe(1);

    b.broadcast(&b"hello".to_vec(), 10);
    let chunk = stream1.poll_next(&mut b);
    assert!(!is_end(&chunk));

    // More than `time_limit` elapses without a chunk: the watchdog stops the
    // broadcaster, and a later feed is not observed.
    let stopped = b.check_timeout(61);
    assert!(stopped);
    assert!(!b.running);

    b.broadcast(&b"hello".to_vec(), 62);
    let chunk = stream1.poll_next(&mut b);
    assert!(is_end(&chunk));
}

#[test]
fn broadcast_delivers_bytes_in_source_order() {
    let mut b = Broadcaster::new(7, 1000, 0);
    let s = b.subscribe(1);
    b.broadcast(&b"first".to_vec(), 1);
    b.broadcast(&b"second".to_vec(), 2);
    assert_eq!(expect_chunk(s.poll_next(&mut b)), b"first".to_vec());
    assert_eq!(expect_chunk(s.poll_next(&mut b)), b"second".to_vec());
    assert!(matches!(s.poll_next(&mut b), StreamPoll::Pending));
}

#[test]
fn slow_subscriber_loses_only_overflow() {
    let mut b = Broadcaster::new(0, 1000, 0);
    let slow = b.subscribe(1);
    let fast = b.subscribe(2);

    let mut fast_seen: usize = 0;
    for i in 0..(MAX_CHUNKS + 1) {
        let chunk = vec![(i % 256) as u8, (i / 256) as u8];
        b.broadcast(&chunk, i as u64);
        let got = expect_chunk(fast.poll_next(&mut b));
        assert_eq!(got, chunk);
        fast_seen += 1;
    }
    assert_eq!(fast_seen, MAX_CHUNKS + 1);

    // The undrained subscriber got exactly the first MAX_CHUNKS chunks.
    for i in 0..MAX_CHUNKS {
        let got = expect_chunk(slow.poll_next(&mut b));
        assert_eq!(got, vec![(i % 256) as u8, (i / 256) as u8]);
    }
    assert!(matches!(slow.poll_next(&mut b), StreamPoll::Pending));
}

#[test]
fn eos_stops_and_streams_terminate_after_draining() {
    let mut b = Broadcaster::new(0, 1000, 0);
    let s = b.subscribe(1);
    b.handle_stream_item(&StreamItem::Data(b"tail".to_vec()), 1);
    b.handle_stream_item(&StreamItem::Eos, 2);
    assert!(!b.running);
    // The queued chunk is still drained, then the stream ends cleanly.
    assert_eq!(expect_chunk(s.poll_next(&mut b)), b"tail".to_vec());
    assert!(is_end(&s.poll_next(&mut b)));
}

#[test]
fn error_stops_broadcaster() {
    let mut b = Broadcaster::new(0, 1000, 0);
    let s = b.subscribe(1);
    b.handle_stream_item(&StreamItem::Error, 1);
    assert!(!b.running);
    assert!(is_end(&s.poll_next(&mut b)));
}

#[test]
fn duplicate_ids_are_independent_subscriptions() {
    let mut b = Broadcaster::new(0, 1000, 0);
    let s1 = b.subscribe(9);
    let s2 = b.subscribe(9);
    b.broadcast(&b"x".to_vec(), 1);
    assert_eq!(expect_chunk(s1.poll_next(&mut b)), b"x".to_vec());
    assert_eq!(expect_chunk(s2.poll_next(&mut b)), b"x".to_vec());
    // Unsubscribing the id closes both.
    b.unsubscribe(9);
    assert!(is_end(&s1.poll_next(&mut b)));
    assert!(is_end(&s2.poll_next(&mut b)));
}

#[test]
fn unknown_unsubscribe_is_a_no_op() {
    let mut b = Broadcaster::new(0, 1000, 0);
    let s = b.subscribe(1);
    b.unsubscribe(42);
    b.broadcast(&b"y".to_vec(), 1);
    assert_eq!(expect_chunk(s.poll_next(&mut b)), b"y".to_vec());
}

#[test]
fn dropped_stream_is_skipped_until_unsubscribed() {
    let mut b = Broadcaster::new(0, 1000, 0);
    let s1 = b.subscribe(1);
    let s2 = b.subscribe(2);
    b.drop_stream(s1.key);
    b.broadcast(&b"z".to_vec(), 1);
    // The dropped stream's subscriber is still listed but receives nothing.
    assert_eq!(b.subscribers.len(), 2);
    assert_eq!(b.subscribers[0].outbox.len(), 0);
    assert_eq!(expect_chunk(s2.poll_next(&mut b)), b"z".to_vec());
}

#[test]
fn last_received_tracks_fanout_time() {
    let mut b = Broadcaster::new(0, 1000, 5);
    assert_eq!(b.last_received, 5);
    b.broadcast(&b"c".to_vec(), 17);
    assert_eq!(b.last_received, 17);
    // Within the limit nothing stops.
    let stopped = b.check_timeout(17 + 1000);
    assert!(!stopped);
    assert!(b.running);
}

#[test]
fn message_handlers_match_direct_calls() {
    let mut b = Broadcaster::new(0, 1000, 0);
    let s = b.handle_subscribe(&SubscribeMessage { id: 3 });
    b.broadcast(&b"m".to_vec(), 1);
    b.handle_unsubscribe(&UnsubscribeMessage { id: 3 });
    assert_eq!(expect_chunk(s.poll_next(&mut b)), b"m".to_vec());
    assert!(is_end(&s.poll_next(&mut b)));
}

#[test]
fn new_for_test_wires_one_stream() {
    let (mut b, s) = BroadcasterStream::new_for_test();
    b.broadcast(&b"hello".to_vec(), 1);
    assert_eq!(expect_chunk(s.poll_next(&mut b)), b"hello".to_vec());
}
