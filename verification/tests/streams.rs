use reactor_io::stream::{End, ReadOutcome, ShutdownHow, StreamError, StreamPair, VectoredOutcome};

#[test]
fn vectored_write_concatenates_in_order() {
    let mut pair = StreamPair::pair();
    let bufs = vec![b"he".to_vec(), b"l".to_vec(), Vec::new(), b"lo".to_vec()];
    assert_eq!(pair.write_vectored(End::A, &bufs), Ok(5));
    assert_eq!(pair.read(End::B, 16), ReadOutcome::Bytes(b"hello".to_vec()));
}

#[test]
fn vectored_read_fills_buffers_in_order() {
    let mut pair = StreamPair::pair();
    assert_eq!(pair.write(End::A, b"hello"), Ok(5));
    let sizes = vec![2usize, 2, 4];
    match pair.read_vectored(End::B, &sizes) {
        VectoredOutcome::Buffers(bs) => {
            assert_eq!(bs.len(), 3);
            assert_eq!(bs[0], b"he".to_vec());
            assert_eq!(bs[1], b"ll".to_vec());
            // the last buffer takes what is left and comes up short
            assert_eq!(bs[2], b"o".to_vec());
        }
        other => panic!("expected buffers, got {:?}", other),
    }
    assert_eq!(pair.read_vectored(End::B, &sizes), VectoredOutcome::WouldBlock);
}

#[test]
fn vectored_read_sees_end_of_stream() {
    let mut pair = StreamPair::pair();
    pair.shutdown(End::A, ShutdownHow::Write);
    assert_eq!(
        pair.read_vectored(End::B, &vec![4usize]),
        VectoredOutcome::Eof
    );
}

#[test]
fn vectored_write_to_closed_direction_is_refused() {
    let mut pair = StreamPair::pair();
    pair.shutdown(End::A, ShutdownHow::Write);
    assert_eq!(
        pair.write_vectored(End::A, &vec![b"x".to_vec()]),
        Err(StreamError::BrokenPipe)
    );
}

#[test]
fn round_trip_single_chunk() {
    let mut pair = StreamPair::pair();
    assert_eq!(pair.write(End::A, b"hello"), Ok(5));
    assert_eq!(pair.read(End::B, 16), ReadOutcome::Bytes(b"hello".to_vec()));
    assert_eq!(pair.read(End::B, 16), ReadOutcome::WouldBlock);
}

#[test]
fn round_trip_arbitrary_chunks() {
    let mut pair = StreamPair::pair();
    assert_eq!(pair.write(End::A, b"hel"), Ok(3));
    assert_eq!(pair.write(End::A, b"lo"), Ok(2));
    // read in chunks of two: bytes come back in order, byte for byte
    assert_eq!(pair.read(End::B, 2), ReadOutcome::Bytes(b"he".to_vec()));
    assert_eq!(pair.read(End::B, 2), ReadOutcome::Bytes(b"ll".to_vec()));
    assert_eq!(pair.read(End::B, 2), ReadOutcome::Bytes(b"o".to_vec()));
    assert_eq!(pair.read(End::B, 2), ReadOutcome::WouldBlock);
}

#[test]
fn both_directions_are_independent() {
    let mut pair = StreamPair::pair();
    assert_eq!(pair.write(End::A, b"ping"), Ok(4));
    assert_eq!(pair.write(End::B, b"pong"), Ok(4));
    assert_eq!(pair.read(End::A, 16), ReadOutcome::Bytes(b"pong".to_vec()));
    assert_eq!(pair.read(End::B, 16), ReadOutcome::Bytes(b"ping".to_vec()));
}

#[test]
fn would_block_consumes_nothing() {
    let mut pair = StreamPair::pair();
    // any number of would-block reads...
    assert_eq!(pair.read(End::B, 8), ReadOutcome::WouldBlock);
    assert_eq!(pair.read(End::B, 8), ReadOutcome::WouldBlock);
    assert_eq!(pair.write(End::A, b"abc"), Ok(3));
    // ...and one call after readiness makes the same progress a single
    // successful call would have made
    assert_eq!(pair.read(End::B, 8), ReadOutcome::Bytes(b"abc".to_vec()));
}

#[test]
fn read_after_peer_write_shutdown_is_eof_not_error() {
    let mut pair = StreamPair::pair();
    pair.shutdown(End::A, ShutdownHow::Write);
    assert_eq!(pair.read(End::B, 16), ReadOutcome::Eof);
}

#[test]
fn pending_bytes_survive_peer_shutdown() {
    let mut pair = StreamPair::pair();
    assert_eq!(pair.write(End::A, b"bye"), Ok(3));
    pair.shutdown(End::A, ShutdownHow::Write);
    // what was in flight is still delivered, then end-of-stream
    assert_eq!(pair.read(End::B, 16), ReadOutcome::Bytes(b"bye".to_vec()));
    assert_eq!(pair.read(End::B, 16), ReadOutcome::Eof);
}

#[test]
fn write_after_own_shutdown_is_broken_pipe() {
    let mut pair = StreamPair::pair();
    pair.shutdown(End::A, ShutdownHow::Write);
    assert_eq!(pair.write(End::A, b"x"), Err(StreamError::BrokenPipe));
    // the other direction still works
    assert_eq!(pair.write(End::B, b"y"), Ok(1));
    assert_eq!(pair.read(End::A, 4), ReadOutcome::Bytes(b"y".to_vec()));
}

#[test]
fn shutdown_both_closes_both_halves() {
    let mut pair = StreamPair::pair();
    pair.shutdown(End::A, ShutdownHow::Both);
    assert_eq!(pair.write(End::A, b"x"), Err(StreamError::BrokenPipe));
    assert_eq!(pair.read(End::A, 4), ReadOutcome::Eof);
    assert_eq!(pair.read(End::B, 4), ReadOutcome::Eof);
}

#[test]
fn read_of_zero_bytes_returns_empty() {
    let mut pair = StreamPair::pair();
    assert_eq!(pair.write(End::A, b"z"), Ok(1));
    assert_eq!(pair.read(End::B, 0), ReadOutcome::Bytes(Vec::new()));
    // nothing was consumed
    assert_eq!(pair.read(End::B, 4), ReadOutcome::Bytes(b"z".to_vec()));
}

#[test]
fn empty_write_is_accepted() {
    let mut pair = StreamPair::pair();
    assert_eq!(pair.write(End::A, b""), Ok(0));
    assert_eq!(pair.read(End::B, 4), ReadOutcome::WouldBlock);
}

#[test]
fn readiness_tracks_pending_and_shutdown() {
    let mut pair = StreamPair::pair();
    assert!(!pair.is_readable_now(End::B));
    assert_eq!(pair.write(End::A, b"x"), Ok(1));
    assert!(pair.is_readable_now(End::B));
    assert_eq!(pair.read(End::B, 4), ReadOutcome::Bytes(b"x".to_vec()));
    assert!(!pair.is_readable_now(End::B));
    pair.shutdown(End::A, ShutdownHow::Write);
    // end-of-stream is observable, so the end reads as ready
    assert!(pair.is_readable_now(End::B));
}
