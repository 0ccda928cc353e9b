use acadctl_plugin::execution::output::{
    channel, ChunkPoll, EmitResult, OutputSink, OUTPUT_BUFFER_BYTES, OUTPUT_CHUNK_BYTES,
};

fn next(sink: &mut OutputSink) -> Option<String> {
    match sink.next_chunk() {
        ChunkPoll::Chunk(chunk) => Some(chunk),
        ChunkPoll::Ended => None,
        ChunkPoll::Pending => panic!("nothing to read yet"),
    }
}

#[test]
fn preserves_bytes_with_bounded_coalesced_chunks() {
    let mut sink = channel();

    for _ in 0..100_000 {
        assert_eq!(sink.emit("x"), EmitResult::Written);
    }

    sink.finish();

    assert_eq!(sink.queued_bytes(), 100_000);
    assert_eq!(sink.queued_chunks(), 7);
    let mut output = String::new();

    while let Some(chunk) = next(&mut sink) {
        assert!(chunk.len() <= OUTPUT_CHUNK_BYTES);
        output.push_str(&chunk);
    }

    assert_eq!(output, "x".repeat(100_000));
}

#[test]
fn splits_only_at_utf8_boundaries() {
    let mut sink = channel();
    let text = "界".repeat(OUTPUT_CHUNK_BYTES);
    assert_eq!(sink.emit(&text), EmitResult::Written);
    sink.finish();

    let mut output = String::new();

    while let Some(chunk) = next(&mut sink) {
        assert!(chunk.len() <= OUTPUT_CHUNK_BYTES);
        output.push_str(&chunk);
    }

    assert_eq!(output, text);
}

#[test]
fn backpressure_blocks_until_the_consumer_drains_space() {
    let mut sink = channel();
    assert_eq!(sink.emit(&"x".repeat(OUTPUT_BUFFER_BYTES)), EmitResult::Written);
    assert!(!sink.blocked());
    assert_eq!(sink.emit("y"), EmitResult::Blocked);
    assert!(sink.blocked());
    assert_eq!(sink.resume(), EmitResult::Blocked);
    assert_eq!(sink.queued_bytes(), OUTPUT_BUFFER_BYTES);

    assert!(next(&mut sink).is_some());
    assert_eq!(sink.resume(), EmitResult::Written);
    assert!(!sink.blocked());
    assert_eq!(
        sink.queued_bytes(),
        OUTPUT_BUFFER_BYTES - OUTPUT_CHUNK_BYTES + 1
    );
}

#[test]
fn cancellation_wakes_a_blocked_producer_without_discarding_queued_output() {
    let mut sink = channel();
    assert_eq!(sink.emit(&"x".repeat(OUTPUT_BUFFER_BYTES)), EmitResult::Written);
    assert_eq!(sink.emit("y"), EmitResult::Blocked);

    sink.request_cancel();
    assert_eq!(sink.resume(), EmitResult::Cancelled);
    assert_eq!(sink.queued_bytes(), OUTPUT_BUFFER_BYTES);
}

#[test]
fn whatever_ends_the_channel_answers_a_blocked_producer() {
    let blocked = || {
        let mut sink = channel();
        assert_eq!(sink.emit(&"x".repeat(OUTPUT_BUFFER_BYTES + 1)), EmitResult::Blocked);
        sink
    };
    let mut sink = blocked();
    sink.stop();
    assert_eq!(sink.resume(), EmitResult::Stopped);
    let mut sink = blocked();
    sink.disconnect();
    assert_eq!(sink.resume(), EmitResult::Disconnected);
    let mut sink = blocked();
    sink.finish();
    assert_eq!(sink.resume(), EmitResult::Finished);
}

#[test]
fn a_flush_behind_a_blocked_emission_is_carried_out_with_it() {
    let mut sink = channel();
    assert_eq!(sink.emit(&"x".repeat(OUTPUT_BUFFER_BYTES)), EmitResult::Written);
    assert_eq!(sink.emit("line"), EmitResult::Blocked);
    assert_eq!(sink.emit("\n"), EmitResult::Blocked);
    assert_eq!(sink.flush(), EmitResult::Blocked);
    assert_eq!(sink.emit(""), EmitResult::Written);

    assert!(next(&mut sink).is_some());
    assert_eq!(sink.resume(), EmitResult::Written);
    for _ in 1..OUTPUT_BUFFER_BYTES / OUTPUT_CHUNK_BYTES {
        assert_eq!(next(&mut sink).unwrap().len(), OUTPUT_CHUNK_BYTES);
    }
    assert_eq!(next(&mut sink).as_deref(), Some("line\n"));
    assert_eq!(sink.next_chunk(), ChunkPoll::Pending);
}

#[test]
fn a_blocked_text_enters_piece_by_piece() {
    let mut sink = channel();
    let text = "x".repeat(OUTPUT_BUFFER_BYTES + 2 * OUTPUT_CHUNK_BYTES);
    assert_eq!(sink.emit(&text), EmitResult::Blocked);
    let mut output = String::new();
    for _ in 0..2 {
        output.push_str(&next(&mut sink).unwrap());
        let last = sink.resume();
        assert_eq!(sink.queued_bytes(), OUTPUT_BUFFER_BYTES);
        assert_eq!(last == EmitResult::Written, !sink.blocked());
    }
    sink.finish();
    while let Some(chunk) = next(&mut sink) {
        output.push_str(&chunk);
    }
    assert_eq!(output, text);
}

#[test]
fn disconnect_discards_queued_and_future_output_without_cancelling() {
    let mut sink = channel();
    assert_eq!(sink.emit("pending"), EmitResult::Written);
    sink.disconnect();

    assert_eq!(sink.queued_bytes(), 0);
    assert_eq!(sink.emit("later"), EmitResult::Disconnected);
    assert!(!sink.cancel_requested());
}

#[test]
fn dropping_a_pending_read_does_not_consume_output() {
    let mut sink = channel();
    assert_eq!(sink.next_chunk(), ChunkPoll::Pending);

    assert_eq!(sink.emit("still here"), EmitResult::Written);
    assert_eq!(sink.flush(), EmitResult::Written);
    assert_eq!(next(&mut sink).as_deref(), Some("still here"));
}

#[test]
fn partial_fragments_are_not_messages_until_flushed() {
    let mut sink = channel();

    for _ in 0..1_000 {
        assert_eq!(sink.emit("x"), EmitResult::Written);
    }

    assert_eq!(sink.next_chunk(), ChunkPoll::Pending);

    assert_eq!(sink.flush(), EmitResult::Written);
    assert_eq!(next(&mut sink), Some("x".repeat(1_000)));
}

#[test]
fn finish_wakes_a_pending_reader() {
    let mut sink = channel();
    assert_eq!(sink.next_chunk(), ChunkPoll::Pending);
    sink.finish();
    assert_eq!(next(&mut sink), None);
}

#[test]
fn cancellation_drains_published_output_then_ends_the_stream() {
    let mut sink = channel();
    assert_eq!(sink.emit("before cancel"), EmitResult::Written);
    sink.request_cancel();

    assert_eq!(next(&mut sink).as_deref(), Some("before cancel"));
    assert_eq!(next(&mut sink), None);
}

#[test]
fn dropping_the_last_producer_stops_an_unfinished_stream() {
    let mut sink = channel();
    assert_eq!(sink.emit("discarded"), EmitResult::Written);
    sink.release_last_producer();

    assert_eq!(next(&mut sink), None);
}

#[test]
fn dropping_a_finished_producer_preserves_published_output() {
    let mut sink = channel();
    assert_eq!(sink.emit("kept"), EmitResult::Written);
    sink.finish();
    sink.release_last_producer();

    assert_eq!(next(&mut sink).as_deref(), Some("kept"));
    assert_eq!(next(&mut sink), None);
}

#[test]
fn a_stopped_channel_drops_its_text_and_takes_no_more() {
    let mut sink = channel();
    assert_eq!(sink.emit("dropped"), EmitResult::Written);
    sink.stop();
    assert_eq!(sink.emit("later"), EmitResult::Stopped);
    assert_eq!(next(&mut sink), None);
}

#[test]
fn a_finished_channel_takes_no_more() {
    let mut sink = channel();
    sink.finish();
    assert_eq!(sink.emit("later"), EmitResult::Finished);
    assert_eq!(sink.flush(), EmitResult::Finished);
}
