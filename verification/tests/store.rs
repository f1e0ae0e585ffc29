use livestore::{File, FileStream, StorageObject, StreamPoll};

fn chunk(s: &str) -> Vec<u8> {
    s.as_bytes().to_vec()
}

/// Polls the stream against the registry until it finishes, concatenating
/// every delivered chunk. `now` is held fixed, so the stream only finishes
/// once it has caught up and the buffer is stale at that instant.
fn drain(store: &StorageObject, stream: &mut FileStream, now: u64, timeout: u64) -> Vec<u8> {
    let mut out = Vec::new();
    loop {
        match store.poll_stream(stream, now, timeout) {
            StreamPoll::Chunk(c) => out.extend_from_slice(&c),
            StreamPoll::Pending => panic!("stream should not be pending here"),
            StreamPoll::Finished => return out,
        }
    }
}

#[test]
fn round_trip_concatenation() {
    let mut store = StorageObject::new();
    let id = store.new_file("/v1".to_string(), 0);
    store.push_chunk(id, chunk("abc"), 1);
    store.push_chunk(id, chunk("de"), 2);
    store.push_chunk(id, chunk("f"), 3);
    store.complete_file(id);

    let mut stream = store.get_filestream(&"/v1".to_string()).unwrap();
    let body = drain(&store, &mut stream, 4, 1000);
    assert_eq!(body, b"abcdef".to_vec());
}

#[test]
fn not_found_before_put() {
    let mut store = StorageObject::new();
    assert!(store.get_filestream(&"/unknown".to_string()).is_none());
    assert!(store.lookup(&"/unknown".to_string()).is_none());
    assert_eq!(store.delete_file(&"/unknown".to_string()), Err(()));
}

#[test]
fn delete_then_not_found() {
    let mut store = StorageObject::new();
    let id = store.new_file("/a".to_string(), 0);
    store.push_chunk(id, chunk("data"), 1);
    assert!(store.get_filestream(&"/a".to_string()).is_some());

    assert_eq!(store.delete_file(&"/a".to_string()), Ok(()));
    assert!(store.get_filestream(&"/a".to_string()).is_none());
    assert_eq!(store.delete_file(&"/a".to_string()), Err(()));
}

#[test]
fn delete_leaves_other_names_alone() {
    let mut store = StorageObject::new();
    let a = store.new_file("/a".to_string(), 0);
    let b = store.new_file("/b".to_string(), 0);
    store.push_chunk(a, chunk("aa"), 1);
    store.push_chunk(b, chunk("bb"), 1);
    store.complete_file(a);
    store.complete_file(b);

    assert_eq!(store.delete_file(&"/a".to_string()), Ok(()));
    let mut stream = store.get_filestream(&"/b".to_string()).unwrap();
    assert_eq!(drain(&store, &mut stream, 2, 1000), b"bb".to_vec());
}

#[test]
fn order_preservation() {
    let mut store = StorageObject::new();
    let id = store.new_file("/seq".to_string(), 0);
    for i in 0..5u8 {
        store.push_chunk(id, vec![i], u64::from(i) + 1);
    }
    store.complete_file(id);

    let mut stream = store.get_filestream(&"/seq".to_string()).unwrap();
    for i in 0..5u8 {
        assert_eq!(
            store.poll_stream(&mut stream, 6, 1000),
            StreamPoll::Chunk(vec![i])
        );
    }
    assert_eq!(store.poll_stream(&mut stream, 6, 1000), StreamPoll::Finished);
}

#[test]
fn multi_reader_independence() {
    let mut store = StorageObject::new();
    let id = store.new_file("/m".to_string(), 0);
    store.push_chunk(id, chunk("one"), 1);

    // The first reader starts while only one chunk exists.
    let mut early = store.get_filestream(&"/m".to_string()).unwrap();
    assert_eq!(
        store.poll_stream(&mut early, 2, 1000),
        StreamPoll::Chunk(chunk("one"))
    );

    store.push_chunk(id, chunk("two"), 3);
    store.complete_file(id);

    // A reader started later sees the full prefix from the beginning,
    // unaffected by the first reader's progress.
    let mut late = store.get_filestream(&"/m".to_string()).unwrap();
    assert_eq!(drain(&store, &mut late, 4, 1000), b"onetwo".to_vec());

    // And the early reader picks up exactly where it left off.
    assert_eq!(
        store.poll_stream(&mut early, 4, 1000),
        StreamPoll::Chunk(chunk("two"))
    );
    assert_eq!(store.poll_stream(&mut early, 4, 1000), StreamPoll::Finished);
}

#[test]
fn stale_termination_empty_buffer() {
    let mut store = StorageObject::new();
    store.new_file("/empty".to_string(), 100);
    let mut stream = store.get_filestream(&"/empty".to_string()).unwrap();

    // Within the timeout the empty buffer is live: the reader must wait.
    assert_eq!(store.poll_stream(&mut stream, 600, 1000), StreamPoll::Pending);
    // Once the quiet period exceeds the timeout, the stream ends cleanly
    // without ever producing a chunk.
    assert_eq!(
        store.poll_stream(&mut stream, 1101, 1000),
        StreamPoll::Finished
    );
}

#[test]
fn stale_termination_after_quiet_period() {
    let mut store = StorageObject::new();
    let id = store.new_file("/quiet".to_string(), 0);
    store.push_chunk(id, chunk("x"), 50);

    let mut stream = store.get_filestream(&"/quiet".to_string()).unwrap();
    assert_eq!(
        store.poll_stream(&mut stream, 60, 1000),
        StreamPoll::Chunk(chunk("x"))
    );
    assert_eq!(store.poll_stream(&mut stream, 60, 1000), StreamPoll::Pending);
    assert_eq!(
        store.poll_stream(&mut stream, 1051, 1000),
        StreamPoll::Finished
    );
}

#[test]
fn completion_does_not_truncate_pending_data() {
    let mut store = StorageObject::new();
    let id = store.new_file("/pending".to_string(), 0);
    store.push_chunk(id, chunk("a"), 1);
    store.push_chunk(id, chunk("b"), 2);
    store.push_chunk(id, chunk("c"), 3);

    let mut stream = store.get_filestream(&"/pending".to_string()).unwrap();
    assert_eq!(
        store.poll_stream(&mut stream, 4, 1000),
        StreamPoll::Chunk(chunk("a"))
    );

    // Completing while two chunks are still unread must not cut them off.
    store.complete_file(id);
    assert_eq!(
        store.poll_stream(&mut stream, 4, 1000),
        StreamPoll::Chunk(chunk("b"))
    );
    assert_eq!(
        store.poll_stream(&mut stream, 4, 1000),
        StreamPoll::Chunk(chunk("c"))
    );
    assert_eq!(store.poll_stream(&mut stream, 4, 1000), StreamPoll::Finished);
}

#[test]
fn replacement_isolation() {
    let mut store = StorageObject::new();
    let first = store.new_file("/x".to_string(), 0);
    store.push_chunk(first, chunk("old"), 1);
    store.complete_file(first);

    // A reader is already tailing the first buffer when it is replaced.
    let mut old_reader = store.get_filestream(&"/x".to_string()).unwrap();

    let second = store.new_file("/x".to_string(), 10);
    store.push_chunk(second, chunk("new"), 11);
    store.complete_file(second);

    // The old reader still sees the data it was handed, untouched.
    assert_eq!(drain(&store, &mut old_reader, 12, 1000), b"old".to_vec());
    // New lookups only see the new buffer.
    let mut new_reader = store.get_filestream(&"/x".to_string()).unwrap();
    assert_eq!(drain(&store, &mut new_reader, 12, 1000), b"new".to_vec());
}

#[test]
fn file_append_and_read_back() {
    let mut file = File::new(0);
    assert_eq!(file.snapshot_len(), 0);
    file.push(chunk("hello"), 5);
    file.push(chunk("world"), 6);
    assert_eq!(file.snapshot_len(), 2);
    assert_eq!(file.chunk_at(0), &chunk("hello"));
    assert_eq!(file.chunk_at(1), &chunk("world"));
    assert_eq!(
        file.get_chunks(),
        &vec![chunk("hello"), chunk("world")]
    );
}

#[test]
fn staleness_boundaries() {
    let mut file = File::new(100);
    // Exactly the timeout since the last update is not yet stale: the
    // quiet period must strictly exceed it.
    assert!(!file.is_stale(1100, 1000));
    assert!(file.is_stale(1101, 1000));
    // A clock reading from before the last update never counts as stale.
    assert!(!file.is_stale(50, 1000));
    // Completion makes the file stale at any instant, and is idempotent.
    file.set_as_complete();
    assert!(file.is_stale(100, 1000));
    file.set_as_complete();
    assert!(file.is_stale(0, 1000));
}

#[test]
fn stream_cursor_moves_forward_only() {
    let mut file = File::new(0);
    file.push(chunk("a"), 1);
    file.push(chunk("b"), 2);

    let mut stream = FileStream::new(0);
    assert_eq!(stream.file_id(), 0);
    assert_eq!(stream.position(), 0);

    assert_eq!(
        stream.poll_next(&file, 3, 1000),
        StreamPoll::Chunk(chunk("a"))
    );
    assert_eq!(stream.position(), 1);
    assert_eq!(
        stream.poll_next(&file, 3, 1000),
        StreamPoll::Chunk(chunk("b"))
    );
    assert_eq!(stream.position(), 2);

    // Caught up on a live buffer: the cursor stays put while waiting.
    assert_eq!(stream.poll_next(&file, 3, 1000), StreamPoll::Pending);
    assert_eq!(stream.position(), 2);

    // A chunk appended after the wait is still delivered in order.
    file.push(chunk("c"), 4);
    assert_eq!(
        stream.poll_next(&file, 5, 1000),
        StreamPoll::Chunk(chunk("c"))
    );

    file.set_as_complete();
    assert_eq!(stream.poll_next(&file, 5, 1000), StreamPoll::Finished);
}

#[test]
fn terminated_stream_never_revives() {
    let mut store = StorageObject::new();
    let id = store.new_file("/nr".to_string(), 0);
    store.push_chunk(id, chunk("a"), 10);

    let mut stream = store.get_filestream(&"/nr".to_string()).unwrap();
    assert_eq!(
        store.poll_stream(&mut stream, 20, 1000),
        StreamPoll::Chunk(chunk("a"))
    );
    // The producer goes quiet past the timeout: the stream terminates.
    assert_eq!(
        store.poll_stream(&mut stream, 2000, 1000),
        StreamPoll::Finished
    );

    // A slow producer appends after the stale verdict. The terminated
    // stream stays terminated and never sees the late chunk.
    store.push_chunk(id, chunk("late"), 2001);
    assert_eq!(
        store.poll_stream(&mut stream, 2002, 1000),
        StreamPoll::Finished
    );
    assert_eq!(
        store.poll_stream(&mut stream, 2003, 1000),
        StreamPoll::Finished
    );

    // A stream started afresh over the same buffer sees everything.
    let mut fresh = store.get_filestream(&"/nr".to_string()).unwrap();
    assert_eq!(
        store.poll_stream(&mut fresh, 2004, 1000),
        StreamPoll::Chunk(chunk("a"))
    );
    assert_eq!(
        store.poll_stream(&mut fresh, 2004, 1000),
        StreamPoll::Chunk(chunk("late"))
    );
    assert_eq!(
        store.poll_stream(&mut fresh, 2004, 1000),
        StreamPoll::Pending
    );
}

#[test]
fn stream_reports_termination() {
    let mut file = File::new(0);
    file.push(chunk("x"), 1);
    file.set_as_complete();

    let mut stream = FileStream::new(0);
    assert!(!stream.is_finished());
    assert_eq!(
        stream.poll_next(&file, 2, 1000),
        StreamPoll::Chunk(chunk("x"))
    );
    assert!(!stream.is_finished());
    assert_eq!(stream.poll_next(&file, 2, 1000), StreamPoll::Finished);
    assert!(stream.is_finished());

    // Growth after termination never revives the stream.
    file.push(chunk("y"), 3);
    assert_eq!(stream.poll_next(&file, 3, 1000), StreamPoll::Finished);
    assert!(stream.is_finished());
    assert_eq!(stream.position(), 1);
}

#[test]
fn fresh_buffer_replaces_chunks_of_same_name() {
    let mut store = StorageObject::new();
    let first = store.new_file("/r".to_string(), 0);
    store.push_chunk(first, chunk("gone"), 1);

    // Re-registering the same name starts from an empty buffer.
    store.new_file("/r".to_string(), 2);
    store.complete_file(store.lookup(&"/r".to_string()).unwrap());
    let mut stream = store.get_filestream(&"/r".to_string()).unwrap();
    assert_eq!(drain(&store, &mut stream, 3, 1000), Vec::<u8>::new());
}
