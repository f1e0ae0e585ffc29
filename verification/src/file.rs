//! The chunk buffer for one stored object and the tailing stream that reads
//! it: an append-only list of byte chunks with a last-write timestamp and a
//! completion flag, and a forward-only cursor that delivers those chunks in
//! order, deciding on each pull whether to emit, wait, or terminate.

use vstd::prelude::*;

verus! {

/// The mathematical model of a [`File`]: the chunk sequence, the completion
/// flag, and the timestamp (in milliseconds) of the most recent update.
pub ghost struct FileModel {
    pub chunks: Seq<Seq<u8>>,
    pub complete: bool,
    pub last_update: u64,
}

impl FileModel {
    /// A file is stale once its writer marked it complete, or once more than
    /// `timeout` milliseconds have passed since its last update. Staleness is
    /// the sole termination oracle for streams: a reader cannot distinguish a
    /// finished upload from one whose producer silently went away.
    pub open spec fn is_stale(self, now: u64, timeout: u64) -> bool {
        self.complete || (now > self.last_update && now - self.last_update > timeout)
    }
}

/// One stored object: an ordered, append-only list of immutable byte chunks,
/// the time of the last update, and a flag set once the writer has finished.
///
/// Timestamps are plain milliseconds on a monotonic clock supplied by the
/// caller, so that every operation is a pure function of its arguments.
pub struct File {
    chunks: Vec<Vec<u8>>,
    is_complete: bool,
    last_update: u64,
}

impl View for File {
    type V = FileModel;

    closed spec fn view(&self) -> FileModel {
        FileModel {
            chunks: self.chunks.deep_view(),
            complete: self.is_complete,
            last_update: self.last_update,
        }
    }
}

impl DeepView for File {
    type V = FileModel;

    open spec fn deep_view(&self) -> FileModel {
        self.view()
    }
}

impl File {
    /// Creates an empty, incomplete file whose last update is `now`.
    pub fn new(now: u64) -> (r: File)
        ensures
            r@.chunks == Seq::<Seq<u8>>::empty(),
            !r@.complete,
            r@.last_update == now,
    {
        let f = File { chunks: Vec::new(), is_complete: false, last_update: now };
        proof {
            assert(f@.chunks =~= Seq::<Seq<u8>>::empty());
        }
        f
    }

    /// Appends one chunk at the end and moves the last update to `now`.
    /// Chunks are never split, merged, or reordered after this. The caller's
    /// clock must not run backwards, so `last_update` is non-decreasing.
    pub fn push(&mut self, chunk: Vec<u8>, now: u64)
        requires
            now >= old(self)@.last_update,
        ensures
            final(self)@.chunks == old(self)@.chunks.push(chunk@),
            final(self)@.complete == old(self)@.complete,
            final(self)@.last_update == now,
    {
        self.chunks.push(chunk);
        self.last_update = now;
        proof {
            assert(self@.chunks =~~= old(self)@.chunks.push(chunk@));
        }
    }

    /// Marks the file as complete. Monotonic and idempotent: the flag is never
    /// cleared again, and nothing else changes.
    pub fn set_as_complete(&mut self)
        ensures
            final(self)@.complete,
            final(self)@.chunks == old(self)@.chunks,
            final(self)@.last_update == old(self)@.last_update,
    {
        self.is_complete = true;
    }

    /// The chunks stored so far, in append order.
    pub fn get_chunks(&self) -> (r: &Vec<Vec<u8>>)
        ensures
            r.deep_view() == self@.chunks,
    {
        &self.chunks
    }

    /// The current chunk count. A point-in-time reading: the count may grow
    /// right after the call returns, but never shrinks.
    pub fn snapshot_len(&self) -> (r: usize)
        ensures
            r == self@.chunks.len(),
    {
        self.chunks.len()
    }

    /// The chunk at index `i`. Indices are stable: once written, the chunk at
    /// a given index never changes.
    pub fn chunk_at(&self, i: usize) -> (r: &Vec<u8>)
        requires
            i < self@.chunks.len(),
        ensures
            r@ == self@.chunks[i as int],
    {
        &self.chunks[i]
    }

    /// The time (in milliseconds) of the most recent append, or of creation
    /// if nothing was appended yet.
    pub fn last_update(&self) -> (r: u64)
        ensures
            r == self@.last_update,
    {
        self.last_update
    }

    /// Whether the file counts as finished at time `now`: complete, or
    /// untouched for more than `timeout` milliseconds.
    pub fn is_stale(&self, now: u64, timeout: u64) -> (r: bool)
        ensures
            r == self@.is_stale(now, timeout),
    {
        self.is_complete || (now > self.last_update && now - self.last_update > timeout)
    }
}

/// The outcome of one pull on a [`FileStream`]: the next chunk in order, a
/// request to retry later because no data is available yet, or the end of the
/// sequence, after which no chunk is ever produced again.
#[derive(Debug, PartialEq, Eq)]
pub enum StreamPoll {
    Chunk(Vec<u8>),
    Pending,
    Finished,
}

/// The mathematical model of a [`FileStream`]: which buffer it reads (by the
/// identifier its registry handed out), the index of the next chunk to
/// deliver, and whether the stream has terminated.
pub ghost struct StreamModel {
    pub file_id: int,
    pub index: int,
    pub done: bool,
}

impl StreamModel {
    /// The stream's state after one pull against a buffer in state `f` at
    /// time `now`. A terminated stream never changes again; a cursor behind
    /// the buffer advances one chunk; a caught-up cursor terminates exactly
    /// when the buffer is stale, and otherwise waits in place.
    pub open spec fn step(self, f: FileModel, now: u64, timeout: u64) -> StreamModel {
        if self.done {
            self
        } else if self.index < f.chunks.len() {
            StreamModel { file_id: self.file_id, index: self.index + 1, done: false }
        } else if f.is_stale(now, timeout) {
            StreamModel { file_id: self.file_id, index: self.index, done: true }
        } else {
            self
        }
    }
}

/// A forward-only cursor over one [`File`], private to one consumer. It
/// delivers the buffer's chunks in append order, exactly once each, and
/// terminates only when it has caught up and the buffer is stale.
/// Termination is permanent: once the stream has answered `Finished`, it
/// never produces a chunk again, even if the buffer later grows.
pub struct FileStream {
    file_id: usize,
    index: usize,
    done: bool,
}

impl View for FileStream {
    type V = StreamModel;

    closed spec fn view(&self) -> StreamModel {
        StreamModel { file_id: self.file_id as int, index: self.index as int, done: self.done }
    }
}

impl FileStream {
    /// A fresh stream over the buffer with identifier `file_id`, positioned
    /// before the first chunk and not terminated.
    pub fn new(file_id: usize) -> (r: FileStream)
        ensures
            r@.file_id == file_id,
            r@.index == 0,
            !r@.done,
    {
        FileStream { file_id, index: 0, done: false }
    }

    /// The registry identifier of the buffer this stream reads.
    pub fn file_id(&self) -> (r: usize)
        ensures
            r == self@.file_id,
    {
        self.file_id
    }

    /// How many chunks this stream has already delivered.
    pub fn position(&self) -> (r: usize)
        ensures
            r == self@.index,
    {
        self.index
    }

    /// Whether this stream has terminated. A terminated stream never
    /// delivers another chunk.
    pub fn is_finished(&self) -> (r: bool)
        ensures
            r == self@.done,
    {
        self.done
    }

    /// One pull against the current state of `file`. A terminated stream
    /// answers `Finished` forever, whatever the buffer now holds — it never
    /// revives. Otherwise, if the cursor is behind the buffer, the chunk at
    /// the cursor is delivered and the cursor moves forward one step; and a
    /// caught-up stream terminates exactly when the buffer is stale at
    /// `now`, asking to be retried otherwise. The cursor never moves
    /// backwards and never skips a chunk.
    pub fn poll_next(&mut self, file: &File, now: u64, timeout: u64) -> (r: StreamPoll)
        ensures
            final(self)@ == old(self)@.step(file@, now, timeout),
            old(self)@.done ==> r == StreamPoll::Finished,
            !old(self)@.done && old(self)@.index < file@.chunks.len() ==> (r matches
            StreamPoll::Chunk(c) && c@ == file@.chunks[old(self)@.index]),
            !old(self)@.done && old(self)@.index >= file@.chunks.len() ==> r == (
            if file@.is_stale(now, timeout) {
                StreamPoll::Finished
            } else {
                StreamPoll::Pending
            }),
    {
        if self.done {
            return StreamPoll::Finished;
        }
        let len = file.snapshot_len();
        if self.index < len {
            let chunk = vstd::slice::slice_to_vec(file.chunk_at(self.index).as_slice());
            self.index = self.index + 1;
            StreamPoll::Chunk(chunk)
        } else if file.is_stale(now, timeout) {
            self.done = true;
            StreamPoll::Finished
        } else {
            StreamPoll::Pending
        }
    }
}

} // verus!
