//! The laws of the tailing stream, stated over the buffer and stream models
//! and proved once and for all: what a sequence of pulls delivers, that
//! delivery is ordered and gapless, that readers are independent of one
//! another, that a stale buffer ends a caught-up stream, that completion
//! never truncates data a stream has not read yet, and that a terminated
//! stream never revives.

use vstd::prelude::*;
use crate::file::{FileModel, StreamModel};

verus! {

/// The stream state after `n` pulls from state `s`, against a buffer held
/// in state `f` and a clock held at `now`. Each pull steps exactly as
/// `FileStream::poll_next` promises, via `StreamModel::step`.
pub open spec fn stream_run(f: FileModel, s: StreamModel, now: u64, timeout: u64, n: nat)
    -> StreamModel
    decreases n,
{
    if n == 0 {
        s
    } else {
        stream_run(f, s.step(f, now, timeout), now, timeout, (n - 1) as nat)
    }
}

/// The chunks that `n` pulls deliver to a stream in state `s`, against a
/// buffer held in state `f` and a clock held at `now`. A pull delivers a
/// chunk exactly when the stream is not terminated and its cursor is behind
/// the buffer — again mirroring the contract of `FileStream::poll_next`.
pub open spec fn stream_outputs(f: FileModel, s: StreamModel, now: u64, timeout: u64, n: nat)
    -> Seq<Seq<u8>>
    decreases n,
{
    if n == 0 {
        Seq::<Seq<u8>>::empty()
    } else {
        let emitted = if !s.done && 0 <= s.index < f.chunks.len() {
            seq![f.chunks[s.index]]
        } else {
            Seq::<Seq<u8>>::empty()
        };
        emitted + stream_outputs(f, s.step(f, now, timeout), now, timeout, (n - 1) as nat)
    }
}

/// No revival: a terminated stream is a fixed point. However often it is
/// pulled, and whatever the buffer holds — including chunks appended after
/// the stream was declared finished — its state never changes and it never
/// delivers another chunk. Since this holds for every buffer state and
/// every clock reading, it holds for every possible future.
pub proof fn lemma_no_revival(f: FileModel, s: StreamModel, now: u64, timeout: u64, n: nat)
    requires
        s.done,
    ensures
        stream_run(f, s, now, timeout, n) == s,
        stream_outputs(f, s, now, timeout, n) == Seq::<Seq<u8>>::empty(),
    decreases n,
{
    if n > 0 {
        lemma_no_revival(f, s, now, timeout, (n - 1) as nat);
        assert(stream_outputs(f, s, now, timeout, n) =~= Seq::<Seq<u8>>::empty());
    }
}

/// Order preservation, gapless and exactly-once delivery: `n` pulls on a
/// live stream deliver precisely the contiguous run of chunks starting at
/// its cursor, in append order, cut off only by the number of pulls or the
/// end of the buffer. In particular, for any `i < j`, chunk `i` is
/// delivered strictly before chunk `j`, and no chunk is skipped or
/// repeated.
pub proof fn lemma_order_preservation(f: FileModel, s: StreamModel, now: u64, timeout: u64, n: nat)
    requires
        !s.done,
        0 <= s.index <= f.chunks.len(),
    ensures
        stream_outputs(f, s, now, timeout, n) == f.chunks.subrange(
            s.index,
            if s.index + n <= f.chunks.len() {
                s.index + n
            } else {
                f.chunks.len() as int
            },
        ),
    decreases n,
{
    let end = if s.index + n <= f.chunks.len() {
        s.index + n
    } else {
        f.chunks.len() as int
    };
    if n == 0 {
        assert(stream_outputs(f, s, now, timeout, n) =~= f.chunks.subrange(s.index, end));
    } else if s.index < f.chunks.len() {
        lemma_order_preservation(f, s.step(f, now, timeout), now, timeout, (n - 1) as nat);
        assert(stream_outputs(f, s, now, timeout, n) =~= f.chunks.subrange(s.index, end));
    } else {
        let s1 = s.step(f, now, timeout);
        if s1.done {
            lemma_no_revival(f, s1, now, timeout, (n - 1) as nat);
        } else {
            lemma_order_preservation(f, s1, now, timeout, (n - 1) as nat);
        }
        assert(stream_outputs(f, s, now, timeout, n) =~= f.chunks.subrange(s.index, end));
    }
}

/// Multi-reader independence: what a stream delivers depends only on its
/// own state and pull count, never on any other stream. Two live streams
/// over the same buffer, with cursors at different positions, each observe
/// the full ordered run of chunks from their own cursor on.
pub proof fn lemma_multi_reader_independence(
    f: FileModel,
    s1: StreamModel,
    n1: nat,
    s2: StreamModel,
    n2: nat,
    now: u64,
    timeout: u64,
)
    requires
        !s1.done,
        !s2.done,
        0 <= s1.index <= f.chunks.len(),
        0 <= s2.index <= f.chunks.len(),
    ensures
        stream_outputs(f, s1, now, timeout, n1) == f.chunks.subrange(
            s1.index,
            if s1.index + n1 <= f.chunks.len() {
                s1.index + n1
            } else {
                f.chunks.len() as int
            },
        ),
        stream_outputs(f, s2, now, timeout, n2) == f.chunks.subrange(
            s2.index,
            if s2.index + n2 <= f.chunks.len() {
                s2.index + n2
            } else {
                f.chunks.len() as int
            },
        ),
{
    lemma_order_preservation(f, s1, now, timeout, n1);
    lemma_order_preservation(f, s2, now, timeout, n2);
}

/// Stale termination: once a buffer is stale — complete, or quiet for
/// longer than the timeout — a caught-up stream delivers nothing more, and
/// its very next pull leaves it terminated. This holds in particular for a
/// buffer that never received any chunk.
pub proof fn lemma_stale_termination(
    f: FileModel,
    s: StreamModel,
    now: u64,
    timeout: u64,
    n: nat,
)
    requires
        s.index >= f.chunks.len(),
        f.is_stale(now, timeout),
    ensures
        stream_outputs(f, s, now, timeout, n) == Seq::<Seq<u8>>::empty(),
        n >= 1 ==> stream_run(f, s, now, timeout, n).done,
{
    if s.done {
        lemma_no_revival(f, s, now, timeout, n);
    } else if n >= 1 {
        let s1 = s.step(f, now, timeout);
        lemma_no_revival(f, s1, now, timeout, (n - 1) as nat);
        assert(stream_outputs(f, s, now, timeout, n) =~= Seq::<Seq<u8>>::empty());
    } else {
        assert(stream_outputs(f, s, now, timeout, n) =~= Seq::<Seq<u8>>::empty());
    }
}

/// Running a stream `a + b` pulls is running it `a` pulls and then `b`
/// more.
proof fn lemma_run_add(f: FileModel, s: StreamModel, now: u64, timeout: u64, a: nat, b: nat)
    ensures
        stream_run(f, s, now, timeout, a + b) == stream_run(
            f,
            stream_run(f, s, now, timeout, a),
            now,
            timeout,
            b,
        ),
    decreases a,
{
    if a > 0 {
        lemma_run_add(f, s.step(f, now, timeout), now, timeout, (a - 1) as nat, b);
    }
}

/// While a live stream is behind the buffer, every pull delivers, so `n`
/// pulls move the cursor forward exactly `n` chunks.
proof fn lemma_run_emitting(f: FileModel, s: StreamModel, now: u64, timeout: u64, n: nat)
    requires
        !s.done,
        0 <= s.index,
        s.index + n <= f.chunks.len(),
    ensures
        stream_run(f, s, now, timeout, n) == (StreamModel {
            file_id: s.file_id,
            index: s.index + n,
            done: false,
        }),
    decreases n,
{
    if n > 0 {
        lemma_run_emitting(f, s.step(f, now, timeout), now, timeout, (n - 1) as nat);
    }
}

/// Explicit completion with data still pending does not truncate: a live
/// stream whose cursor is behind a complete buffer is still delivered every
/// remaining chunk, in order, given enough pulls — and only after the last
/// of them does it terminate.
pub proof fn lemma_complete_delivers_all(
    f: FileModel,
    s: StreamModel,
    now: u64,
    timeout: u64,
    n: nat,
)
    requires
        !s.done,
        0 <= s.index <= f.chunks.len(),
        f.complete,
        n >= f.chunks.len() - s.index,
    ensures
        stream_outputs(f, s, now, timeout, n) == f.chunks.subrange(
            s.index,
            f.chunks.len() as int,
        ),
        n > f.chunks.len() - s.index ==> stream_run(f, s, now, timeout, n).done,
{
    lemma_order_preservation(f, s, now, timeout, n);
    if n > f.chunks.len() - s.index {
        let k = (f.chunks.len() - s.index) as nat;
        lemma_run_emitting(f, s, now, timeout, k);
        let mid = stream_run(f, s, now, timeout, k);
        lemma_run_add(f, s, now, timeout, k, (n - k) as nat);
        lemma_stale_termination(f, mid, now, timeout, (n - k) as nat);
    }
}

/// Replacement isolation: `StorageObject::new_file` only ever appends to
/// the buffer arena, so after a name is re-registered, every identifier
/// handed out before still denotes the very same buffer. A stream tailing
/// a replaced buffer reads unchanged data, while new lookups see only the
/// fresh buffer.
pub proof fn lemma_replacement_isolation(before: Seq<FileModel>, fresh: FileModel, i: int)
    requires
        0 <= i < before.len(),
    ensures
        before.push(fresh)[i] == before[i],
{
}

/// Round trip: a fresh stream pulled at least as often as there are chunks
/// is delivered the whole buffer, so the concatenation of what it delivers
/// is exactly the concatenation of what was appended — no reordering,
/// duplication, or loss.
pub proof fn lemma_round_trip(f: FileModel, s: StreamModel, now: u64, timeout: u64, n: nat)
    requires
        !s.done,
        s.index == 0,
        n >= f.chunks.len(),
    ensures
        stream_outputs(f, s, now, timeout, n) == f.chunks,
        stream_outputs(f, s, now, timeout, n).flatten() == f.chunks.flatten(),
{
    lemma_order_preservation(f, s, now, timeout, n);
    assert(f.chunks.subrange(0, f.chunks.len() as int) =~= f.chunks);
}

} // verus!
