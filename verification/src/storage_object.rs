//! The object registry: the name-to-buffer directory shared by every
//! request. It supports create-or-replace, lookup, and delete. Buffers are
//! kept in an append-only arena and addressed by a stable identifier, so a
//! buffer replaced or deleted in the directory stays readable for every
//! stream that already holds its identifier.

use vstd::prelude::*;
use crate::file::{File, FileModel, FileStream, StreamPoll};

verus! {

/// The identifier the directory currently maps `name` to, scanning the
/// registration list from the most recent entry backwards, so that the
/// newest registration of a name always wins.
pub open spec fn assoc_lookup(s: Seq<(String, usize)>, name: Seq<char>) -> Option<int>
    decreases s.len(),
{
    if s.len() == 0 {
        None
    } else if s.last().0@ == name {
        Some(s.last().1 as int)
    } else {
        assoc_lookup(s.drop_last(), name)
    }
}

/// The registration list with every entry for `name` removed, other entries
/// kept in order.
pub open spec fn assoc_remove(s: Seq<(String, usize)>, name: Seq<char>) -> Seq<(String, usize)>
    decreases s.len(),
{
    if s.len() == 0 {
        Seq::<(String, usize)>::empty()
    } else if s.last().0@ == name {
        assoc_remove(s.drop_last(), name)
    } else {
        assoc_remove(s.drop_last(), name).push(s.last())
    }
}

/// Removing a name unmaps exactly that name and leaves every other name's
/// mapping as it was.
proof fn lemma_assoc_remove(s: Seq<(String, usize)>, name: Seq<char>, n: Seq<char>)
    ensures
        n == name ==> assoc_lookup(assoc_remove(s, name), n) is None,
        n != name ==> assoc_lookup(assoc_remove(s, name), n) == assoc_lookup(s, n),
    decreases s.len(),
{
    if s.len() > 0 {
        lemma_assoc_remove(s.drop_last(), name, n);
        if s.last().0@ != name {
            let t = assoc_remove(s.drop_last(), name).push(s.last());
            assert(t.drop_last() =~= assoc_remove(s.drop_last(), name));
        }
    }
}

/// A successful lookup always yields an identifier that stands somewhere in
/// the registration list.
proof fn lemma_assoc_lookup_in(s: Seq<(String, usize)>, name: Seq<char>)
    ensures
        assoc_lookup(s, name) matches Some(id) ==> exists|i: int|
            0 <= i < s.len() && (#[trigger] s[i]).1 as int == id,
    decreases s.len(),
{
    if s.len() > 0 && s.last().0@ != name {
        lemma_assoc_lookup_in(s.drop_last(), name);
        if assoc_lookup(s, name) is Some {
            let i = choose|i: int|
                0 <= i < s.drop_last().len() && (#[trigger] s.drop_last()[i]).1 as int
                    == assoc_lookup(s, name)->0;
            assert(s[i] == s.drop_last()[i]);
        }
    }
}

/// The name-to-buffer directory. Every buffer ever created lives in the
/// `entries` arena at a stable index; `names` records registrations in
/// order, and lookup takes the most recent one for a name. A replaced or
/// deleted buffer thus stays valid for streams already holding its index,
/// while new lookups see only the current mapping.
pub struct StorageObject {
    entries: Vec<File>,
    names: Vec<(String, usize)>,
}

impl StorageObject {
    /// Every registered identifier points into the arena.
    pub closed spec fn wf(&self) -> bool {
        forall|i: int|
            0 <= i < self.names@.len() ==> (#[trigger] self.names@[i]).1 < self.entries@.len()
    }

    /// The models of all buffers ever created, in creation order; a buffer's
    /// identifier is its index here.
    pub closed spec fn buffers(&self) -> Seq<FileModel> {
        self.entries.deep_view()
    }

    /// The identifier the directory currently maps `name` to, if any.
    pub closed spec fn spec_lookup(&self, name: Seq<char>) -> Option<int> {
        assoc_lookup(self.names@, name)
    }

    /// An empty registry: no buffers, every name unmapped.
    pub fn new() -> (r: StorageObject)
        ensures
            r.wf(),
            r.buffers() == Seq::<FileModel>::empty(),
            forall|n: Seq<char>| r.spec_lookup(n) is None,
    {
        let r = StorageObject { entries: Vec::new(), names: Vec::new() };
        proof {
            assert(r.buffers() =~= Seq::<FileModel>::empty());
        }
        r
    }

    /// Creates a fresh, empty buffer and maps `filename` to it, discarding
    /// any previous mapping for that name. Every buffer created before keeps
    /// its identifier and its contents, so streams over a replaced buffer
    /// are unaffected. Returns the new buffer's identifier.
    pub fn new_file(&mut self, filename: String, now: u64) -> (id: usize)
        requires
            old(self).wf(),
        ensures
            final(self).wf(),
            id == old(self).buffers().len(),
            final(self).buffers() == old(self).buffers().push(
                FileModel { chunks: Seq::<Seq<u8>>::empty(), complete: false, last_update: now },
            ),
            final(self).spec_lookup(filename@) == Some(id as int),
            forall|n: Seq<char>|
                n != filename@ ==> final(self).spec_lookup(n) == old(self).spec_lookup(n),
    {
        let id = self.entries.len();
        self.entries.push(File::new(now));
        self.names.push((filename, id));
        proof {
            assert(self.buffers() =~~= old(self).buffers().push(
                FileModel { chunks: Seq::<Seq<u8>>::empty(), complete: false, last_update: now },
            ));
            assert(self.names@.drop_last() =~= old(self).names@);
            assert(forall|n: Seq<char>|
                n != filename@ ==> self.spec_lookup(n) == old(self).spec_lookup(n));
        }
        id
    }

    /// The identifier currently registered for `filename`, if any. A
    /// returned identifier is always a valid arena index, so it can be
    /// handed straight to `file_ref`, `push_chunk` or `complete_file`.
    pub fn lookup(&self, filename: &String) -> (r: Option<usize>)
        requires
            self.wf(),
        ensures
            r matches Some(id) ==> {
                &&& self.spec_lookup(filename@) == Some(id as int)
                &&& id < self.buffers().len()
            },
            r is None ==> self.spec_lookup(filename@) is None,
    {
        proof {
            assert(self.names@.take(self.names@.len() as int) =~= self.names@);
        }
        let mut i: usize = self.names.len();
        while i > 0
            invariant
                self.wf(),
                i <= self.names@.len(),
                assoc_lookup(self.names@, filename@) == assoc_lookup(
                    self.names@.take(i as int),
                    filename@,
                ),
            decreases i,
        {
            i = i - 1;
            proof {
                assert(self.names@.take(i as int + 1).drop_last() =~= self.names@.take(i as int));
                assert(self.names@.take(i as int + 1).last() == self.names@[i as int]);
            }
            if self.names[i].0 == *filename {
                proof {
                    lemma_assoc_lookup_in(self.names@, filename@);
                }
                return Some(self.names[i].1);
            }
        }
        proof {
            assert(self.names@.take(0) =~= Seq::<(String, usize)>::empty());
        }
        None
    }

    /// Looks `filename` up and, when mapped, hands out a fresh stream over
    /// its current buffer, positioned before the first chunk and not
    /// terminated. Returns `None` exactly when the name is unmapped.
    pub fn get_filestream(&self, filename: &String) -> (r: Option<FileStream>)
        requires
            self.wf(),
        ensures
            r is Some <==> self.spec_lookup(filename@) is Some,
            r matches Some(st) ==> {
                &&& st@.index == 0
                &&& !st@.done
                &&& Some(st@.file_id) == self.spec_lookup(filename@)
                &&& 0 <= st@.file_id < self.buffers().len()
            },
    {
        match self.lookup(filename) {
            Some(id) => Some(FileStream::new(id)),
            None => None,
        }
    }

    /// Removes the mapping for `filename`. Returns `Err` exactly when the
    /// name was not mapped. The buffers themselves are untouched: streams
    /// already holding an identifier keep reading the same data.
    pub fn delete_file(&mut self, filename: &String) -> (r: Result<(), ()>)
        requires
            old(self).wf(),
        ensures
            final(self).wf(),
            final(self).buffers() == old(self).buffers(),
            final(self).spec_lookup(filename@) is None,
            forall|n: Seq<char>|
                n != filename@ ==> final(self).spec_lookup(n) == old(self).spec_lookup(n),
            r is Ok <==> old(self).spec_lookup(filename@) is Some,
    {
        let found = self.lookup(filename).is_some();
        let mut kept: Vec<(String, usize)> = Vec::new();
        let mut i: usize = 0;
        while i < self.names.len()
            invariant
                old(self).wf(),
                i <= self.names@.len(),
                self.names@ == old(self).names@,
                self.entries@ == old(self).entries@,
                kept@ == assoc_remove(self.names@.take(i as int), filename@),
                forall|j: int|
                    0 <= j < kept@.len() ==> (#[trigger] kept@[j]).1 < self.entries@.len(),
            decreases self.names@.len() - i,
        {
            proof {
                assert(self.names@.take(i as int + 1).drop_last() =~= self.names@.take(i as int));
                assert(self.names@.take(i as int + 1).last() == self.names@[i as int]);
            }
            let name_i = self.names[i].0.clone();
            let id_i = self.names[i].1;
            if !(name_i == *filename) {
                kept.push((name_i, id_i));
                proof {
                    assert((name_i, id_i) == self.names@[i as int]);
                }
            }
            i = i + 1;
        }
        proof {
            assert(self.names@.take(self.names@.len() as int) =~= self.names@);
        }
        self.names = kept;
        proof {
            let orig = old(self).names@;
            assert forall|n: Seq<char>| true implies {
                &&& (n == filename@ ==> assoc_lookup(assoc_remove(orig, filename@), n) is None)
                &&& (n != filename@ ==> assoc_lookup(assoc_remove(orig, filename@), n)
                    == assoc_lookup(orig, n))
            } by {
                lemma_assoc_remove(orig, filename@, n);
            }
        }
        if found {
            Ok(())
        } else {
            Err(())
        }
    }

    /// How many buffers have ever been created. Identifiers below this
    /// count are valid forever: the arena never shrinks.
    pub fn buffer_count(&self) -> (r: usize)
        ensures
            r == self.buffers().len(),
    {
        self.entries.len()
    }

    /// A shared view of the buffer with identifier `id`, for reading.
    pub fn file_ref(&self, id: usize) -> (r: &File)
        requires
            id < self.buffers().len(),
        ensures
            r@ == self.buffers()[id as int],
    {
        &self.entries[id]
    }

    /// Appends `chunk` to the buffer with identifier `id`, stamping it with
    /// `now`. Every other buffer and every mapping is left as it was. The
    /// caller's clock must not run backwards for this buffer, so its
    /// `last_update` is non-decreasing.
    pub fn push_chunk(&mut self, id: usize, chunk: Vec<u8>, now: u64)
        requires
            old(self).wf(),
            id < old(self).buffers().len(),
            now >= old(self).buffers()[id as int].last_update,
        ensures
            final(self).wf(),
            final(self).buffers() == old(self).buffers().update(
                id as int,
                FileModel {
                    chunks: old(self).buffers()[id as int].chunks.push(chunk@),
                    complete: old(self).buffers()[id as int].complete,
                    last_update: now,
                },
            ),
            forall|n: Seq<char>| final(self).spec_lookup(n) == old(self).spec_lookup(n),
    {
        let f = &mut self.entries[id];
        f.push(chunk, now);
        proof {
            assert(self.buffers() =~~= old(self).buffers().update(
                id as int,
                FileModel {
                    chunks: old(self).buffers()[id as int].chunks.push(chunk@),
                    complete: old(self).buffers()[id as int].complete,
                    last_update: now,
                },
            ));
        }
    }

    /// Marks the buffer with identifier `id` complete. Idempotent; nothing
    /// else changes.
    pub fn complete_file(&mut self, id: usize)
        requires
            old(self).wf(),
            id < old(self).buffers().len(),
        ensures
            final(self).wf(),
            final(self).buffers() == old(self).buffers().update(
                id as int,
                FileModel {
                    chunks: old(self).buffers()[id as int].chunks,
                    complete: true,
                    last_update: old(self).buffers()[id as int].last_update,
                },
            ),
            forall|n: Seq<char>| final(self).spec_lookup(n) == old(self).spec_lookup(n),
    {
        let f = &mut self.entries[id];
        f.set_as_complete();
        proof {
            assert(self.buffers() =~~= old(self).buffers().update(
                id as int,
                FileModel {
                    chunks: old(self).buffers()[id as int].chunks,
                    complete: true,
                    last_update: old(self).buffers()[id as int].last_update,
                },
            ));
        }
    }

    /// One pull of `stream` against the current state of its buffer: the
    /// next chunk in order, a request to retry later, or the end of the
    /// stream once it has caught up and the buffer is stale at `now`. A
    /// stream that has terminated stays terminated and answers `Finished`
    /// forever, whatever its buffer now holds.
    pub fn poll_stream(&self, stream: &mut FileStream, now: u64, timeout: u64) -> (r: StreamPoll)
        requires
            self.wf(),
            0 <= old(stream)@.file_id < self.buffers().len(),
        ensures
            ({
                let f = self.buffers()[old(stream)@.file_id];
                &&& final(stream)@ == old(stream)@.step(f, now, timeout)
                &&& old(stream)@.done ==> r == StreamPoll::Finished
                &&& !old(stream)@.done && old(stream)@.index < f.chunks.len() ==> (r matches
                StreamPoll::Chunk(c) && c@ == f.chunks[old(stream)@.index])
                &&& !old(stream)@.done && old(stream)@.index >= f.chunks.len() ==> r == (
                if f.is_stale(now, timeout) {
                    StreamPoll::Finished
                } else {
                    StreamPoll::Pending
                })
            }),
    {
        let id = stream.file_id();
        let f = self.file_ref(id);
        stream.poll_next(f, now, timeout)
    }
}

} // verus!
