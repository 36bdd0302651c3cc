//! One file of the store, as those see it who read it while it is written.
//!
//! A file is replaced through a handle: `Create` opens one, `Write` hands it
//! bytes, and only `Release` puts what was written in the place of the
//! file. A reader therefore finds the bytes of a write that was completed,
//! or no file, and never the first part of a write that is under way.

use crate::digest::{digest_of, digest_view, md5_digest, Digest};
use vstd::prelude::*;

verus! {

/// What is done to one file.
pub enum FileOp {
    /// Open a handle to write the file anew.
    Create,
    /// Hand these bytes to the open handle.
    Write(Seq<u8>),
    /// Close the handle: what was written becomes the file.
    Release,
    /// Remove the file, if it is there.
    Remove,
}

/// One file: what a reader finds, and what the open handle holds so far.
pub struct Slot {
    /// The bytes of the file, or `None` where there is no file.
    pub content: Option<Seq<u8>>,
    /// The bytes written through the open handle, or `None` where no handle
    /// is open.
    pub pending: Option<Seq<u8>>,
}

impl Slot {
    /// No file, and no open handle.
    pub open spec fn vacant() -> Slot {
        Slot { content: None, pending: None }
    }

    /// The file after `op`. Writing and releasing without an open handle
    /// change nothing.
    pub open spec fn apply(self, op: FileOp) -> Slot {
        match op {
            FileOp::Create => Slot { content: self.content, pending: Some(Seq::empty()) },
            FileOp::Write(chunk) => match self.pending {
                Some(written) => Slot { content: self.content, pending: Some(written + chunk) },
                None => self,
            },
            FileOp::Release => match self.pending {
                Some(written) => Slot { content: Some(written), pending: None },
                None => self,
            },
            FileOp::Remove => Slot { content: None, pending: self.pending },
        }
    }

    /// The hash that a reader computes, or `None` where there is no file.
    pub open spec fn hash(self) -> Option<Seq<u8>> {
        match self.content {
            Some(bytes) => Some(md5_digest(bytes)),
            None => None,
        }
    }
}

/// The file after `ops`, where there was none before them.
pub open spec fn slot_after(ops: Seq<FileOp>) -> Slot
    decreases ops.len(),
{
    if ops.len() == 0 {
        Slot::vacant()
    } else {
        slot_after(ops.drop_last()).apply(ops.last())
    }
}

/// The bytes that the writes among `ops[from..to]` hand over, in order.
pub open spec fn written_in(ops: Seq<FileOp>, from: int, to: int) -> Seq<u8>
    decreases to - from,
{
    if to <= from {
        Seq::empty()
    } else {
        written_in(ops, from, to - 1) + match ops[to - 1] {
            FileOp::Write(chunk) => chunk,
            _ => Seq::empty(),
        }
    }
}

/// Whether `op` leaves the handle as it is.
pub open spec fn keeps_handle(op: FileOp) -> bool {
    op is Write || op is Remove
}

/// Whether the handle that `ops[start]` opened is still open after `ops`.
pub open spec fn open_write(ops: Seq<FileOp>, start: int) -> bool {
    &&& 0 <= start < ops.len()
    &&& ops[start] is Create
    &&& forall|k: int| start < k < ops.len() ==> keeps_handle(#[trigger] ops[k])
}

/// Whether `ops[end]` closes the handle that `ops[start]` opened: a write
/// that was completed.
pub open spec fn complete_write(ops: Seq<FileOp>, start: int, end: int) -> bool {
    &&& 0 <= start < end < ops.len()
    &&& ops[start] is Create
    &&& ops[end] is Release
    &&& forall|k: int| start < k < end ==> keeps_handle(#[trigger] ops[k])
}

/// Whether `ops[at]` completes a write.
pub open spec fn completes(ops: Seq<FileOp>, at: int) -> bool {
    exists|start: int| complete_write(ops, start, at)
}

/// Whether `ops[at]` decides what a reader finds: it removes the file or
/// completes a write.
pub open spec fn settles(ops: Seq<FileOp>, at: int) -> bool {
    ops[at] is Remove || completes(ops, at)
}

/// Whether the file is what the write from `start` to `end` made it:
/// nothing after it has removed or replaced the file.
pub open spec fn latest_write(ops: Seq<FileOp>, start: int, end: int) -> bool {
    &&& complete_write(ops, start, end)
    &&& forall|k: int| end < k < ops.len() ==> !#[trigger] settles(ops, k)
}

/// Whether every completed write was followed by a removal.
pub open spec fn all_removed(ops: Seq<FileOp>) -> bool {
    forall|at: int|
        0 <= at < ops.len() && #[trigger] completes(ops, at) ==> exists|later: int|
            at < later < ops.len() && (#[trigger] ops[later]) is Remove
}

/// What holds of the file after `ops`.
pub open spec fn slot_explained(ops: Seq<FileOp>) -> bool {
    let slot = slot_after(ops);
    &&& match slot.pending {
        Some(written) => exists|start: int|
            #[trigger] open_write(ops, start) && written == written_in(
                ops,
                start + 1,
                ops.len() as int,
            ),
        None => forall|start: int| !#[trigger] open_write(ops, start),
    }
    &&& match slot.content {
        Some(bytes) => exists|start: int, end: int|
            #[trigger] latest_write(ops, start, end) && bytes == written_in(ops, start + 1, end),
        None => all_removed(ops),
    }
}

proof fn lemma_written_prefix(ops: Seq<FileOp>, from: int, to: int)
    requires
        ops.len() > 0,
        0 <= from,
        to < ops.len(),
    ensures
        written_in(ops, from, to) == written_in(ops.drop_last(), from, to),
    decreases to - from,
{
    if to > from {
        lemma_written_prefix(ops, from, to - 1);
        assert(ops[to - 1] == ops.drop_last()[to - 1]);
    }
}

proof fn lemma_complete_prefix(ops: Seq<FileOp>, start: int, end: int)
    requires
        ops.len() > 0,
        end < ops.len() - 1,
    ensures
        complete_write(ops, start, end) == complete_write(ops.drop_last(), start, end),
{
    let earlier = ops.drop_last();
    if complete_write(ops, start, end) {
        assert forall|k: int| start < k < end implies keeps_handle(#[trigger] earlier[k]) by {
            assert(keeps_handle(ops[k]));
        }
    }
    if complete_write(earlier, start, end) {
        assert forall|k: int| start < k < end implies keeps_handle(#[trigger] ops[k]) by {
            assert(keeps_handle(earlier[k]));
        }
    }
}

proof fn lemma_completes_prefix(ops: Seq<FileOp>, at: int)
    requires
        ops.len() > 0,
        at < ops.len() - 1,
    ensures
        completes(ops, at) == completes(ops.drop_last(), at),
{
    let earlier = ops.drop_last();
    if completes(ops, at) {
        let start = choose|start: int| complete_write(ops, start, at);
        lemma_complete_prefix(ops, start, at);
    }
    if completes(earlier, at) {
        let start = choose|start: int| complete_write(earlier, start, at);
        lemma_complete_prefix(ops, start, at);
    }
}

proof fn lemma_open_prefix(ops: Seq<FileOp>, start: int)
    requires
        ops.len() > 0,
        start < ops.len() - 1,
    ensures
        open_write(ops, start) == (open_write(ops.drop_last(), start) && keeps_handle(ops.last())),
{
    let earlier = ops.drop_last();
    if open_write(ops, start) {
        assert forall|k: int| start < k < earlier.len() implies keeps_handle(
            #[trigger] earlier[k],
        ) by {
            assert(keeps_handle(ops[k]));
        }
        assert(keeps_handle(ops[ops.len() - 1]));
    }
    if open_write(earlier, start) && keeps_handle(ops.last()) {
        assert forall|k: int| start < k < ops.len() implies keeps_handle(#[trigger] ops[k]) by {
            if k < earlier.len() {
                assert(keeps_handle(earlier[k]));
            }
        }
    }
}

proof fn lemma_release_completes(ops: Seq<FileOp>, start: int)
    requires
        ops.len() > 0,
        ops.last() is Release,
    ensures
        complete_write(ops, start, ops.len() - 1) == open_write(ops.drop_last(), start),
{
    let earlier = ops.drop_last();
    if complete_write(ops, start, ops.len() - 1) {
        assert forall|k: int| start < k < earlier.len() implies keeps_handle(
            #[trigger] earlier[k],
        ) by {
            assert(keeps_handle(ops[k]));
        }
    }
    if open_write(earlier, start) {
        assert forall|k: int| start < k < ops.len() - 1 implies keeps_handle(#[trigger] ops[k]) by {
            assert(keeps_handle(earlier[k]));
        }
    }
}

/// The handle stays explained by one more operation.
proof fn lemma_pending_explained(ops: Seq<FileOp>)
    requires
        ops.len() > 0,
        slot_explained(ops.drop_last()),
    ensures
        match slot_after(ops).pending {
            Some(written) => exists|start: int|
                #[trigger] open_write(ops, start) && written == written_in(
                    ops,
                    start + 1,
                    ops.len() as int,
                ),
            None => forall|start: int| !#[trigger] open_write(ops, start),
        },
{
    let earlier = ops.drop_last();
    let before = slot_after(earlier);
    let last = ops.len() - 1;
    match slot_after(ops).pending {
        Some(written) => {
            if ops.last() is Create {
                assert(open_write(ops, last));
                assert(written =~= written_in(ops, last + 1, ops.len() as int));
            } else {
                let start = choose|start: int|
                    #[trigger] open_write(earlier, start) && before.pending == Some(
                        written_in(earlier, start + 1, earlier.len() as int),
                    );
                lemma_open_prefix(ops, start);
                lemma_written_prefix(ops, start + 1, last);
                assert(written =~= written_in(ops, start + 1, ops.len() as int));
            }
        },
        None => {
            assert forall|start: int| !#[trigger] open_write(ops, start) by {
                if start < last {
                    lemma_open_prefix(ops, start);
                }
            }
        },
    }
}

/// After any operations on a file that was not there before them, a reader
/// finds exactly the bytes of the last write that was completed, all of
/// them, unless the file was removed since or no write was ever completed:
/// then it finds no file. A write that is under way does not show.
pub proof fn lemma_reader_finds_complete_writes(ops: Seq<FileOp>)
    ensures
        slot_explained(ops),
        match slot_after(ops).hash() {
            Some(hash) => exists|start: int, end: int|
                #[trigger] latest_write(ops, start, end) && hash == md5_digest(
                    written_in(ops, start + 1, end),
                ),
            None => all_removed(ops),
        },
        ops.len() == 0 || ops.last() is Remove ==> slot_after(ops).hash() is None,
    decreases ops.len(),
{
    if ops.len() > 0 {
        let earlier = ops.drop_last();
        let before = slot_after(earlier);
        let last = ops.len() - 1;
        lemma_reader_finds_complete_writes(earlier);
        lemma_pending_explained(ops);
        assert forall|at: int| at < last implies completes(ops, at) == completes(earlier, at) by {
            lemma_completes_prefix(ops, at);
        }
        let released = ops.last() is Release && before.pending.is_some();
        if ops.last() is Release {
            assert forall|start: int|
                complete_write(ops, start, last) == open_write(earlier, start) by {
                lemma_release_completes(ops, start);
            }
        }
        assert(completes(ops, last) == released) by {
            if released {
                let start = choose|start: int| #[trigger] open_write(earlier, start);
                assert(complete_write(ops, start, last));
            }
            if completes(ops, last) {
                let start = choose|start: int| complete_write(ops, start, last);
                assert(open_write(earlier, start));
            }
        }
        match slot_after(ops).content {
            Some(bytes) => {
                if released {
                    let start = choose|start: int|
                        #[trigger] open_write(earlier, start) && before.pending == Some(
                            written_in(earlier, start + 1, earlier.len() as int),
                        );
                    lemma_written_prefix(ops, start + 1, last);
                    assert(complete_write(ops, start, last));
                    assert(latest_write(ops, start, last));
                } else {
                    let (start, end) = choose|start: int, end: int|
                        #[trigger] latest_write(earlier, start, end) && before.content == Some(
                            written_in(earlier, start + 1, end),
                        );
                    lemma_complete_prefix(ops, start, end);
                    lemma_written_prefix(ops, start + 1, end);
                    assert forall|k: int| end < k < ops.len() implies !#[trigger] settles(
                        ops,
                        k,
                    ) by {
                        if k < last {
                            assert(!settles(earlier, k));
                        }
                    }
                    assert(latest_write(ops, start, end));
                }
            },
            None => {
                assert forall|at: int| 0 <= at < ops.len() && #[trigger] completes(
                    ops,
                    at,
                ) implies exists|later: int|
                    at < later < ops.len() && (#[trigger] ops[later]) is Remove by {
                    if ops.last() is Remove {
                        assert(ops[last] is Remove);
                    } else {
                        assert(at < last);
                        assert(completes(earlier, at));
                        let later = choose|later: int|
                            at < later < earlier.len() && (#[trigger] earlier[later]) is Remove;
                        assert(ops[later] is Remove);
                    }
                }
            },
        }
    }
}

/// Replacing a file through a handle shows nothing of the new bytes until
/// the handle is released: up to then a reader finds what it found before,
/// and from then on the new bytes, all of them.
pub proof fn lemma_replaced_in_one_piece(slot: Slot, bytes: Seq<u8>)
    ensures
        slot.apply(FileOp::Create).content == slot.content,
        slot.apply(FileOp::Create).apply(FileOp::Write(bytes)).content == slot.content,
        slot.apply(FileOp::Create).apply(FileOp::Write(bytes)).apply(FileOp::Release).content
            == Some(bytes),
{
    assert(Seq::<u8>::empty() + bytes =~= bytes);
}

/// A file held in memory that is read and written as a file of the store
/// is: for trying a run where there is no disk.
pub struct MemoryFile {
    content: Option<Vec<u8>>,
    pending: Option<Vec<u8>>,
}

/// Bytes that may be missing, as mathematics sees them.
pub open spec fn bytes_view(bytes: Option<Vec<u8>>) -> Option<Seq<u8>> {
    match bytes {
        Some(held) => Some(held@),
        None => None,
    }
}

impl View for MemoryFile {
    type V = Slot;

    closed spec fn view(&self) -> Slot {
        Slot { content: bytes_view(self.content), pending: bytes_view(self.pending) }
    }
}

impl MemoryFile {
    /// No file, and no open handle.
    pub fn new() -> (file: MemoryFile)
        ensures
            file@ == Slot::vacant(),
    {
        MemoryFile { content: None, pending: None }
    }

    /// Opens a handle to write the file anew.
    pub fn create(&mut self)
        ensures
            final(self)@ == old(self)@.apply(FileOp::Create),
    {
        self.pending = Some(Vec::new());
    }

    /// Hands `chunk` to the open handle. Without one, nothing is done.
    pub fn write(&mut self, chunk: &[u8])
        ensures
            final(self)@ == old(self)@.apply(FileOp::Write(chunk@)),
    {
        match self.pending.take() {
            Some(mut written) => {
                let ghost before = written@;
                written.extend_from_slice(chunk);
                assert(written@ =~= before + chunk@);
                self.pending = Some(written);
            },
            None => {},
        }
    }

    /// Closes the handle: what was written becomes the file. Without an
    /// open handle, nothing is done.
    pub fn release(&mut self)
        ensures
            final(self)@ == old(self)@.apply(FileOp::Release),
    {
        match self.pending.take() {
            Some(written) => {
                self.content = Some(written);
            },
            None => {},
        }
    }

    /// Removes the file, if it is there.
    pub fn remove(&mut self)
        ensures
            final(self)@ == old(self)@.apply(FileOp::Remove),
    {
        self.content = None;
    }

    /// The hash of the file, or `None` where there is no file.
    pub fn hash(&self) -> (hash: Option<Digest>)
        ensures
            digest_view(hash) == self@.hash(),
    {
        match &self.content {
            Some(bytes) => Some(digest_of(bytes.as_slice())),
            None => None,
        }
    }
}

} // verus!
