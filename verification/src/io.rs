//! What is written where: the buffer between an upload's chunks and its
//! file, and the entries of the archive made of a directory.

use crate::path::{relative_to, strip_root};
use vstd::prelude::*;

verus! {

/// Bytes that are gathered before they are written to a file: 1 MiB.
pub const WRITE_BUFFER_SIZE: usize = 1048576;

/// The permissions of every entry of an archive: `rwxr-xr-x`.
pub const ARCHIVE_PERMISSIONS: u32 = 493;

/// Gathers the chunks of an upload, so that a file is written in pieces of
/// at least `WRITE_BUFFER_SIZE` bytes, but for the last.
#[derive(Debug)]
pub struct WriteBuffer {
    /// What came in and was not handed out yet.
    pub pending: Vec<u8>,
}

/// What is handed out for writing when `chunk` comes in while `pending` is
/// held: everything, once it fills the buffer; nothing before that.
pub open spec fn flushed(pending: Seq<u8>, chunk: Seq<u8>) -> Option<Seq<u8>> {
    if pending.len() + chunk.len() >= WRITE_BUFFER_SIZE {
        Some(pending + chunk)
    } else {
        None
    }
}

/// What is held after `chunk` came in while `pending` was held.
pub open spec fn held(pending: Seq<u8>, chunk: Seq<u8>) -> Seq<u8> {
    if pending.len() + chunk.len() >= WRITE_BUFFER_SIZE {
        Seq::empty()
    } else {
        pending + chunk
    }
}

/// All that was handed out for writing after the first `n` chunks came in
/// to an empty buffer.
pub open spec fn written(chunks: Seq<Seq<u8>>, n: int) -> Seq<u8>
    decreases n,
{
    if n <= 0 {
        Seq::empty()
    } else {
        match flushed(pending(chunks, n - 1), chunks[n - 1]) {
            Some(out) => written(chunks, n - 1) + out,
            None => written(chunks, n - 1),
        }
    }
}

/// What is held after the first `n` chunks came in to an empty buffer.
pub open spec fn pending(chunks: Seq<Seq<u8>>, n: int) -> Seq<u8>
    decreases n,
{
    if n <= 0 {
        Seq::empty()
    } else {
        held(pending(chunks, n - 1), chunks[n - 1])
    }
}

/// The first `n` chunks, one after the other.
pub open spec fn joined_chunks(chunks: Seq<Seq<u8>>, n: int) -> Seq<u8>
    decreases n,
{
    if n <= 0 {
        Seq::empty()
    } else {
        joined_chunks(chunks, n - 1) + chunks[n - 1]
    }
}

/// No byte is lost or moved: what was handed out for writing, followed by
/// what is still held, is what came in. What is held never fills the
/// buffer.
pub proof fn lemma_nothing_lost(chunks: Seq<Seq<u8>>, n: int)
    requires
        0 <= n <= chunks.len(),
    ensures
        written(chunks, n) + pending(chunks, n) == joined_chunks(chunks, n),
        pending(chunks, n).len() < WRITE_BUFFER_SIZE,
    decreases n,
{
    if n > 0 {
        lemma_nothing_lost(chunks, n - 1);
        let w = written(chunks, n - 1);
        let p = pending(chunks, n - 1);
        let c = chunks[n - 1];
        assert(written(chunks, n) + pending(chunks, n) =~= (w + p) + c);
    } else {
        assert(written(chunks, n) + pending(chunks, n) =~= joined_chunks(chunks, n));
    }
}

impl WriteBuffer {
    /// An empty buffer.
    pub fn new() -> (b: WriteBuffer)
        ensures
            b.pending@.len() == 0,
    {
        WriteBuffer { pending: Vec::with_capacity(WRITE_BUFFER_SIZE) }
    }

    /// Takes a chunk in. Once the buffer holds `WRITE_BUFFER_SIZE` bytes or
    /// more, all of it comes back to be written and the buffer is empty
    /// again.
    pub fn push(&mut self, chunk: &[u8]) -> (out: Option<Vec<u8>>)
        ensures
            match out {
                Some(bytes) => flushed(old(self).pending@, chunk@) == Some(bytes@),
                None => flushed(old(self).pending@, chunk@) is None,
            },
            final(self).pending@ == held(old(self).pending@, chunk@),
    {
        let ghost before = self.pending@;
        self.pending.extend_from_slice(chunk);
        assert(self.pending@ =~= before + chunk@);
        if self.pending.len() >= WRITE_BUFFER_SIZE {
            let mut out: Vec<u8> = Vec::with_capacity(WRITE_BUFFER_SIZE);
            std::mem::swap(&mut self.pending, &mut out);
            Some(out)
        } else {
            None
        }
    }

    /// Ends the upload: what is still held comes back to be written, if
    /// there is anything.
    pub fn finish(self) -> (out: Option<Vec<u8>>)
        ensures
            match out {
                Some(bytes) => bytes@ == self.pending@ && bytes@.len() > 0,
                None => self.pending@.len() == 0,
            },
    {
        if self.pending.len() > 0 {
            Some(self.pending)
        } else {
            None
        }
    }
}

/// One thing that a walk through a directory came by.
#[derive(Debug)]
pub struct Walked {
    pub path: String,
    pub is_dir: bool,
}

/// What a walk came by, as the contracts see it.
pub struct WalkedView {
    pub path: Seq<char>,
    pub is_dir: bool,
}

impl View for Walked {
    type V = WalkedView;

    open spec fn view(&self) -> WalkedView {
        WalkedView { path: self.path@, is_dir: self.is_dir }
    }
}

/// One entry of an archive.
#[derive(Debug)]
pub struct ArchiveEntry {
    /// The entry's name: the path below the directory that is archived.
    pub name: String,
    pub is_dir: bool,
    /// Where a file's bytes are read from.
    pub source: String,
}

/// An entry of an archive as the contracts see it.
pub struct ArchiveEntryView {
    pub name: Seq<char>,
    pub is_dir: bool,
    pub source: Seq<char>,
}

impl View for ArchiveEntry {
    type V = ArchiveEntryView;

    open spec fn view(&self) -> ArchiveEntryView {
        ArchiveEntryView { name: self.name@, is_dir: self.is_dir, source: self.source@ }
    }
}

/// Why a directory gives no archive.
#[derive(Debug, Clone, Copy, PartialEq, Eq, Structural)]
pub enum ArchiveError {
    /// Something that was walked does not lie below the directory.
    PrefixMismatch,
}

/// What a walk came by, in its order, as the contracts see it.
pub open spec fn walked_views(walked: Seq<Walked>) -> Seq<WalkedView> {
    Seq::new(walked.len(), |i: int| walked[i]@)
}

/// The entries of an archive, in their order, as the contracts see them.
pub open spec fn archive_views(entries: Seq<ArchiveEntry>) -> Seq<ArchiveEntryView> {
    Seq::new(entries.len(), |i: int| entries[i]@)
}

/// The entries of the archive of `src_dir` for the first `n` things that
/// were walked: one for each, under its path below `src_dir`, but none for
/// the directory itself. There is no archive where one of them does not lie
/// below `src_dir`.
pub open spec fn archived(src_dir: Seq<char>, walked: Seq<WalkedView>, n: int) -> Option<
    Seq<ArchiveEntryView>,
>
    decreases n,
{
    if n <= 0 {
        Some(Seq::empty())
    } else {
        match archived(src_dir, walked, n - 1) {
            None => None,
            Some(front) => match relative_to(walked[n - 1].path, src_dir) {
                None => None,
                Some(name) => if name.len() == 0 {
                    Some(front)
                } else {
                    Some(
                        front.push(
                            ArchiveEntryView {
                                name,
                                is_dir: walked[n - 1].is_dir,
                                source: walked[n - 1].path,
                            },
                        ),
                    )
                },
            },
        }
    }
}

/// The entries of the archive of the directory `src_dir`, given what a walk
/// through it came by, in the order of the walk. Nothing is read or written
/// here.
pub fn zip_directory(src_dir: &str, walked: &Vec<Walked>) -> (r: Result<
    Vec<ArchiveEntry>,
    ArchiveError,
>)
    ensures
        match r {
            Ok(entries) => archived(src_dir@, walked_views(walked@), walked@.len() as int) == Some(
                archive_views(entries@),
            ),
            Err(e) => e == ArchiveError::PrefixMismatch && archived(
                src_dir@,
                walked_views(walked@),
                walked@.len() as int,
            ) is None,
        },
{
    let ghost all = walked_views(walked@);
    let mut entries: Vec<ArchiveEntry> = Vec::new();
    let mut i: usize = 0;
    assert(archive_views(entries@) =~= Seq::empty());
    while i < walked.len()
        invariant
            i <= walked.len(),
            all == walked_views(walked@),
            archived(src_dir@, all, i as int) == Some(archive_views(entries@)),
        decreases walked.len() - i,
    {
        let w = &walked[i];
        assert(all[i as int] == w@);
        let ghost front = archive_views(entries@);
        match strip_root(w.path.as_str(), src_dir) {
            None => {
                proof {
                    lemma_archived_none(src_dir@, all, i + 1, walked@.len() as int);
                }
                return Err(ArchiveError::PrefixMismatch);
            },
            Some(name) => {
                if !name.as_str().is_empty() {
                    entries.push(ArchiveEntry { name, is_dir: w.is_dir, source: w.path.clone() });
                    assert(archive_views(entries@) =~= front.push(
                        ArchiveEntryView { name: name@, is_dir: w.is_dir, source: w.path@ },
                    ));
                }
            },
        }
        i += 1;
    }
    Ok(entries)
}

/// Once there is no archive, walking on gives none.
proof fn lemma_archived_none(src_dir: Seq<char>, walked: Seq<WalkedView>, n: int, m: int)
    requires
        0 <= n <= m,
        archived(src_dir, walked, n) is None,
    ensures
        archived(src_dir, walked, m) is None,
    decreases m - n,
{
    if n < m {
        lemma_archived_none(src_dir, walked, n, m - 1);
    }
}

} // verus!
