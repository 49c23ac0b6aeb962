//! POSIX-style attribute computation: kind, size, block count, permission
//! bits and hard link count, derived on demand from the table encoding.
//! The table carries no timestamps or ownership, so those fields are fixed
//! sentinels supplied by the transport layer.

use vstd::prelude::*;
use crate::fst::{entry_at, entry_wf, table_wf, Entry, Fst};

verus! {

/// The kind of an entry as reported to the filesystem transport.
#[derive(Clone, Copy, Debug, PartialEq, Eq, Structural)]
pub enum FileKind {
    RegularFile,
    Directory,
}

/// The attribute payload for one entry. Timestamps are fixed to the epoch
/// and owner and group to a zero sentinel by the transport layer; the
/// link count is held in 64 bits so the range-wide directory count can
/// never wrap.
#[derive(Clone, Copy, Debug, PartialEq, Eq, Structural)]
pub struct Attr {
    pub ino: u64,
    pub size: u64,
    pub blocks: u64,
    pub kind: FileKind,
    pub perm: u16,
    pub nlink: u64,
    pub uid: u32,
    pub gid: u32,
    pub rdev: u32,
    pub blksize: u32,
    pub flags: u32,
}

/// The kind reported for an entry.
pub open spec fn kind_of(e: Entry) -> FileKind {
    match e {
        Entry::File { size, offset } => FileKind::RegularFile,
        Entry::Directory { index, end_index, parent_index } => FileKind::Directory,
    }
}

/// The number of directory-typed entries at positions `[lo, hi)`.
pub open spec fn dir_count(t: Seq<Entry>, lo: int, hi: int) -> int
    decreases hi - lo,
{
    if lo >= hi {
        0
    } else {
        dir_count(t, lo, hi - 1) + (if t[hi - 1] is Directory {
            1int
        } else {
            0int
        })
    }
}

/// A range never holds more directories than positions.
pub proof fn lemma_dir_count_bounds(t: Seq<Entry>, lo: int, hi: int)
    requires
        lo <= hi,
    ensures
        0 <= dir_count(t, lo, hi) <= hi - lo,
    decreases hi - lo,
{
    if lo < hi {
        lemma_dir_count_bounds(t, lo, hi - 1);
    }
}

/// The attributes of the entry at position `i`: a file is read-only with one
/// hard link; a directory is read-and-execute-only and carries one link per
/// directory-typed entry in its whole subtree range, plus the two links for
/// itself and its parent's reference.
pub open spec fn spec_attr(t: Seq<Entry>, i: int) -> Attr {
    match t[i] {
        Entry::File { size, offset } => Attr {
            ino: (i + 1) as u64,
            size: size as u64,
            blocks: (size / 512 + 1) as u64,
            kind: FileKind::RegularFile,
            perm: 0o444,
            nlink: 1,
            uid: 0,
            gid: 0,
            rdev: 0,
            blksize: 512,
            flags: 0,
        },
        Entry::Directory { index, end_index, parent_index } => Attr {
            ino: (i + 1) as u64,
            size: 0,
            blocks: 0,
            kind: FileKind::Directory,
            perm: 0o555,
            nlink: (2 + dir_count(t, i + 1, end_index as int)) as u64,
            uid: 0,
            gid: 0,
            rdev: 0,
            blksize: 512,
            flags: 0,
        },
    }
}

/// The link count of a directory equals 2 plus the number of
/// directory-typed entries in its subtree range `(index, end_index)` —
/// all descendant directories, not only direct children.
pub proof fn lemma_directory_link_count(t: Seq<Entry>, i: int, end_index: int)
    requires
        table_wf(t),
        0 <= i < t.len(),
        t[i] matches Entry::Directory { end_index: e, .. } && e == end_index,
    ensures
        spec_attr(t, i).nlink == 2 + dir_count(t, i + 1, end_index),
        spec_attr(t, i).kind == FileKind::Directory,
{
    assert(entry_wf(t, i));
    lemma_dir_count_bounds(t, i + 1, end_index);
}

/// Computes the attributes of the entry at `index`. Always succeeds for a
/// valid index; the result is exactly [`spec_attr`].
pub fn get_attr(fst: &Fst, index: u32) -> (attr: Attr)
    requires
        table_wf(fst@),
        index < fst@.len(),
    ensures
        attr == spec_attr(fst@, index as int),
{
    match entry_at(fst, index) {
        Entry::File { size, offset } => Attr {
            ino: index as u64 + 1,
            size: size as u64,
            blocks: (size / 512) as u64 + 1,
            kind: FileKind::RegularFile,
            perm: 0o444,
            nlink: 1,
            uid: 0,
            gid: 0,
            rdev: 0,
            blksize: 512,
            flags: 0,
        },
        Entry::Directory { index: self_index, end_index, parent_index } => {
            proof {
                assert(entry_wf(fst@, index as int));
            }
            let mut count: u64 = 0;
            let mut i: u32 = index + 1;
            while i < end_index
                invariant
                    table_wf(fst@),
                    index < fst@.len(),
                    fst@[index as int] == (Entry::Directory {
                        index: self_index,
                        end_index,
                        parent_index,
                    }),
                    index < i <= end_index,
                    end_index <= fst@.len(),
                    count == dir_count(fst@, index + 1, i as int),
                    count <= i - index - 1,
                decreases end_index - i,
            {
                match entry_at(fst, i) {
                    Entry::Directory { .. } => {
                        count = count + 1;
                    },
                    Entry::File { .. } => {},
                }
                i = i + 1;
            }
            Attr {
                ino: index as u64 + 1,
                size: 0,
                blocks: 0,
                kind: FileKind::Directory,
                perm: 0o555,
                nlink: 2 + count,
                uid: 0,
                gid: 0,
                rdev: 0,
                blksize: 512,
                flags: 0,
            }
        },
    }
}

} // verus!
