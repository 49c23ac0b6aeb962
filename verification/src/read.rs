//! Offset translation and bounds clamping for byte-range reads: the one
//! piece of arithmetic between an inode-addressed read request and the
//! seek-then-read-exact call against the underlying byte source.

use vstd::prelude::*;
use crate::fst::{entry_at, table_wf, Entry, Fst, FsError};

verus! {

/// Where to read in the byte source, and how many bytes: the transport
/// seeks to `position` and reads exactly `length` bytes.
#[derive(Clone, Copy, Debug, PartialEq, Eq, Structural)]
pub struct ReadPlan {
    pub position: u64,
    pub length: u32,
}

/// The requested offset clamped to the file size, so that the size
/// subtraction below can never underflow.
pub open spec fn clamped_offset(offset: int, size: int) -> int {
    if offset <= size {
        offset
    } else {
        size
    }
}

/// The number of bytes a read may return: the requested length, bounded by
/// what the file still holds past the offset.
pub open spec fn read_length(requested: int, size: int, offset: int) -> int {
    let avail = size - clamped_offset(offset, size);
    if requested <= avail {
        requested
    } else {
        avail
    }
}

/// Plans a byte-range read of the file at `index`: `length` is exactly
/// `min(size, file.size - offset)` — never more than what the file holds
/// past `offset` — and `position` is `file.offset + offset`, absolute in
/// the byte source. An offset beyond the file's end is clamped and yields
/// an empty read rather than wrapping. A directory cannot be read.
pub fn read_plan(fst: &Fst, index: u32, offset: u64, size: u32) -> (r: Result<ReadPlan, FsError>)
    requires
        table_wf(fst@),
        index < fst@.len(),
    ensures
        match r {
            Ok(p) => fst@[index as int] matches Entry::File { size: fsize, offset: foffset }
                && p.length == read_length(size as int, fsize as int, offset as int) && p.position
                == foffset + clamped_offset(offset as int, fsize as int),
            Err(e) => e == FsError::NotADirectory && fst@[index as int] is Directory,
        },
{
    match entry_at(fst, index) {
        Entry::Directory { .. } => Err(FsError::NotADirectory),
        Entry::File { size: file_size, offset: file_offset } => {
            let eff: u64 = if offset <= file_size as u64 {
                offset
            } else {
                file_size as u64
            };
            let avail: u64 = file_size as u64 - eff;
            let length: u32 = if size as u64 <= avail {
                size
            } else {
                avail as u32
            };
            Ok(ReadPlan { position: file_offset as u64 + eff, length })
        },
    }
}

} // verus!
