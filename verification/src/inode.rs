//! The bijection between the table's native zero-based entry index and the
//! externally visible inode number: `inode = index + 1`, so that the root
//! entry at index 0 always carries inode 1 and inode 0 is never issued.

use vstd::prelude::*;

verus! {

/// The inode issued for the entry at table index `i`.
pub open spec fn inode_of(i: int) -> int {
    i + 1
}

/// The table index an issued inode refers to.
pub open spec fn index_of(n: int) -> int {
    n - 1
}

/// Converts a table index to its inode. Total for every 32-bit index.
pub fn to_inode(index: u32) -> (r: u64)
    ensures
        r == inode_of(index as int),
{
    index as u64 + 1
}

/// Converts an issued inode back to its table index. The table holds fewer
/// than 2^32 entries, so every issued inode lies in `[1, u32::MAX]` and the
/// conversion never truncates.
pub fn to_index(inode: u64) -> (r: u32)
    requires
        1 <= inode <= u32::MAX,
    ensures
        r == index_of(inode as int),
{
    (inode - 1) as u32
}

/// The two conversions are mutually inverse: the index-to-inode map is a
/// bijection between valid indices and issued inodes.
pub proof fn lemma_inode_bijection(i: int, n: int)
    ensures
        index_of(inode_of(i)) == i,
        inode_of(index_of(n)) == n,
{
}

} // verus!
