//! The file system table: a flat, ordered sequence of entries encoding a
//! directory tree through contiguous index ranges.

use vstd::prelude::*;

verus! {

/// One record of the file system table: either a file, with its size and the
/// absolute byte offset of its contents in the byte source, or a directory,
/// whose descendants (direct and transitive) occupy exactly the index range
/// `(index, end_index)` of the table.
#[derive(Clone, Copy, Debug, PartialEq, Eq, Structural)]
pub enum Entry {
    File { size: u32, offset: u32 },
    Directory { index: u32, end_index: u32, parent_index: u32 },
}

/// A single entry is well formed at position `i`: a directory must record its
/// own position, its subtree range must be non-empty and end within the
/// table, and its parent must be a valid position.
pub open spec fn entry_wf(t: Seq<Entry>, i: int) -> bool {
    match t[i] {
        Entry::File { size, offset } => true,
        Entry::Directory { index, end_index, parent_index } => {
            &&& index == i
            &&& i < end_index
            &&& end_index <= t.len()
            &&& parent_index < t.len()
        },
    }
}

/// The table as a whole is well formed: it holds fewer than 2^32 entries, so
/// that every index fits the table's native 32-bit arithmetic, and every
/// entry is well formed at its position.
pub open spec fn table_wf(t: Seq<Entry>) -> bool {
    &&& t.len() <= u32::MAX
    &&& forall|i: int| 0 <= i < t.len() ==> entry_wf(t, i)
}

/// The exclusive upper bound of a directory's subtree range.
pub open spec fn dir_end(e: Entry) -> int {
    match e {
        Entry::File { size, offset } => 0,
        Entry::Directory { index, end_index, parent_index } => end_index as int,
    }
}

/// The position of a directory's enclosing directory.
pub open spec fn dir_parent(e: Entry) -> int {
    match e {
        Entry::File { size, offset } => 0,
        Entry::Directory { index, end_index, parent_index } => parent_index as int,
    }
}

/// The index right after the subtree rooted at position `i`: files occupy a
/// single position, directories are skipped whole by jumping to `end_index`.
pub open spec fn next_of(t: Seq<Entry>, i: int) -> int {
    match t[i] {
        Entry::File { .. } => i + 1,
        Entry::Directory { index, end_index, parent_index } => end_index as int,
    }
}

/// The positions visited when walking from `i` (inclusive) to `end`
/// (exclusive) stepping over whole subtrees: for a directory at position `d`
/// with subtree end `e`, `child_seq(t, d + 1, e)` is exactly the sequence of
/// its direct children, in increasing table order.
pub open spec fn child_seq(t: Seq<Entry>, i: int, end: int) -> Seq<int>
    decreases end - i
        when table_wf(t) && 0 <= i
        via child_seq_decreases
{
    if i < 0 || end <= i || end > t.len() {
        Seq::empty()
    } else {
        let next = next_of(t, i);
        let clamped = if next <= end { next } else { end };
        seq![i] + child_seq(t, clamped, end)
    }
}

#[via_fn]
proof fn child_seq_decreases(t: Seq<Entry>, i: int, end: int) {
    if !(i < 0 || end <= i || end > t.len()) {
        assert(entry_wf(t, i));
    }
}

/// Every visited position lies in `[i, end)`, and the walk is strictly
/// increasing, so no position is visited twice.
pub proof fn lemma_child_seq_increasing(t: Seq<Entry>, i: int, end: int)
    requires
        table_wf(t),
        0 <= i,
    ensures
        forall|k: int|
            0 <= k < child_seq(t, i, end).len() ==> i <= #[trigger] child_seq(t, i, end)[k]
                < end,
        forall|k: int, l: int|
            0 <= k < l < child_seq(t, i, end).len() ==> child_seq(t, i, end)[k] < child_seq(
                t,
                i,
                end,
            )[l],
    decreases end - i,
{
    if i < 0 || end <= i || end > t.len() {
    } else {
        assert(entry_wf(t, i));
        let next = next_of(t, i);
        assert(i < next);
        let clamped = if next <= end {
            next
        } else {
            end
        };
        lemma_child_seq_increasing(t, clamped, end);
        let cs = child_seq(t, i, end);
        let rest = child_seq(t, clamped, end);
        assert(cs == seq![i] + rest);
        assert forall|k: int| 0 <= k < cs.len() implies i <= #[trigger] cs[k] < end by {
            if k == 0 {
            } else {
                assert(cs[k] == rest[k - 1]);
            }
        }
        assert forall|k: int, l: int| 0 <= k < l < cs.len() implies cs[k] < cs[l] by {
            assert(cs[l] == rest[l - 1]);
            if k > 0 {
                assert(cs[k] == rest[k - 1]);
            }
        }
    }
}

/// The table wrapped for use by the adapter. A value of this type is only
/// ever built through [`Fst::new`], which validates the structural
/// invariant instead of trusting the source data.
pub struct Fst {
    pub(crate) entries: Vec<Entry>,
}

impl View for Fst {
    type V = Seq<Entry>;

    closed spec fn view(&self) -> Seq<Entry> {
        self.entries@
    }
}

/// The errors the adapter reports: an I/O-class failure, a name that is not
/// among a directory's direct children, an operation applied to the wrong
/// kind of entry, and a table that fails structural validation.
#[derive(Clone, Copy, Debug, PartialEq, Eq, Structural)]
pub enum FsError {
    InputOutput,
    NotFound,
    NotADirectory,
    Malformed,
}

impl Fst {
    /// Validates the structural invariant of the table and wraps it;
    /// a malformed table is rejected rather than risking out-of-range
    /// traversal later.
    pub fn new(entries: Vec<Entry>) -> (r: Result<Fst, FsError>)
        ensures
            match r {
                Ok(fst) => fst@ == entries@ && table_wf(entries@),
                Err(e) => e == FsError::Malformed && !table_wf(entries@),
            },
    {
        let n = entries.len();
        if n > u32::MAX as usize {
            return Err(FsError::Malformed);
        }
        let mut i: usize = 0;
        while i < n
            invariant
                n == entries@.len(),
                n <= u32::MAX,
                i <= n,
                forall|j: int| 0 <= j < i ==> entry_wf(entries@, j),
            decreases n - i,
        {
            match entries[i] {
                Entry::File { size, offset } => {},
                Entry::Directory { index, end_index, parent_index } => {
                    if !(index as usize == i && i < end_index as usize && end_index as usize <= n
                        && (parent_index as usize) < n) {
                        assert(!entry_wf(entries@, i as int));
                        return Err(FsError::Malformed);
                    }
                },
            }
            i = i + 1;
        }
        Ok(Fst { entries })
    }

    /// The number of entries in the table.
    pub fn len(&self) -> (r: usize)
        ensures
            r == self@.len(),
    {
        self.entries.len()
    }
}

/// The entry at a table position.
pub fn entry_at(fst: &Fst, index: u32) -> (r: Entry)
    requires
        index < fst@.len(),
    ensures
        r == fst@[index as int],
{
    fst.entries[index as usize]
}

/// The skip rule of the walk, executable: advances by one past a file and
/// jumps a whole directory subtree.
pub fn next_index(fst: &Fst, index: u32) -> (r: u32)
    requires
        table_wf(fst@),
        index < fst@.len(),
    ensures
        r == next_of(fst@, index as int),
        index < r,
{
    proof {
        assert(entry_wf(fst@, index as int));
    }
    match fst.entries[index as usize] {
        Entry::File { size, offset } => index + 1,
        Entry::Directory { index: self_index, end_index, parent_index } => end_index,
    }
}

/// The entry a previously issued inode refers to: inode `n` names the entry
/// at table index `n - 1`.
pub fn get_entry(fst: &Fst, inode: u64) -> (r: &Entry)
    requires
        table_wf(fst@),
        1 <= inode <= fst@.len(),
    ensures
        *r == fst@[inode - 1],
{
    &fst.entries[(inode - 1) as usize]
}

} // verus!
