//! Directory listing: the logical entry list of a directory — the synthetic
//! current and parent entries first, then every direct child exactly once,
//! in increasing table order.
//!
//! Child names live in the byte source; each listed child carries its table
//! index so the caller can resolve its name, one lookup per child. Each
//! listed entry also carries the resume offset to hand back to the
//! transport, so a paginated listing can continue after it.

use vstd::prelude::*;
use crate::attr::{kind_of, FileKind};
use crate::fst::{child_seq, dir_end, dir_parent, entry_at, entry_wf, lemma_child_seq_increasing, next_index,
    next_of, table_wf, Entry, Fst, FsError};

verus! {

/// How a listed entry is named: the synthetic current-directory and
/// parent-directory entries, or a direct child whose name is resolved from
/// the byte source by its table index.
#[derive(Clone, Copy, Debug, PartialEq, Eq, Structural)]
pub enum EntryName {
    Current,
    Parent,
    Child { index: u32 },
}

/// One entry of a directory listing: the inode to report, the resume
/// offset of the entry after this one, the entry's kind, and its name.
#[derive(Clone, Copy, Debug, PartialEq, Eq, Structural)]
pub struct DirEntry {
    pub ino: u64,
    pub offset: i64,
    pub kind: FileKind,
    pub name: EntryName,
}

/// The listing entry of the direct child at table position `c`, listed in
/// slot `k` of the children part.
pub open spec fn child_entry(t: Seq<Entry>, c: int, k: int) -> DirEntry {
    DirEntry {
        ino: (c + 1) as u64,
        offset: (k + 3) as i64,
        kind: kind_of(t[c]),
        name: EntryName::Child { index: c as u32 },
    }
}

/// The full logical listing of the directory at position `d`: the current
/// directory under its own inode, the parent under the parent's inode (the
/// root lists itself), then the direct children in table order.
pub open spec fn spec_listing(t: Seq<Entry>, d: int) -> Seq<DirEntry> {
    let cs = child_seq(t, d + 1, dir_end(t[d]));
    seq![
        DirEntry {
            ino: (d + 1) as u64,
            offset: 1,
            kind: FileKind::Directory,
            name: EntryName::Current,
        },
        DirEntry {
            ino: (dir_parent(t[d]) + 1) as u64,
            offset: 2,
            kind: FileKind::Directory,
            name: EntryName::Parent,
        },
    ] + Seq::new(cs.len() as nat, |k: int| child_entry(t, cs[k], k))
}

/// Builds the logical listing of the directory at `index`. The caller
/// resolves each child's name and emits entries from the requested resume
/// offset until its reply buffer is full; listing a file entry fails.
pub fn readdir_entries(fst: &Fst, index: u32) -> (r: Result<Vec<DirEntry>, FsError>)
    requires
        table_wf(fst@),
        index < fst@.len(),
    ensures
        match r {
            Ok(v) => fst@[index as int] is Directory && v@ == spec_listing(fst@, index as int),
            Err(e) => e == FsError::NotADirectory && fst@[index as int] is File,
        },
{
    let ghost t = fst@;
    let ghost d = index as int;
    let ghost end_i = dir_end(t[d]);
    let ghost cs = child_seq(t, d + 1, end_i);
    let (end, parent_index): (u32, u32) = match entry_at(fst, index) {
        Entry::File { size, offset } => {
            return Err(FsError::NotADirectory);
        },
        Entry::Directory { index: self_index, end_index, parent_index } => (
            end_index,
            parent_index,
        ),
    };
    proof {
        assert(entry_wf(t, d));
    }
    let mut out: Vec<DirEntry> = Vec::new();
    out.push(
        DirEntry { ino: index as u64 + 1, offset: 1, kind: FileKind::Directory, name: EntryName::Current },
    );
    out.push(
        DirEntry {
            ino: parent_index as u64 + 1,
            offset: 2,
            kind: FileKind::Directory,
            name: EntryName::Parent,
        },
    );
    let mut cur: u32 = index + 1;
    let ghost k: int = 0;
    while cur < end
        invariant
            table_wf(t),
            t == fst@,
            index < t.len(),
            t[d] is Directory,
            d == index as int,
            end == end_i == dir_end(t[d]),
            end <= t.len(),
            index < cur,
            cs == child_seq(t, d + 1, end_i),
            0 <= k <= cs.len(),
            cs.skip(k) == child_seq(t, cur as int, end_i),
            k <= cur - index - 1,
            out@.len() == 2 + k,
            out@ == spec_listing(t, d).take(2 + k),
        decreases end - cur,
    {
        proof {
            assert(entry_wf(t, cur as int));
            assert(child_seq(t, cur as int, end_i) == seq![cur as int] + child_seq(
                t,
                if next_of(t, cur as int) <= end_i {
                    next_of(t, cur as int)
                } else {
                    end_i
                },
                end_i,
            ));
            assert(cs.skip(k).len() > 0);
            assert(k < cs.len());
            assert(cs[k] == cs.skip(k)[0]);
            assert(cs[k] == cur as int);
        }
        let kind = match entry_at(fst, cur) {
            Entry::File { size, offset } => FileKind::RegularFile,
            Entry::Directory { index: self_index, end_index, parent_index } => FileKind::Directory,
        };
        let offset: i64 = out.len() as i64 + 1;
        out.push(DirEntry { ino: cur as u64 + 1, offset, kind, name: EntryName::Child { index: cur } });
        proof {
            assert(out@[2 + k] == child_entry(t, cs[k], k));
            assert(out@ =~= spec_listing(t, d).take(2 + k + 1));
            assert(cs.skip(k).drop_first() == cs.skip(k + 1));
        }
        let next = next_index(fst, cur);
        let stepped = if next < end {
            next
        } else {
            end
        };
        proof {
            assert(cs.skip(k).drop_first() == child_seq(t, stepped as int, end_i));
        }
        cur = stepped;
        proof {
            k = k + 1;
        }
    }
    proof {
        assert(child_seq(t, cur as int, end_i).len() == 0);
        assert(k == cs.len());
        assert(out@ =~= spec_listing(t, d));
    }
    Ok(out)
}

/// The shape of a listing: the current and parent entries come first, then
/// every direct child exactly once — the children's slots carry strictly
/// increasing table indices and inodes, in table order.
pub proof fn lemma_listing_order(t: Seq<Entry>, d: int)
    requires
        table_wf(t),
        0 <= d < t.len(),
        t[d] is Directory,
    ensures
        ({
            let cs = child_seq(t, d + 1, dir_end(t[d]));
            let listing = spec_listing(t, d);
            &&& listing.len() == 2 + cs.len()
            &&& listing[0].name == EntryName::Current
            &&& listing[0].ino == d + 1
            &&& listing[1].name == EntryName::Parent
            &&& forall|k: int|
                0 <= k < cs.len() ==> #[trigger] listing[k + 2].name == (EntryName::Child {
                    index: cs[k] as u32,
                }) && listing[k + 2].ino == cs[k] + 1
            &&& forall|k: int, l: int| 2 <= k < l < listing.len() ==> listing[k].ino < listing[l].ino
        }),
{
    let cs = child_seq(t, d + 1, dir_end(t[d]));
    let listing = spec_listing(t, d);
    lemma_child_seq_increasing(t, d + 1, dir_end(t[d]));
    assert(entry_wf(t, d));
    assert forall|k: int, l: int| 2 <= k < l < listing.len() implies listing[k].ino < listing[l].ino by {
        assert(cs[k - 2] < cs[l - 2]);
        assert(d + 1 <= cs[k - 2] < dir_end(t[d]));
        assert(d + 1 <= cs[l - 2] < dir_end(t[d]));
        assert(listing[k] == child_entry(t, cs[k - 2], k - 2));
        assert(listing[l] == child_entry(t, cs[l - 2], l - 2));
    }
}

/// Pagination is consistent: the listing is a function of the table alone,
/// so a page of `n` entries emitted from resume offset `o`, followed by the
/// remainder resumed at `o + n`, is exactly the tail of the one-pass
/// listing from `o`. Taking `o = 0` splits the unpaginated listing into
/// the concatenation of its pages, however the transport cuts them.
pub proof fn lemma_listing_pagination(t: Seq<Entry>, d: int, o: int, n: int)
    requires
        0 <= o,
        0 <= n,
        o + n <= spec_listing(t, d).len(),
    ensures
        spec_listing(t, d).skip(o).take(n) + spec_listing(t, d).skip(o + n) == spec_listing(t, d).skip(o),
{
    assert(spec_listing(t, d).skip(o).take(n) + spec_listing(t, d).skip(o + n) =~= spec_listing(
        t,
        d,
    ).skip(o));
}

} // verus!
