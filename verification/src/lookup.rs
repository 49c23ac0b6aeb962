//! Name resolution inside one directory: the walk over the directory's
//! direct children, skipping whole subdirectory subtrees, that compares
//! each child's name against the query.
//!
//! Names live in the byte source and are resolved by the caller, one table
//! lookup per candidate; the walk itself — which candidate comes next,
//! when the search ends, and which attributes a match returns — is decided
//! here. [`lookup_start`] and [`lookup_step`] drive a lazy caller that
//! resolves one name at a time; [`lookup`] is the same search run to
//! completion against an already-resolved name table.

use vstd::prelude::*;
use crate::attr::{get_attr, spec_attr, Attr};
use crate::fst::{child_seq, dir_end, entry_at, entry_wf, next_index, next_of, table_wf, Entry, Fst, FsError};

verus! {

/// The outcome of examining one candidate child during a lookup.
#[derive(Clone, Copy, Debug, PartialEq, Eq, Structural)]
pub enum LookupStep {
    /// The candidate's name matched; these are its attributes.
    Found { attr: Attr },
    /// No match; `index` is the next candidate to resolve.
    Next { index: u32 },
    /// No match, and no candidate is left: the name is not in this directory.
    Missing,
}

/// Begins a lookup in the directory at position `parent`: yields the first
/// candidate child, `None` for an empty directory, or an I/O-class error if
/// the entry is not a directory.
pub fn lookup_start(fst: &Fst, parent: u32) -> (r: Result<Option<u32>, FsError>)
    requires
        table_wf(fst@),
        parent < fst@.len(),
    ensures
        match r {
            Ok(first) => fst@[parent as int] is Directory && match first {
                Some(i) => i == parent + 1 && i < dir_end(fst@[parent as int]),
                None => parent + 1 >= dir_end(fst@[parent as int]),
            },
            Err(e) => e == FsError::InputOutput && fst@[parent as int] is File,
        },
{
    proof {
        assert(entry_wf(fst@, parent as int));
    }
    match entry_at(fst, parent) {
        Entry::File { size, offset } => Err(FsError::InputOutput),
        Entry::Directory { index, end_index, parent_index } => {
            if parent + 1 < end_index {
                Ok(Some(parent + 1))
            } else {
                Ok(None)
            }
        },
    }
}

/// Examines the candidate child at `index`, whose resolved name is
/// `entry_name`: a match returns that child's attributes; otherwise the
/// walk advances by the skip rule, ending when it leaves the parent's
/// range.
pub fn lookup_step(
    fst: &Fst,
    parent: u32,
    index: u32,
    entry_name: &String,
    query: &String,
) -> (r: LookupStep)
    requires
        table_wf(fst@),
        parent < fst@.len(),
        fst@[parent as int] is Directory,
        parent < index < dir_end(fst@[parent as int]),
    ensures
        match r {
            LookupStep::Found { attr } => entry_name@ == query@ && attr == spec_attr(
                fst@,
                index as int,
            ),
            LookupStep::Next { index: j } => entry_name@ != query@ && j == next_of(
                fst@,
                index as int,
            ) && j < dir_end(fst@[parent as int]),
            LookupStep::Missing => entry_name@ != query@ && next_of(fst@, index as int) >= dir_end(
                fst@[parent as int],
            ),
        },
{
    proof {
        assert(entry_wf(fst@, parent as int));
    }
    if entry_name.eq(query) {
        LookupStep::Found { attr: get_attr(fst, index) }
    } else {
        let next = next_index(fst, index);
        let end = match entry_at(fst, parent) {
            Entry::Directory { index: self_index, end_index, parent_index } => end_index,
            Entry::File { size, offset } => 0,
        };
        if next < end {
            LookupStep::Next { index: next }
        } else {
            LookupStep::Missing
        }
    }
}

/// Resolves `query` among the direct children of the directory at position
/// `parent`, with `names` giving the resolved name of every table entry.
/// Returns the attributes of the first direct child whose name matches —
/// exactly what [`get_attr`] computes for that child's own position — and
/// not-found when no direct child matches, even if a deeper descendant
/// carries the name. A lookup on a file entry fails with the I/O-class
/// error.
pub fn lookup(fst: &Fst, parent: u32, names: &Vec<String>, query: &String) -> (r: Result<
    Attr,
    FsError,
>)
    requires
        table_wf(fst@),
        parent < fst@.len(),
        names@.len() == fst@.len(),
    ensures
        ({
            let cs = child_seq(fst@, parent + 1, dir_end(fst@[parent as int]));
            match r {
                Ok(attr) => fst@[parent as int] is Directory && exists|k: int|
                    0 <= k < cs.len() && #[trigger] names@[cs[k]]@ == query@ && attr == spec_attr(
                        fst@,
                        cs[k],
                    ) && forall|l: int| 0 <= l < k ==> names@[#[trigger] cs[l]]@ != query@,
                Err(FsError::NotFound) => fst@[parent as int] is Directory && forall|k: int|
                    0 <= k < cs.len() ==> names@[#[trigger] cs[k]]@ != query@,
                Err(FsError::InputOutput) => fst@[parent as int] is File,
                Err(e) => false,
            }
        }),
{
    let ghost t = fst@;
    let ghost end_i = dir_end(t[parent as int]);
    let ghost cs = child_seq(t, parent + 1, end_i);
    let end: u32 = match entry_at(fst, parent) {
        Entry::File { size, offset } => {
            return Err(FsError::InputOutput);
        },
        Entry::Directory { index, end_index, parent_index } => end_index,
    };
    proof {
        assert(entry_wf(t, parent as int));
    }
    let mut cur: u32 = parent + 1;
    let ghost k: int = 0;
    while cur < end
        invariant
            table_wf(t),
            t == fst@,
            names@.len() == t.len(),
            parent < t.len(),
            t[parent as int] is Directory,
            end == end_i == dir_end(t[parent as int]),
            end <= t.len(),
            parent < cur,
            cs == child_seq(t, parent + 1, end_i),
            0 <= k <= cs.len(),
            cs.skip(k) == child_seq(t, cur as int, end_i),
            forall|l: int| 0 <= l < k ==> names@[#[trigger] cs[l]]@ != query@,
        decreases end - cur,
    {
        proof {
            assert(entry_wf(t, cur as int));
            // One unfolding of the walk: the current position is the next child.
            assert(child_seq(t, cur as int, end_i) == seq![cur as int] + child_seq(
                t,
                if next_of(t, cur as int) <= end_i {
                    next_of(t, cur as int)
                } else {
                    end_i
                },
                end_i,
            ));
            assert(cs.skip(k).len() > 0);
            assert(k < cs.len());
            assert(cs[k] == cs.skip(k)[0]);
            assert(cs[k] == cur as int);
        }
        let name = &names[cur as usize];
        if name.eq(query) {
            let attr = get_attr(fst, cur);
            proof {
                assert(names@[cs[k]]@ == query@);
                assert(attr == spec_attr(t, cs[k]));
            }
            return Ok(attr);
        }
        let next = next_index(fst, cur);
        let stepped = if next < end {
            next
        } else {
            end
        };
        proof {
            assert(cs.skip(k).drop_first() == child_seq(t, stepped as int, end_i));
            assert(cs.skip(k).drop_first() == cs.skip(k + 1));
        }
        cur = stepped;
        proof {
            k = k + 1;
        }
    }
    proof {
        assert(child_seq(t, cur as int, end_i).len() == 0);
        assert(k == cs.len());
    }
    Err(FsError::NotFound)
}

} // verus!
