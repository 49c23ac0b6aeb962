//! A read-only filesystem adapter over a flat, pre-order-encoded directory
//! table (a "file system table", FST), as found on GameCube disc images.
//!
//! The table encodes nesting purely through index ranges: a directory's
//! descendants occupy the contiguous block of entries between its own index
//! (exclusive) and its `end_index` (exclusive upper bound). This crate
//! maintains the bijection between table indices and externally visible
//! inode numbers, computes POSIX-style attributes on demand, resolves names
//! against a caller-supplied name table, lists directories, and plans
//! byte-range reads against the underlying byte source.
//!
//! All I/O (the filesystem transport, the decompressed disc stream, and the
//! name lookups against it) lives outside this crate; the logic here works
//! on plain values and is verified.

pub mod attr;
pub mod fst;
pub mod inode;
pub mod lookup;
pub mod read;
pub mod readdir;
