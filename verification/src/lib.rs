//! Support for reading and writing the Palm OS database formats (PRC and PDB).
//!
//! The on-disk layout is big-endian throughout: a fixed 78-byte file header,
//! a directory of per-entry record headers, an optional category block, and
//! the raw data of each entry, addressed by 32-bit offsets.

pub mod bytes;
pub mod format;
pub mod header;
pub mod info;
pub mod record;
pub mod sync;
pub mod text;
pub mod todo;
pub mod time;

pub use crate::format::{
    DatabaseFormat, PalmDatabase, PdbDatabase, PdbWithCategoriesDatabase, PrcDatabase,
};

use vstd::prelude::*;

verus! {

/// Everything that can go wrong while decoding a database buffer.
#[derive(Debug, Copy, Clone, PartialEq, Eq, Structural)]
pub enum DatabaseError {
    /// The header's type-selector bit disagrees with the requested format.
    FormatMismatch,
    /// The buffer ends before a fixed-size field or block is complete.
    Truncated,
    /// A record's data slice reaches outside the buffer.
    OutOfBounds,
}

} // verus!
