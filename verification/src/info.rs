//! App info ("extra data") block parsers and helpers.
//!
//! The only interpreted app-info shape is the category block in
//! [`category`]; every other shape round-trips as opaque reserved bytes.
//! [`NullExtraInfo`] is the no-op codec used by the formats that carry no
//! app-info block at all.

use vstd::prelude::*;

use crate::DatabaseError;
use crate::header::DatabaseHeader;

pub mod category;

verus! {

/// The app-info codec of the formats that carry no such block: it consumes
/// and produces no bytes.
#[derive(Debug, Copy, Clone, PartialEq, Eq, Structural)]
pub struct NullExtraInfo;

impl NullExtraInfo {
    /// Decode nothing: every buffer yields the empty block.
    pub fn from_bytes(_hdr: &DatabaseHeader, _data: &[u8], _pos: usize) -> (r: Result<
        NullExtraInfo,
        DatabaseError,
    >)
        ensures
            r == Ok::<NullExtraInfo, DatabaseError>(NullExtraInfo),
    {
        Ok(NullExtraInfo)
    }

    /// Encode nothing.
    pub fn to_bytes(&self) -> (r: Result<Vec<u8>, DatabaseError>)
        ensures
            r matches Ok(v) && v@ == Seq::<u8>::empty(),
    {
        Ok(Vec::new())
    }

    /// This block never holds data.
    pub fn data_empty(&self) -> (r: bool)
        ensures
            r,
    {
        true
    }
}

} // verus!
