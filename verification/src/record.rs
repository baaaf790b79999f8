//! Individual database record handling.
//!
//! The [`pdb_record`] module holds the tagged record-header type shared by
//! the record ("PDB") and resource ("PRC") entry shapes, together with its
//! byte-level codec. [`RecordIter`] walks a raw buffer's record directory
//! one entry at a time.

use vstd::prelude::*;

use crate::DatabaseError;
use crate::format::{DatabaseFormat, PalmDatabase, spec_entry_pos};
use crate::header::DatabaseHeader;
use crate::record::pdb_record::{PdbRecordHeader, spec_rec_decode_err, spec_shape_len};

pub mod pdb_record;

verus! {

/// A cursor over the record directory of a raw database buffer, yielding
/// one decoded record header per step until the directory is exhausted or
/// an entry fails to decode.
pub struct RecordIter {
    /// A copy of the raw database buffer being walked.
    pub raw_data: Vec<u8>,
    /// The buffer's decoded file header, which fixes the entry shape and
    /// the directory length.
    pub header: DatabaseHeader,
    /// The index of the next directory entry to yield.
    pub index: usize,
}

impl RecordIter {
    /// The directory entry shape this iterator decodes, from the header's
    /// type-selector bit.
    pub open spec fn spec_shape(self) -> bool {
        self.header.attributes & 1 == 1
    }

    /// Start an iterator over a raw buffer, decoding its header first.
    pub fn from_bytes(data: &[u8]) -> (r: Result<RecordIter, DatabaseError>)
        ensures
            data@.len() >= 78 ==> (r matches Ok(it) && it.header.decodes(data@) && it.raw_data@
                == data@ && it.index == 0),
            data@.len() < 78 ==> r == Err::<RecordIter, DatabaseError>(DatabaseError::Truncated),
    {
        let header = match DatabaseHeader::from_bytes(data) {
            Ok(h) => h,
            Err(e) => {
                return Err(e);
            },
        };
        Ok(RecordIter { raw_data: vstd::slice::slice_to_vec(data), header, index: 0 })
    }

    /// Start an iterator over an already-decoded database's original
    /// buffer.
    pub fn from_database<X: DatabaseFormat>(db: &PalmDatabase<X>) -> (r: RecordIter)
        ensures
            r.raw_data@ == db.original_data@,
            r.header.name@ == db.header.name@,
            r.header.attributes == db.header.attributes,
            r.header.version == db.header.version,
            r.header.creation_time == db.header.creation_time,
            r.header.modification_time == db.header.modification_time,
            r.header.backup_time == db.header.backup_time,
            r.header.modification_number == db.header.modification_number,
            r.header.app_info_id == db.header.app_info_id,
            r.header.sort_info_id == db.header.sort_info_id,
            r.header.type_code@ == db.header.type_code@,
            r.header.creator_code@ == db.header.creator_code@,
            r.header.unique_id_seed == db.header.unique_id_seed,
            r.header.next_record_list == db.header.next_record_list,
            r.header.record_count == db.header.record_count,
            r.index == 0,
    {
        let header = DatabaseHeader {
            name: vstd::slice::slice_to_vec(db.header.name.as_slice()),
            attributes: db.header.attributes,
            version: db.header.version,
            creation_time: db.header.creation_time,
            modification_time: db.header.modification_time,
            backup_time: db.header.backup_time,
            modification_number: db.header.modification_number,
            app_info_id: db.header.app_info_id,
            sort_info_id: db.header.sort_info_id,
            type_code: vstd::slice::slice_to_vec(db.header.type_code.as_slice()),
            creator_code: vstd::slice::slice_to_vec(db.header.creator_code.as_slice()),
            unique_id_seed: db.header.unique_id_seed,
            next_record_list: db.header.next_record_list,
            record_count: db.header.record_count,
        };
        RecordIter {
            raw_data: vstd::slice::slice_to_vec(db.original_data.as_slice()),
            header,
            index: 0,
        }
    }

    /// Decode and yield the next directory entry, or `None` once the
    /// stored record count is reached, the directory runs past the
    /// buffer, or an entry fails to decode.
    pub fn next(&mut self) -> (r: Option<PdbRecordHeader>)
        requires
            old(self).raw_data@.len() <= u32::MAX,
        ensures
            final(self).raw_data == old(self).raw_data,
            final(self).header == old(self).header,
            ({
                let rs = old(self).spec_shape();
                let pos = spec_entry_pos(rs, old(self).index as int);
                if old(self).index >= old(self).header.record_count {
                    r is None && final(self).index == old(self).index
                } else if spec_rec_decode_err(rs, old(self).raw_data@, pos) is Some {
                    r is None && final(self).index == old(self).index
                } else {
                    r matches Some(h) && h.decodes_at(rs, old(self).raw_data@, pos)
                        && final(self).index == old(self).index + 1
                }
            }),
    {
        if self.index >= self.header.record_count as usize {
            return None;
        }
        let rs = self.header.attributes & 1 == 1;
        let sl: usize = if rs {
            10
        } else {
            8
        };
        proof {
            assert(sl * self.index <= 655350) by (nonlinear_arith)
                requires
                    sl <= 10,
                    self.index <= 65535,
            ;
        }
        let pos = 78 + sl * self.index;
        match PdbRecordHeader::from_bytes(&self.header, self.raw_data.as_slice(), pos) {
            Ok(h) => {
                self.index = self.index + 1;
                Some(h)
            },
            Err(_) => None,
        }
    }
}

} // verus!
