//! The common 78-byte file header shared by PRC and PDB databases.

use vstd::prelude::*;

use crate::DatabaseError;
use crate::bytes::{
    be_u16, be_u32, push_be_u16, push_be_u32, push_bytes, read_be_u16, read_be_u32, spec_trimmed,
    trimmed, try_str_from_bytes, u16_be_bytes, u32_be_bytes,
};
use crate::time::PalmTimestamp;

verus! {

/// Length, in bytes, of the encoded [`DatabaseHeader`].
pub const DATABASE_HEADER_LENGTH: usize = 78;

/// The common file header used by both the PRC and PDB databases.
///
/// It sits at offset 0 of the file. Every multi-byte field is big-endian;
/// the three text-like fields are fixed-length and null-padded. Decoding
/// checks nothing beyond the byte count: malformed values are accepted, and
/// text conversion may fail later without invalidating the header.
#[derive(Debug, Clone, PartialEq)]
pub struct DatabaseHeader {
    /// Friendly database name: 32 bytes, null-padded.
    pub name: Vec<u8>,
    /// Attribute flags; bit 0 selects the record-vs-resource entry shape.
    pub attributes: u16,
    pub version: u16,
    pub creation_time: PalmTimestamp,
    pub modification_time: PalmTimestamp,
    pub backup_time: PalmTimestamp,
    pub modification_number: u32,
    /// Stored offset of the app-info block, or 0.
    pub app_info_id: u32,
    /// Stored offset of the sort-info block, or 0.
    pub sort_info_id: u32,
    /// 4-byte content type code.
    pub type_code: Vec<u8>,
    /// 4-byte creator code.
    pub creator_code: Vec<u8>,
    pub unique_id_seed: u32,
    pub next_record_list: u32,
    /// Number of entries in the record directory that follows the header.
    pub record_count: u16,
}

impl DatabaseHeader {
    /// Structural well-formedness: the fixed-length fields have their
    /// on-disk lengths.
    pub open spec fn wf(self) -> bool {
        &&& self.name@.len() == 32
        &&& self.type_code@.len() == 4
        &&& self.creator_code@.len() == 4
    }

    /// The 78-byte encoding of this header.
    pub open spec fn spec_bytes(self) -> Seq<u8> {
        self.name@ + u16_be_bytes(self.attributes) + u16_be_bytes(self.version) + u32_be_bytes(
            self.creation_time.0,
        ) + u32_be_bytes(self.modification_time.0) + u32_be_bytes(self.backup_time.0)
            + u32_be_bytes(self.modification_number) + u32_be_bytes(self.app_info_id)
            + u32_be_bytes(self.sort_info_id) + self.type_code@ + self.creator_code@ + u32_be_bytes(
            self.unique_id_seed,
        ) + u32_be_bytes(self.next_record_list) + u16_be_bytes(self.record_count)
    }

    /// True when this header is what decoding the first 78 bytes of `b`
    /// produces: every field read from its fixed position.
    pub open spec fn decodes(self, b: Seq<u8>) -> bool {
        &&& b.len() >= 78
        &&& self.name@ == b.subrange(0, 32)
        &&& self.attributes == be_u16(b.subrange(32, 34))
        &&& self.version == be_u16(b.subrange(34, 36))
        &&& self.creation_time.0 == be_u32(b.subrange(36, 40))
        &&& self.modification_time.0 == be_u32(b.subrange(40, 44))
        &&& self.backup_time.0 == be_u32(b.subrange(44, 48))
        &&& self.modification_number == be_u32(b.subrange(48, 52))
        &&& self.app_info_id == be_u32(b.subrange(52, 56))
        &&& self.sort_info_id == be_u32(b.subrange(56, 60))
        &&& self.type_code@ == b.subrange(60, 64)
        &&& self.creator_code@ == b.subrange(64, 68)
        &&& self.unique_id_seed == be_u32(b.subrange(68, 72))
        &&& self.next_record_list == be_u32(b.subrange(72, 76))
        &&& self.record_count == be_u16(b.subrange(76, 78))
    }

    /// Read the database header from the start of the given byte slice.
    /// Succeeds if and only if at least 78 bytes are available.
    pub fn from_bytes(data: &[u8]) -> (r: Result<DatabaseHeader, DatabaseError>)
        ensures
            data@.len() >= 78 ==> (r matches Ok(h) && h.decodes(data@) && h.wf()),
            data@.len() < 78 ==> r == Err::<DatabaseHeader, DatabaseError>(
                DatabaseError::Truncated,
            ),
    {
        if data.len() < DATABASE_HEADER_LENGTH {
            return Err(DatabaseError::Truncated);
        }
        let name = vstd::slice::slice_to_vec(vstd::slice::slice_subrange(data, 0, 32));
        let attributes = read_be_u16(data, 32);
        let version = read_be_u16(data, 34);
        let creation_time = PalmTimestamp(read_be_u32(data, 36));
        let modification_time = PalmTimestamp(read_be_u32(data, 40));
        let backup_time = PalmTimestamp(read_be_u32(data, 44));
        let modification_number = read_be_u32(data, 48);
        let app_info_id = read_be_u32(data, 52);
        let sort_info_id = read_be_u32(data, 56);
        let type_code = vstd::slice::slice_to_vec(vstd::slice::slice_subrange(data, 60, 64));
        let creator_code = vstd::slice::slice_to_vec(vstd::slice::slice_subrange(data, 64, 68));
        let unique_id_seed = read_be_u32(data, 68);
        let next_record_list = read_be_u32(data, 72);
        let record_count = read_be_u16(data, 76);
        Ok(
            DatabaseHeader {
                name,
                attributes,
                version,
                creation_time,
                modification_time,
                backup_time,
                modification_number,
                app_info_id,
                sort_info_id,
                type_code,
                creator_code,
                unique_id_seed,
                next_record_list,
                record_count,
            },
        )
    }

    /// Encode the header as exactly 78 bytes.
    pub fn to_bytes(&self) -> (r: Result<Vec<u8>, DatabaseError>)
        requires
            self.wf(),
        ensures
            r matches Ok(v) && v@ == self.spec_bytes(),
    {
        let mut out: Vec<u8> = Vec::new();
        push_bytes(&mut out, &self.name);
        push_be_u16(&mut out, self.attributes);
        push_be_u16(&mut out, self.version);
        push_be_u32(&mut out, self.creation_time.0);
        push_be_u32(&mut out, self.modification_time.0);
        push_be_u32(&mut out, self.backup_time.0);
        push_be_u32(&mut out, self.modification_number);
        push_be_u32(&mut out, self.app_info_id);
        push_be_u32(&mut out, self.sort_info_id);
        push_bytes(&mut out, &self.type_code);
        push_bytes(&mut out, &self.creator_code);
        push_be_u32(&mut out, self.unique_id_seed);
        push_be_u32(&mut out, self.next_record_list);
        push_be_u16(&mut out, self.record_count);
        Ok(out)
    }

    /// Return the friendly name of the database, with the null padding
    /// trimmed off.
    pub fn name_trimmed(&self) -> (r: &[u8])
        ensures
            r@ == spec_trimmed(self.name@),
    {
        trimmed(self.name.as_slice())
    }

    /// Attempt to convert the friendly name of the database to text.
    pub fn name_try_str(&self) -> (r: Result<&str, core::str::Utf8Error>)
        ensures
            r is Ok <==> vstd::utf8::valid_utf8(spec_trimmed(self.name@)),
            r matches Ok(s) ==> s@ == vstd::utf8::decode_utf8(spec_trimmed(self.name@)),
    {
        try_str_from_bytes(self.name_trimmed())
    }

    /// Attempt to convert the database type code to text.
    pub fn type_code_try_str(&self) -> (r: Result<&str, core::str::Utf8Error>)
        ensures
            r is Ok <==> vstd::utf8::valid_utf8(spec_trimmed(self.type_code@)),
            r matches Ok(s) ==> s@ == vstd::utf8::decode_utf8(spec_trimmed(self.type_code@)),
    {
        try_str_from_bytes(trimmed(self.type_code.as_slice()))
    }

    /// Attempt to convert the database creator code to text.
    pub fn creator_code_try_str(&self) -> (r: Result<&str, core::str::Utf8Error>)
        ensures
            r is Ok <==> vstd::utf8::valid_utf8(spec_trimmed(self.creator_code@)),
            r matches Ok(s) ==> s@ == vstd::utf8::decode_utf8(spec_trimmed(self.creator_code@)),
    {
        try_str_from_bytes(trimmed(self.creator_code.as_slice()))
    }
}

/// Encoding a decoded 78-byte header slice yields those bytes back: the
/// header codec is a byte-level round trip.
pub proof fn lemma_header_round_trip(h: DatabaseHeader, b: Seq<u8>)
    requires
        b.len() == 78,
        h.decodes(b),
    ensures
        h.spec_bytes() =~= b,
{
    crate::bytes::lemma_u16_be_bytes_of_be_u16(b.subrange(32, 34));
    crate::bytes::lemma_u16_be_bytes_of_be_u16(b.subrange(34, 36));
    crate::bytes::lemma_u32_be_bytes_of_be_u32(b.subrange(36, 40));
    crate::bytes::lemma_u32_be_bytes_of_be_u32(b.subrange(40, 44));
    crate::bytes::lemma_u32_be_bytes_of_be_u32(b.subrange(44, 48));
    crate::bytes::lemma_u32_be_bytes_of_be_u32(b.subrange(48, 52));
    crate::bytes::lemma_u32_be_bytes_of_be_u32(b.subrange(52, 56));
    crate::bytes::lemma_u32_be_bytes_of_be_u32(b.subrange(56, 60));
    crate::bytes::lemma_u32_be_bytes_of_be_u32(b.subrange(68, 72));
    crate::bytes::lemma_u32_be_bytes_of_be_u32(b.subrange(72, 76));
    crate::bytes::lemma_u16_be_bytes_of_be_u16(b.subrange(76, 78));
}

/// A well-formed header decodes from any buffer that begins with its own
/// encoding: decoding inverts encoding.
pub proof fn lemma_header_encode_decodes(h: DatabaseHeader, b: Seq<u8>)
    requires
        h.wf(),
        b.len() >= 78,
        b.subrange(0, 78) == h.spec_bytes(),
    ensures
        h.decodes(b),
{
    let e = h.spec_bytes();
    assert(e.len() == 78);
    assert forall|lo: int, hi: int| 0 <= lo <= hi <= 78 implies b.subrange(lo, hi)
        =~= e.subrange(lo, hi) by {
        assert forall|k: int| 0 <= k < hi - lo implies b.subrange(lo, hi)[k] == e.subrange(
            lo,
            hi,
        )[k] by {
            assert(b.subrange(lo, hi)[k] == b.subrange(0, 78)[lo + k]);
        }
    }
    assert(h.name@ =~= e.subrange(0, 32));
    assert(u16_be_bytes(h.attributes) =~= e.subrange(32, 34));
    assert(u16_be_bytes(h.version) =~= e.subrange(34, 36));
    assert(u32_be_bytes(h.creation_time.0) =~= e.subrange(36, 40));
    assert(u32_be_bytes(h.modification_time.0) =~= e.subrange(40, 44));
    assert(u32_be_bytes(h.backup_time.0) =~= e.subrange(44, 48));
    assert(u32_be_bytes(h.modification_number) =~= e.subrange(48, 52));
    assert(u32_be_bytes(h.app_info_id) =~= e.subrange(52, 56));
    assert(u32_be_bytes(h.sort_info_id) =~= e.subrange(56, 60));
    assert(h.type_code@ =~= e.subrange(60, 64));
    assert(h.creator_code@ =~= e.subrange(64, 68));
    assert(u32_be_bytes(h.unique_id_seed) =~= e.subrange(68, 72));
    assert(u32_be_bytes(h.next_record_list) =~= e.subrange(72, 76));
    assert(u16_be_bytes(h.record_count) =~= e.subrange(76, 78));
    crate::bytes::lemma_be_u16_of_u16_be_bytes(h.attributes);
    crate::bytes::lemma_be_u16_of_u16_be_bytes(h.version);
    crate::bytes::lemma_be_u32_of_u32_be_bytes(h.creation_time.0);
    crate::bytes::lemma_be_u32_of_u32_be_bytes(h.modification_time.0);
    crate::bytes::lemma_be_u32_of_u32_be_bytes(h.backup_time.0);
    crate::bytes::lemma_be_u32_of_u32_be_bytes(h.modification_number);
    crate::bytes::lemma_be_u32_of_u32_be_bytes(h.app_info_id);
    crate::bytes::lemma_be_u32_of_u32_be_bytes(h.sort_info_id);
    crate::bytes::lemma_be_u32_of_u32_be_bytes(h.unique_id_seed);
    crate::bytes::lemma_be_u32_of_u32_be_bytes(h.next_record_list);
    crate::bytes::lemma_be_u16_of_u16_be_bytes(h.record_count);
}

} // verus!
