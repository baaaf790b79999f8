//! Palm database record headers.
//!
//! A directory entry is either a "record" (8 bytes on disk: data offset,
//! attribute byte, 24-bit unique id) or a "resource" (10 bytes: 4-byte
//! name, 16-bit id, data offset). Which shape a database uses is selected
//! once, by bit 0 of the file header's attributes field. Neither shape
//! stores its data length: it is inferred by peeking at the next entry's
//! stored offset, or measured against the end of the buffer.

use vstd::prelude::*;

use crate::DatabaseError;
use crate::bytes::{
    be_u16, be_u24, be_u32, push_be_u16, push_be_u24, push_be_u32, push_bytes, read_be_u16,
    read_be_u24, read_be_u32, spec_trimmed, trimmed, try_str_from_bytes, u16_be_bytes,
    u24_be_bytes, u32_be_bytes,
};
use crate::header::DatabaseHeader;

verus! {

const ATTR_SECRET: u8 = 0x10;

const ATTR_BUSY: u8 = 0x20;

const ATTR_DIRTY: u8 = 0x40;

const ATTR_DELETE: u8 = 0x80;

const ATTR_CATEGORY_MASK: u8 = 0x0F;

/// Attributes of a Palm database record (not of a resource).
///
/// A friendlier form of the attribute byte in the on-disk record header:
/// four flag bits and a 4-bit category id, which [`RecordAttributes::to_byte`]
/// and [`RecordAttributes::from_byte`] pack and unpack.
#[derive(Debug, Clone, Copy, PartialEq, Eq, Structural)]
pub struct RecordAttributes {
    pub delete: bool,
    pub dirty: bool,
    pub busy: bool,
    pub secret: bool,
    /// Category id, 0 to 15; 0 is the conventional "Unfiled" category.
    pub category: u8,
}

impl RecordAttributes {
    /// The category id fits in its 4 bits.
    pub open spec fn wf(self) -> bool {
        self.category < 16
    }

    /// The packed attribute byte: flag bits or-ed over the category id.
    pub open spec fn spec_to_byte(self) -> u8 {
        self.category | (if self.delete {
            0x80u8
        } else {
            0u8
        }) | (if self.dirty {
            0x40u8
        } else {
            0u8
        }) | (if self.busy {
            0x20u8
        } else {
            0u8
        }) | (if self.secret {
            0x10u8
        } else {
            0u8
        })
    }

    /// The unpacking of an attribute byte into flags and category id.
    pub open spec fn spec_from_byte(value: u8) -> RecordAttributes {
        RecordAttributes {
            delete: value & 0x80 != 0,
            dirty: value & 0x40 != 0,
            busy: value & 0x20 != 0,
            secret: value & 0x10 != 0,
            category: value & 0x0F,
        }
    }

    /// Unpack an attribute byte.
    pub fn from_byte(value: u8) -> (r: RecordAttributes)
        ensures
            r == RecordAttributes::spec_from_byte(value),
            r.wf(),
    {
        proof {
            assert(value & 0x0F < 16) by (bit_vector);
        }
        RecordAttributes {
            delete: value & ATTR_DELETE != 0,
            dirty: value & ATTR_DIRTY != 0,
            busy: value & ATTR_BUSY != 0,
            secret: value & ATTR_SECRET != 0,
            category: value & ATTR_CATEGORY_MASK,
        }
    }

    /// Pack the attributes into their byte.
    pub fn to_byte(&self) -> (r: u8)
        ensures
            r == self.spec_to_byte(),
    {
        let attributes = self.category | (if self.delete {
            ATTR_DELETE
        } else {
            0u8
        }) | (if self.dirty {
            ATTR_DIRTY
        } else {
            0u8
        }) | (if self.busy {
            ATTR_BUSY
        } else {
            0u8
        }) | (if self.secret {
            ATTR_SECRET
        } else {
            0u8
        });
        attributes
    }
}

impl Default for RecordAttributes {
    /// No flags set, category "Unfiled".
    fn default() -> (r: Self)
        ensures
            r == (RecordAttributes {
                delete: false,
                dirty: false,
                busy: false,
                secret: false,
                category: 0u8,
            }),
    {
        RecordAttributes { delete: false, dirty: false, busy: false, secret: false, category: 0 }
    }
}

/// Unpacking any byte and packing it again yields the byte: the attribute
/// codec is one-to-one on bytes.
pub proof fn lemma_attr_byte_round_trip(value: u8)
    ensures
        RecordAttributes::spec_from_byte(value).spec_to_byte() == value,
{
    assert((value & 0x0F) | (if value & 0x80 != 0 {
        0x80u8
    } else {
        0u8
    }) | (if value & 0x40 != 0 {
        0x40u8
    } else {
        0u8
    }) | (if value & 0x20 != 0 {
        0x20u8
    } else {
        0u8
    }) | (if value & 0x10 != 0 {
        0x10u8
    } else {
        0u8
    }) == value) by (bit_vector);
}

/// A generic Palm database record header: either a mutable "record" entry
/// (PDB databases) or an immutable "resource" entry (PRC databases).
///
/// Which variant a database uses follows from bit 0 of the file header's
/// attributes field: clear means records, set means resources. The
/// `data_len` field is not stored on disk; decoding fills it in from the
/// next entry's stored offset (or from the end of the buffer), and
/// encoding never writes it.
#[derive(Debug, Clone, PartialEq)]
pub enum PdbRecordHeader {
    Record {
        attributes: RecordAttributes,
        /// 24-bit unique id.
        unique_id: u32,
        data_offset: u32,
        data_len: Option<u32>,
    },
    Resource {
        /// 4-byte resource name.
        name: Vec<u8>,
        record_id: u16,
        data_offset: u32,
        data_len: Option<u32>,
    },
}

/// Size in bytes of one directory entry of the given shape.
pub open spec fn spec_shape_len(resource_shape: bool) -> int {
    if resource_shape {
        10
    } else {
        8
    }
}

/// How many bytes lie between the end of an entry and the offset field of
/// the next same-shape entry: the offset field is first in a record but
/// sits 6 bytes into a resource.
pub open spec fn spec_peek_skip(resource_shape: bool) -> int {
    if resource_shape {
        6
    } else {
        0
    }
}

/// The stored data offset of the entry of the given shape at `pos`.
pub open spec fn spec_stored_offset(resource_shape: bool, b: Seq<u8>, pos: int) -> u32 {
    if resource_shape {
        be_u32(b.subrange(pos + 6, pos + 10))
    } else {
        be_u32(b.subrange(pos, pos + 4))
    }
}

/// The 4 bytes peeked ahead of the entry at `pos`, where a following
/// same-shape entry would store its data offset; `None` when the buffer
/// ends before them.
pub open spec fn spec_peek(resource_shape: bool, b: Seq<u8>, pos: int) -> Option<u32> {
    let p = pos + spec_shape_len(resource_shape) + spec_peek_skip(resource_shape);
    if p + 4 <= b.len() {
        Some(be_u32(b.subrange(p, p + 4)))
    } else {
        None
    }
}

/// The inferred data length of the entry at `pos`: the distance to the
/// peeked next offset when that offset lies beyond this entry's own, and
/// the distance to the end of the buffer otherwise (end of the directory,
/// or a corrupt forward offset).
pub open spec fn spec_inferred_data_len(resource_shape: bool, b: Seq<u8>, pos: int) -> int {
    let off = spec_stored_offset(resource_shape, b, pos) as int;
    match spec_peek(resource_shape, b, pos) {
        Some(next) => if next > off {
            next - off
        } else {
            b.len() - off
        },
        None => b.len() - off,
    }
}

/// Whether decoding one entry at `pos` fails, and how: `Truncated` when the
/// fixed fields run past the buffer, `OutOfBounds` when the fallback length
/// would be negative because the stored offset lies past the buffer.
pub open spec fn spec_rec_decode_err(resource_shape: bool, b: Seq<u8>, pos: int) -> Option<
    DatabaseError,
> {
    if pos + spec_shape_len(resource_shape) > b.len() {
        Some(DatabaseError::Truncated)
    } else if spec_inferred_data_len(resource_shape, b, pos) < 0 {
        Some(DatabaseError::OutOfBounds)
    } else {
        None
    }
}

impl PdbRecordHeader {
    /// Well-formedness: stored numbers fit their on-disk fields.
    pub open spec fn wf(self) -> bool {
        match self {
            PdbRecordHeader::Record { attributes, unique_id, .. } => attributes.wf() && unique_id
                < 0x100_0000,
            PdbRecordHeader::Resource { name, .. } => name@.len() == 4,
        }
    }

    /// True for the resource shape.
    pub open spec fn is_resource_shape(self) -> bool {
        self is Resource
    }

    /// Size in bytes of this entry's fixed fields: 8 for a record, 10 for
    /// a resource.
    pub open spec fn spec_struct_len(self) -> int {
        spec_shape_len(self.is_resource_shape())
    }

    /// The entry's fixed fields as they are written to disk; the inferred
    /// data length is not a stored field and does not appear.
    pub open spec fn spec_bytes(self) -> Seq<u8> {
        match self {
            PdbRecordHeader::Record { attributes, unique_id, data_offset, .. } => u32_be_bytes(
                data_offset,
            ) + seq![attributes.spec_to_byte()] + u24_be_bytes(unique_id),
            PdbRecordHeader::Resource { name, record_id, data_offset, .. } => name@ + u16_be_bytes(
                record_id,
            ) + u32_be_bytes(data_offset),
        }
    }

    /// The stored data offset, whichever the shape.
    pub open spec fn spec_data_offset(self) -> u32 {
        match self {
            PdbRecordHeader::Record { data_offset, .. } => data_offset,
            PdbRecordHeader::Resource { data_offset, .. } => data_offset,
        }
    }

    /// The inferred data length, whichever the shape.
    pub open spec fn spec_data_len(self) -> Option<u32> {
        match self {
            PdbRecordHeader::Record { data_len, .. } => data_len,
            PdbRecordHeader::Resource { data_len, .. } => data_len,
        }
    }

    /// The attributes of a record; `None` for a resource.
    pub open spec fn spec_attributes(self) -> Option<RecordAttributes> {
        match self {
            PdbRecordHeader::Record { attributes, .. } => Some(attributes),
            PdbRecordHeader::Resource { .. } => None,
        }
    }

    /// The unique id of a record; `None` for a resource.
    pub open spec fn spec_unique_id(self) -> Option<u32> {
        match self {
            PdbRecordHeader::Record { unique_id, .. } => Some(unique_id),
            PdbRecordHeader::Resource { .. } => None,
        }
    }

    /// The id of a resource; `None` for a record.
    pub open spec fn spec_resource_id(self) -> Option<u16> {
        match self {
            PdbRecordHeader::Record { .. } => None,
            PdbRecordHeader::Resource { record_id, .. } => Some(record_id),
        }
    }

    /// True when this value is exactly what decoding the entry of the
    /// given shape at `pos` in `b` produces.
    pub open spec fn decodes_at(self, resource_shape: bool, b: Seq<u8>, pos: int) -> bool {
        if resource_shape {
            &&& self matches PdbRecordHeader::Resource { name, record_id, data_offset, data_len }
            &&& name@ == b.subrange(pos, pos + 4)
            &&& record_id == be_u16(b.subrange(pos + 4, pos + 6))
            &&& data_offset == be_u32(b.subrange(pos + 6, pos + 10))
            &&& data_len == Some(spec_inferred_data_len(true, b, pos) as u32)
        } else {
            &&& self matches PdbRecordHeader::Record { attributes, unique_id, data_offset, data_len }
            &&& data_offset == be_u32(b.subrange(pos, pos + 4))
            &&& attributes == RecordAttributes::spec_from_byte(b[pos + 4])
            &&& unique_id == be_u24(b.subrange(pos + 5, pos + 8))
            &&& data_len == Some(spec_inferred_data_len(false, b, pos) as u32)
        }
    }

    /// Size in bytes of this entry's fixed fields.
    pub fn struct_len(&self) -> (r: usize)
        ensures
            r == self.spec_struct_len(),
    {
        match self {
            PdbRecordHeader::Record { .. } => 8,
            PdbRecordHeader::Resource { .. } => 10,
        }
    }

    /// Bytes between the end of this entry and the offset field of a
    /// following same-shape entry.
    pub fn next_entry_data_offset(&self) -> (r: usize)
        ensures
            r == spec_peek_skip(self.is_resource_shape()),
    {
        match self {
            PdbRecordHeader::Record { .. } => 0,
            PdbRecordHeader::Resource { .. } => 6,
        }
    }

    /// Decode one directory entry at `pos`, in the shape selected by the
    /// database header's attribute bit, inferring its data length by
    /// peeking ahead without consuming the next entry's bytes.
    pub fn from_bytes(hdr: &DatabaseHeader, data: &[u8], pos: usize) -> (r: Result<
        PdbRecordHeader,
        DatabaseError,
    >)
        requires
            data@.len() <= u32::MAX,
        ensures
            ({
                let rs = hdr.attributes & 1 == 1;
                match spec_rec_decode_err(rs, data@, pos as int) {
                    Some(e) => r == Err::<PdbRecordHeader, DatabaseError>(e),
                    None => r matches Ok(h) && h.decodes_at(rs, data@, pos as int) && h.wf()
                        && h.is_resource_shape() == rs,
                }
            }),
    {
        let resource_shape = hdr.attributes & 1 == 1;
        let sl: usize = if resource_shape {
            10
        } else {
            8
        };
        let skip: usize = if resource_shape {
            6
        } else {
            0
        };
        if data.len() < sl || pos > data.len() - sl {
            return Err(DatabaseError::Truncated);
        }
        let buflen: u32 = data.len() as u32;
        let data_offset: u32 = if resource_shape {
            read_be_u32(data, pos + 6)
        } else {
            read_be_u32(data, pos)
        };
        let after: usize = data.len() - (pos + sl);
        let peeked: Option<u32> = if skip <= after && after - skip >= 4 {
            Some(read_be_u32(data, pos + sl + skip))
        } else {
            None
        };
        let data_len: u32 = match peeked {
            Some(next) if next > data_offset => next - data_offset,
            _ => {
                if data_offset > buflen {
                    return Err(DatabaseError::OutOfBounds);
                }
                buflen - data_offset
            },
        };
        if resource_shape {
            let name = vstd::slice::slice_to_vec(
                vstd::slice::slice_subrange(data, pos, pos + 4),
            );
            let record_id = read_be_u16(data, pos + 4);
            Ok(
                PdbRecordHeader::Resource {
                    name,
                    record_id,
                    data_offset,
                    data_len: Some(data_len),
                },
            )
        } else {
            let attributes = RecordAttributes::from_byte(data[pos + 4]);
            let unique_id = read_be_u24(data, pos + 5);
            Ok(
                PdbRecordHeader::Record {
                    attributes,
                    unique_id,
                    data_offset,
                    data_len: Some(data_len),
                },
            )
        }
    }

    /// Encode the entry's fixed fields: 8 bytes for a record, 10 for a
    /// resource.
    pub fn to_bytes(&self) -> (r: Result<Vec<u8>, DatabaseError>)
        requires
            self.wf(),
        ensures
            r matches Ok(v) && v@ == self.spec_bytes(),
    {
        let mut buf: Vec<u8> = Vec::new();
        match self {
            PdbRecordHeader::Record { data_offset, attributes, unique_id, .. } => {
                push_be_u32(&mut buf, *data_offset);
                buf.push(attributes.to_byte());
                push_be_u24(&mut buf, *unique_id);
                proof {
                    assert(buf@ =~= self.spec_bytes());
                }
            },
            PdbRecordHeader::Resource { name, record_id, data_offset, .. } => {
                push_bytes(&mut buf, name);
                push_be_u16(&mut buf, *record_id);
                push_be_u32(&mut buf, *data_offset);
                proof {
                    assert(buf@ =~= self.spec_bytes());
                }
            },
        }
        Ok(buf)
    }

    /// The resource's name as text, when this is a resource whose trimmed
    /// name is valid text; `None` otherwise.
    pub fn name_str(&self) -> (r: Option<&str>)
        ensures
            match self {
                PdbRecordHeader::Resource { name, .. } => {
                    &&& (r is Some <==> vstd::utf8::valid_utf8(spec_trimmed(name@)))
                    &&& (r matches Some(s) ==> s@ == vstd::utf8::decode_utf8(spec_trimmed(name@)))
                },
                PdbRecordHeader::Record { .. } => r is None,
            },
    {
        match self {
            PdbRecordHeader::Resource { name, .. } => {
                match try_str_from_bytes(trimmed(name.as_slice())) {
                    Ok(s) => Some(s),
                    Err(_) => None,
                }
            },
            PdbRecordHeader::Record { .. } => None,
        }
    }

    /// The attributes of a record; `None` for a resource.
    pub fn attributes(&self) -> (r: Option<RecordAttributes>)
        ensures
            r == self.spec_attributes(),
    {
        match self {
            PdbRecordHeader::Record { attributes, .. } => Some(*attributes),
            PdbRecordHeader::Resource { .. } => None,
        }
    }

    /// The stored data offset of this entry.
    pub fn data_offset(&self) -> (r: u32)
        ensures
            r == self.spec_data_offset(),
    {
        match self {
            PdbRecordHeader::Record { data_offset, .. } => *data_offset,
            PdbRecordHeader::Resource { data_offset, .. } => *data_offset,
        }
    }

    /// The inferred length of this entry's data, if known.
    pub fn data_len(&self) -> (r: Option<u32>)
        ensures
            r == self.spec_data_len(),
    {
        match self {
            PdbRecordHeader::Record { data_len, .. } => *data_len,
            PdbRecordHeader::Resource { data_len, .. } => *data_len,
        }
    }

    /// The unique id of a record; `None` for a resource.
    pub fn unique_id(&self) -> (r: Option<u32>)
        ensures
            r == self.spec_unique_id(),
    {
        match self {
            PdbRecordHeader::Record { unique_id, .. } => Some(*unique_id),
            PdbRecordHeader::Resource { .. } => None,
        }
    }

    /// The id of a resource; `None` for a record.
    pub fn resource_id(&self) -> (r: Option<u16>)
        ensures
            r == self.spec_resource_id(),
    {
        match self {
            PdbRecordHeader::Record { .. } => None,
            PdbRecordHeader::Resource { record_id, .. } => Some(*record_id),
        }
    }

    /// Build a record entry for insertion. The supplied offset is advanced
    /// by the entry's own 8-byte directory footprint, because the new entry
    /// will occupy one more directory slot than existed when the offset was
    /// computed.
    pub fn construct_record(
        attributes: RecordAttributes,
        unique_id: u32,
        data_offset: u32,
        data_len: Option<u32>,
    ) -> (r: PdbRecordHeader)
        requires
            data_offset + 8 <= u32::MAX,
        ensures
            r == (PdbRecordHeader::Record {
                attributes,
                unique_id,
                data_offset: (data_offset + 8) as u32,
                data_len,
            }),
    {
        PdbRecordHeader::Record { attributes, unique_id, data_offset: data_offset + 8, data_len }
    }

    /// Build a resource entry for insertion. The supplied offset is
    /// advanced by the entry's own 10-byte directory footprint, as for
    /// [`PdbRecordHeader::construct_record`].
    pub fn construct_resource(
        name: &[u8; 4],
        record_id: u16,
        data_offset: u32,
        data_len: Option<u32>,
    ) -> (r: PdbRecordHeader)
        requires
            data_offset + 10 <= u32::MAX,
        ensures
            r matches PdbRecordHeader::Resource {
                name: rname,
                record_id: rid,
                data_offset: roff,
                data_len: rlen,
            } && rname@ == name@ && rid == record_id && roff == data_offset + 10 && rlen
                == data_len,
            r.wf(),
    {
        let name_vec = vstd::slice::slice_to_vec(name.as_slice());
        PdbRecordHeader::Resource {
            name: name_vec,
            record_id,
            data_offset: data_offset + 10,
            data_len,
        }
    }
}

/// Re-encoding a decoded directory entry yields exactly the bytes it was
/// decoded from: the fixed fields of the entry codec round-trip at byte
/// level.
pub proof fn lemma_rec_header_round_trip(h: PdbRecordHeader, rs: bool, b: Seq<u8>, pos: int)
    requires
        0 <= pos,
        pos + spec_shape_len(rs) <= b.len(),
        h.decodes_at(rs, b, pos),
    ensures
        h.spec_bytes() =~= b.subrange(pos, pos + spec_shape_len(rs)),
{
    if rs {
        crate::bytes::lemma_u16_be_bytes_of_be_u16(b.subrange(pos + 4, pos + 6));
        crate::bytes::lemma_u32_be_bytes_of_be_u32(b.subrange(pos + 6, pos + 10));
    } else {
        crate::bytes::lemma_u32_be_bytes_of_be_u32(b.subrange(pos, pos + 4));
        lemma_attr_byte_round_trip(b[pos + 4]);
        crate::bytes::lemma_be_u24_bound(b.subrange(pos + 5, pos + 8));
        crate::bytes::lemma_u24_be_bytes_of_be_u24(b.subrange(pos + 5, pos + 8));
    }
}

/// The stored offset read from an entry's encoded bytes is the entry's own
/// data offset.
pub proof fn lemma_stored_offset_of_encoded(h: PdbRecordHeader, rs: bool, b: Seq<u8>, pos: int)
    requires
        h.wf(),
        h.is_resource_shape() == rs,
        0 <= pos,
        pos + spec_shape_len(rs) <= b.len(),
        b.subrange(pos, pos + spec_shape_len(rs)) == h.spec_bytes(),
    ensures
        spec_stored_offset(rs, b, pos) == h.spec_data_offset(),
{
    let e = h.spec_bytes();
    if rs {
        assert(b.subrange(pos + 6, pos + 10) =~= e.subrange(6, 10));
        assert(e.subrange(6, 10) =~= u32_be_bytes(h.spec_data_offset()));
    } else {
        assert(b.subrange(pos, pos + 4) =~= e.subrange(0, 4));
        assert(e.subrange(0, 4) =~= u32_be_bytes(h.spec_data_offset()));
    }
    crate::bytes::lemma_be_u32_of_u32_be_bytes(h.spec_data_offset());
}

/// When a same-shape entry follows immediately in the directory and its
/// stored offset lies beyond this entry's, the inferred data length is
/// exactly the gap between the two stored offsets: the bytes between this
/// entry's data and the next entry's data.
pub proof fn lemma_inferred_len_from_next_entry(resource_shape: bool, b: Seq<u8>, pos: int)
    requires
        0 <= pos,
        pos + 2 * spec_shape_len(resource_shape) <= b.len(),
        spec_stored_offset(resource_shape, b, pos + spec_shape_len(resource_shape))
            > spec_stored_offset(resource_shape, b, pos),
    ensures
        spec_inferred_data_len(resource_shape, b, pos) == spec_stored_offset(
            resource_shape,
            b,
            pos + spec_shape_len(resource_shape),
        ) - spec_stored_offset(resource_shape, b, pos),
{
    let sl = spec_shape_len(resource_shape);
    let p = pos + sl + spec_peek_skip(resource_shape);
    assert(b.subrange(p, p + 4) =~= if resource_shape {
        b.subrange(pos + sl + 6, pos + sl + 10)
    } else {
        b.subrange(pos + sl, pos + sl + 4)
    });
}

/// When no same-shape entry can follow (the peek would run past the buffer)
/// or the peeked offset does not lie beyond this entry's, the inferred data
/// length measures to the end of the buffer.
pub proof fn lemma_inferred_len_at_end(resource_shape: bool, b: Seq<u8>, pos: int)
    requires
        !(spec_peek(resource_shape, b, pos) matches Some(next) && next > spec_stored_offset(
            resource_shape,
            b,
            pos,
        )),
    ensures
        spec_inferred_data_len(resource_shape, b, pos) == b.len() - spec_stored_offset(
            resource_shape,
            b,
            pos,
        ),
{
}

/// Packing well-formed attributes and unpacking the byte yields the same
/// attributes: the codec is one-to-one on attribute values too.
pub proof fn lemma_attr_value_round_trip(a: RecordAttributes)
    requires
        a.wf(),
    ensures
        RecordAttributes::spec_from_byte(a.spec_to_byte()) == a,
{
    let c = a.category;
    let d = a.delete;
    let y = a.dirty;
    let u = a.busy;
    let s = a.secret;
    let b = a.spec_to_byte();
    assert((b & 0x80 != 0) == d && (b & 0x40 != 0) == y && (b & 0x20 != 0) == u && (b & 0x10 != 0)
        == s && b & 0x0F == c) by (bit_vector)
        requires
            c < 16,
            b == c | (if d {
                0x80u8
            } else {
                0u8
            }) | (if y {
                0x40u8
            } else {
                0u8
            }) | (if u {
                0x20u8
            } else {
                0u8
            }) | (if s {
                0x10u8
            } else {
                0u8
            }),
    ;
}

} // verus!
