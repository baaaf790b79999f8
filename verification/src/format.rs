//! The database aggregate: whole-file decoding, encoding and insertion.
//!
//! A database file is the 78-byte header, then `record_count` directory
//! entries, then (for the category-bearing policy) a 2-byte compatibility
//! pad, then the app-info block, then any reserved bytes, then every
//! entry's data in directory order. Decoding parses a whole buffer into
//! that model; encoding reverses it byte for byte; insertion appends new
//! entries with fresh offsets and freshly allocated identifiers.

use core::marker::PhantomData;

use vstd::prelude::*;

use crate::DatabaseError;
use crate::bytes::{be_u16, be_u32, zeros};
use crate::header::DatabaseHeader;
use crate::info::category::{AppInfoCategories, is_data_type, spec_is_data_type};
use crate::record::pdb_record::{
    PdbRecordHeader, RecordAttributes, spec_inferred_data_len, spec_rec_decode_err,
    spec_shape_len, spec_stored_offset,
};

verus! {

/// Length of the compatibility pad that precedes the app-info block in
/// category-bearing databases, for Palm OS releases before 3.5.
pub const COMPAT_PADDING_LEN: usize = 2;

/// A database format policy: one of the small closed set of layouts a
/// Palm database file can have. A policy fixes the directory entry shape,
/// whether the compatibility pad is present, and whether the app-info
/// block is the category block or absent.
pub trait DatabaseFormat: Sized {
    /// True when this format uses resource-shaped directory entries.
    spec fn spec_resource_shape() -> bool;

    /// True when a 2-byte legacy pad precedes the app-info block.
    spec fn spec_uses_compat_padding() -> bool;

    /// True when the format carries the category app-info block.
    spec fn spec_has_categories() -> bool;

    /// The shape selector, as a runtime value.
    fn resource_shape() -> (r: bool)
        ensures
            r == Self::spec_resource_shape(),
    ;

    /// The pad policy, as a runtime value.
    fn uses_compat_padding() -> (r: bool)
        ensures
            r == Self::spec_uses_compat_padding(),
    ;

    /// The app-info policy, as a runtime value.
    fn has_categories() -> (r: bool)
        ensures
            r == Self::spec_has_categories(),
    ;

    /// Whether the buffer's header may be decoded under this format: its
    /// type-selector bit must agree with the format's entry shape.
    fn is_valid(data: &[u8], header: &DatabaseHeader) -> (r: bool)
        ensures
            r == ((header.attributes & 1 == 1) == Self::spec_resource_shape()),
    ;
}

/// The PRC (resource container) format: resource-shaped entries, no pad,
/// no app-info block.
pub struct PrcDatabase;

impl DatabaseFormat for PrcDatabase {
    open spec fn spec_resource_shape() -> bool {
        true
    }

    open spec fn spec_uses_compat_padding() -> bool {
        false
    }

    open spec fn spec_has_categories() -> bool {
        false
    }

    fn resource_shape() -> bool {
        true
    }

    fn uses_compat_padding() -> bool {
        false
    }

    fn has_categories() -> bool {
        false
    }

    fn is_valid(_data: &[u8], header: &DatabaseHeader) -> bool {
        header.attributes & 1 == 1
    }
}

/// The plain PDB (record database) format: record-shaped entries, no pad,
/// no app-info block.
pub struct PdbDatabase;

impl DatabaseFormat for PdbDatabase {
    open spec fn spec_resource_shape() -> bool {
        false
    }

    open spec fn spec_uses_compat_padding() -> bool {
        false
    }

    open spec fn spec_has_categories() -> bool {
        false
    }

    fn resource_shape() -> bool {
        false
    }

    fn uses_compat_padding() -> bool {
        false
    }

    fn has_categories() -> bool {
        false
    }

    fn is_valid(_data: &[u8], header: &DatabaseHeader) -> (r: bool) {
        proof {
            let a = header.attributes;
            assert(a & 1 == 0 || a & 1 == 1) by (bit_vector);
        }
        header.attributes & 1 == 0
    }
}

/// The category-bearing PDB format: record-shaped entries, the 2-byte
/// compatibility pad, and the category app-info block.
pub struct PdbWithCategoriesDatabase;

impl DatabaseFormat for PdbWithCategoriesDatabase {
    open spec fn spec_resource_shape() -> bool {
        false
    }

    open spec fn spec_uses_compat_padding() -> bool {
        true
    }

    open spec fn spec_has_categories() -> bool {
        true
    }

    fn resource_shape() -> bool {
        false
    }

    fn uses_compat_padding() -> bool {
        true
    }

    fn has_categories() -> bool {
        true
    }

    fn is_valid(_data: &[u8], header: &DatabaseHeader) -> (r: bool) {
        proof {
            let a = header.attributes;
            assert(a & 1 == 0 || a & 1 == 1) by (bit_vector);
        }
        header.attributes & 1 == 0
    }
}

/// The concatenated fixed fields of a record directory, in list order.
pub open spec fn spec_dir_bytes(recs: Seq<(PdbRecordHeader, Vec<u8>)>) -> Seq<u8>
    decreases recs.len(),
{
    if recs.len() == 0 {
        Seq::empty()
    } else {
        recs[0].0.spec_bytes() + spec_dir_bytes(recs.drop_first())
    }
}

/// The concatenated data of a record list, in list order.
pub open spec fn spec_data_bytes(recs: Seq<(PdbRecordHeader, Vec<u8>)>) -> Seq<u8>
    decreases recs.len(),
{
    if recs.len() == 0 {
        Seq::empty()
    } else {
        recs[0].1@ + spec_data_bytes(recs.drop_first())
    }
}

/// Appending an entry appends its fixed fields to the directory bytes.
pub proof fn lemma_dir_bytes_push(recs: Seq<(PdbRecordHeader, Vec<u8>)>, e: (PdbRecordHeader, Vec<u8>))
    ensures
        spec_dir_bytes(recs.push(e)) =~= spec_dir_bytes(recs) + e.0.spec_bytes(),
    decreases recs.len(),
{
    if recs.len() == 0 {
        assert(recs.push(e).drop_first() =~= recs);
    } else {
        assert(recs.push(e).drop_first() =~= recs.drop_first().push(e));
        lemma_dir_bytes_push(recs.drop_first(), e);
    }
}

/// Appending an entry appends its data to the data bytes.
pub proof fn lemma_data_bytes_push(recs: Seq<(PdbRecordHeader, Vec<u8>)>, e: (PdbRecordHeader, Vec<u8>))
    ensures
        spec_data_bytes(recs.push(e)) =~= spec_data_bytes(recs) + e.1@,
    decreases recs.len(),
{
    if recs.len() == 0 {
        assert(recs.push(e).drop_first() =~= recs);
    } else {
        assert(recs.push(e).drop_first() =~= recs.drop_first().push(e));
        lemma_data_bytes_push(recs.drop_first(), e);
    }
}

/// The total length of the data of the first `i` records.
pub open spec fn spec_prefix_data_len(recs: Seq<(PdbRecordHeader, Vec<u8>)>, i: int) -> int
    decreases i,
{
    if i <= 0 {
        0
    } else {
        spec_prefix_data_len(recs, i - 1) + recs[i - 1].1@.len()
    }
}

/// A prefix sum splits off the first record's data length.
pub proof fn lemma_prefix_data_len_drop(recs: Seq<(PdbRecordHeader, Vec<u8>)>, i: int)
    requires
        1 <= i <= recs.len(),
    ensures
        spec_prefix_data_len(recs, i) == recs[0].1@.len() + spec_prefix_data_len(
            recs.drop_first(),
            i - 1,
        ),
    decreases i,
{
    if i > 1 {
        lemma_prefix_data_len_drop(recs, i - 1);
        assert(recs[i - 1] == recs.drop_first()[i - 2]);
    } else {
        assert(spec_prefix_data_len(recs, 0) == 0);
        assert(spec_prefix_data_len(recs.drop_first(), 0) == 0);
    }
}

/// Prefix sums of data lengths never decrease.
pub proof fn lemma_prefix_data_len_mono(recs: Seq<(PdbRecordHeader, Vec<u8>)>, i: int, j: int)
    requires
        0 <= i <= j,
    ensures
        spec_prefix_data_len(recs, i) <= spec_prefix_data_len(recs, j),
    decreases j - i,
{
    if i < j {
        lemma_prefix_data_len_mono(recs, i, j - 1);
    }
}

/// The concatenated data of a record list is as long as the sum of its
/// parts.
pub proof fn lemma_data_bytes_len(recs: Seq<(PdbRecordHeader, Vec<u8>)>)
    ensures
        spec_data_bytes(recs).len() == spec_prefix_data_len(recs, recs.len() as int),
    decreases recs.len(),
{
    if recs.len() > 0 {
        lemma_data_bytes_len(recs.drop_first());
        lemma_prefix_data_len_drop(recs, recs.len() as int);
    }
}

/// Record `i`'s data lies at its prefix-sum position within the
/// concatenated data.
pub proof fn lemma_data_bytes_slice(recs: Seq<(PdbRecordHeader, Vec<u8>)>, i: int)
    requires
        0 <= i < recs.len(),
    ensures
        spec_data_bytes(recs).subrange(
            spec_prefix_data_len(recs, i),
            spec_prefix_data_len(recs, i) + recs[i].1@.len(),
        ) =~= recs[i].1@,
    decreases i,
{
    lemma_data_bytes_len(recs);
    lemma_data_bytes_len(recs.drop_first());
    lemma_prefix_data_len_mono(recs, i + 1, recs.len() as int);
    if i == 0 {
        assert(spec_prefix_data_len(recs, 0) == 0);
    } else {
        lemma_data_bytes_slice(recs.drop_first(), i - 1);
        lemma_prefix_data_len_drop(recs, i);
        let p = spec_prefix_data_len(recs, i);
        let p2 = spec_prefix_data_len(recs.drop_first(), i - 1);
        let l0 = recs[0].1@.len() as int;
        assert(recs[i] == recs.drop_first()[i - 1]);
        assert(p == l0 + p2);
        lemma_prefix_data_len_mono(recs.drop_first(), 0, i - 1);
        assert(spec_prefix_data_len(recs.drop_first(), 0) == 0);
        assert(p2 >= 0);
        assert(spec_prefix_data_len(recs.drop_first(), i) == p2 + recs.drop_first()[i - 1].1@.len());
        lemma_prefix_data_len_mono(recs.drop_first(), i, recs.drop_first().len() as int);
        assert(p2 + recs[i].1@.len() <= spec_data_bytes(recs.drop_first()).len());
        assert(spec_data_bytes(recs) == recs[0].1@ + spec_data_bytes(recs.drop_first()));
        assert forall|k: int| 0 <= k < recs[i].1@.len() implies #[trigger] spec_data_bytes(
            recs,
        )[p + k] == spec_data_bytes(recs.drop_first())[p2 + k] by {
            assert(p + k == l0 + (p2 + k));
            assert((recs[0].1@ + spec_data_bytes(recs.drop_first()))[l0 + (p2 + k)]
                == spec_data_bytes(recs.drop_first())[p2 + k]);
        }
        assert(spec_data_bytes(recs).subrange(p, p + recs[i].1@.len()) =~= spec_data_bytes(
            recs.drop_first(),
        ).subrange(p2, p2 + recs.drop_first()[i - 1].1@.len()));
    }
}

/// Every entry of the given shape encodes to that shape's length, so the
/// directory bytes are the shape length times the entry count.
pub proof fn lemma_dir_bytes_len(recs: Seq<(PdbRecordHeader, Vec<u8>)>, rs: bool)
    requires
        forall|i: int|
            0 <= i < recs.len() ==> (#[trigger] recs[i]).0.wf() && recs[i].0.is_resource_shape()
                == rs,
    ensures
        spec_dir_bytes(recs).len() == spec_shape_len(rs) * recs.len(),
    decreases recs.len(),
{
    let sl = spec_shape_len(rs);
    if recs.len() == 0 {
        assert(sl * 0 == 0) by (nonlinear_arith);
    } else {
        assert(recs[0].0.wf() && recs[0].0.is_resource_shape() == rs);
        assert(recs[0].0.spec_bytes().len() == sl);
        lemma_dir_bytes_len(recs.drop_first(), rs);
        assert(sl * recs.len() == sl + sl * (recs.len() - 1)) by (nonlinear_arith);
    }
}

/// Entry `i`'s fixed fields lie at their slot within the directory bytes.
pub proof fn lemma_dir_bytes_slice(recs: Seq<(PdbRecordHeader, Vec<u8>)>, rs: bool, i: int)
    requires
        forall|k: int|
            0 <= k < recs.len() ==> (#[trigger] recs[k]).0.wf() && recs[k].0.is_resource_shape()
                == rs,
        0 <= i < recs.len(),
    ensures
        spec_dir_bytes(recs).subrange(
            spec_shape_len(rs) * i,
            spec_shape_len(rs) * i + spec_shape_len(rs),
        ) =~= recs[i].0.spec_bytes(),
    decreases i,
{
    let sl = spec_shape_len(rs);
    lemma_dir_bytes_len(recs, rs);
    lemma_dir_bytes_len(recs.drop_first(), rs);
    assert(recs[0].0.spec_bytes().len() == sl);
    assert(sl * i + sl <= sl * recs.len()) by (nonlinear_arith)
        requires
            0 <= i < recs.len(),
            sl > 0,
    ;
    if i == 0 {
        assert(sl * 0 == 0) by (nonlinear_arith);
    } else {
        lemma_dir_bytes_slice(recs.drop_first(), rs, i - 1);
        assert(recs[i] == recs.drop_first()[i - 1]);
        assert(sl * i == sl + sl * (i - 1)) by (nonlinear_arith);
        assert forall|k: int| 0 <= k < sl implies #[trigger] spec_dir_bytes(recs)[sl * i + k]
            == spec_dir_bytes(recs.drop_first())[sl * (i - 1) + k] by {
            assert(sl * i + k == sl + (sl * (i - 1) + k));
        }
        assert(spec_dir_bytes(recs).subrange(sl * i, sl * i + sl) =~= spec_dir_bytes(
            recs.drop_first(),
        ).subrange(sl * (i - 1), sl * (i - 1) + sl));
    }
}

/// Record lists whose entries encode to the same fixed fields have the
/// same directory bytes.
pub proof fn lemma_dir_bytes_congruent(
    r1: Seq<(PdbRecordHeader, Vec<u8>)>,
    r2: Seq<(PdbRecordHeader, Vec<u8>)>,
)
    requires
        r1.len() == r2.len(),
        forall|i: int| 0 <= i < r1.len() ==> (#[trigger] r1[i]).0.spec_bytes() == r2[i].0.spec_bytes(),
    ensures
        spec_dir_bytes(r1) =~= spec_dir_bytes(r2),
    decreases r1.len(),
{
    if r1.len() > 0 {
        assert(r1[0].0.spec_bytes() == r2[0].0.spec_bytes());
        assert forall|i: int| 0 <= i < r1.drop_first().len() implies (#[trigger] r1.drop_first()[i]).0.spec_bytes()
            == r2.drop_first()[i].0.spec_bytes() by {
            assert(r1[i + 1].0.spec_bytes() == r2[i + 1].0.spec_bytes());
        }
        lemma_dir_bytes_congruent(r1.drop_first(), r2.drop_first());
    }
}

/// Record lists with pointwise equal data have the same data bytes.
pub proof fn lemma_data_bytes_congruent(
    r1: Seq<(PdbRecordHeader, Vec<u8>)>,
    r2: Seq<(PdbRecordHeader, Vec<u8>)>,
)
    requires
        r1.len() == r2.len(),
        forall|i: int| 0 <= i < r1.len() ==> (#[trigger] r1[i]).1@ == r2[i].1@,
    ensures
        spec_data_bytes(r1) =~= spec_data_bytes(r2),
    decreases r1.len(),
{
    if r1.len() > 0 {
        assert(r1[0].1@ == r2[0].1@);
        assert forall|i: int| 0 <= i < r1.drop_first().len() implies (#[trigger] r1.drop_first()[i]).1@
            == r2.drop_first()[i].1@ by {
            assert(r1[i + 1].1@ == r2[i + 1].1@);
        }
        lemma_data_bytes_congruent(r1.drop_first(), r2.drop_first());
    }
}

/// The record count stored in a buffer's header.
pub open spec fn spec_count(b: Seq<u8>) -> int {
    be_u16(b.subrange(76, 78)) as int
}

/// Position of directory entry `i`.
pub open spec fn spec_entry_pos(rs: bool, i: int) -> int {
    78 + spec_shape_len(rs) * i
}

/// End of the record directory.
pub open spec fn spec_dir_end(rs: bool, b: Seq<u8>) -> int {
    spec_entry_pos(rs, spec_count(b))
}

/// End of the compatibility pad (equal to the directory end when the
/// policy has no pad).
pub open spec fn spec_pad_end(rs: bool, pad: bool, b: Seq<u8>) -> int {
    spec_dir_end(rs, b) + if pad {
        2int
    } else {
        0int
    }
}

/// True when the buffer's stored type code is the generic data type, the
/// gate for category decoding.
pub open spec fn spec_buf_is_data(b: Seq<u8>) -> bool {
    b.subrange(60, 64) == seq![68u8, 65u8, 84u8, 65u8]
}

/// End of the app-info block (equal to the pad end when no block is
/// decoded).
pub open spec fn spec_ai_end(rs: bool, pad: bool, cats: bool, b: Seq<u8>) -> int {
    spec_pad_end(rs, pad, b) + if cats && spec_buf_is_data(b) {
        276int
    } else {
        0int
    }
}

/// The stored data offset of directory entry `i`.
pub open spec fn spec_entry_off(rs: bool, b: Seq<u8>, i: int) -> int {
    spec_stored_offset(rs, b, spec_entry_pos(rs, i)) as int
}

/// The inferred data length of directory entry `i`.
pub open spec fn spec_entry_len(rs: bool, b: Seq<u8>, i: int) -> int {
    spec_inferred_data_len(rs, b, spec_entry_pos(rs, i))
}

/// The reserved region: the bytes between the end of the app-info block
/// and the first record's data, captured verbatim; empty when there are no
/// records or no gap.
pub open spec fn spec_reserved_region(rs: bool, pad: bool, cats: bool, b: Seq<u8>) -> Seq<u8> {
    if spec_count(b) > 0 && spec_entry_off(rs, b, 0) > spec_ai_end(rs, pad, cats, b) {
        b.subrange(spec_ai_end(rs, pad, cats, b), spec_entry_off(rs, b, 0))
    } else {
        Seq::empty()
    }
}

/// The first failure among directory entries `i..n`, in decode order.
pub open spec fn spec_dir_err(rs: bool, b: Seq<u8>, i: int, n: int) -> Option<DatabaseError>
    decreases n - i,
{
    if i < 0 || i >= n {
        None
    } else {
        match spec_rec_decode_err(rs, b, spec_entry_pos(rs, i)) {
            Some(e) => Some(e),
            None => spec_dir_err(rs, b, i + 1, n),
        }
    }
}

/// The first data slice among entries `i..n` that reaches outside the
/// buffer, in decode order.
pub open spec fn spec_data_err(rs: bool, b: Seq<u8>, i: int, n: int) -> Option<DatabaseError>
    decreases n - i,
{
    if i < 0 || i >= n {
        None
    } else if spec_entry_off(rs, b, i) + spec_entry_len(rs, b, i) > b.len() {
        Some(DatabaseError::OutOfBounds)
    } else {
        spec_data_err(rs, b, i + 1, n)
    }
}

/// Skipping a failure-free prefix of the directory does not change which
/// failure is found.
pub proof fn lemma_dir_err_skip(rs: bool, b: Seq<u8>, i: int, n: int)
    requires
        0 <= i <= n,
        forall|j: int| 0 <= j < i ==> spec_rec_decode_err(rs, b, spec_entry_pos(rs, j)) is None,
    ensures
        spec_dir_err(rs, b, 0, n) == spec_dir_err(rs, b, i, n),
    decreases i,
{
    if i > 0 {
        lemma_dir_err_skip(rs, b, i - 1, n);
        assert(spec_dir_err(rs, b, i - 1, n) == spec_dir_err(rs, b, i, n));
    }
}

/// A failure-free directory has no failing entry.
pub proof fn lemma_dir_err_none_all(rs: bool, b: Seq<u8>, i: int, n: int)
    requires
        0 <= i,
        spec_dir_err(rs, b, i, n) is None,
    ensures
        forall|j: int|
            i <= j < n ==> spec_rec_decode_err(rs, b, spec_entry_pos(rs, j)) is None,
    decreases n - i,
{
    if i < n {
        lemma_dir_err_none_all(rs, b, i + 1, n);
    }
}

/// Skipping a failure-free prefix of the data slices does not change
/// which failure is found.
pub proof fn lemma_data_err_skip(rs: bool, b: Seq<u8>, i: int, n: int)
    requires
        0 <= i <= n,
        forall|j: int|
            0 <= j < i ==> spec_entry_off(rs, b, j) + spec_entry_len(rs, b, j) <= b.len(),
    ensures
        spec_data_err(rs, b, 0, n) == spec_data_err(rs, b, i, n),
    decreases i,
{
    if i > 0 {
        lemma_data_err_skip(rs, b, i - 1, n);
    }
}

/// Whether decoding a whole buffer under the given policy fails, and with
/// which error, mirroring the decode pass: header, format check,
/// directory, pad, app info, reserved region, data slices.
pub open spec fn spec_db_decode_err(rs: bool, pad: bool, cats: bool, b: Seq<u8>) -> Option<
    DatabaseError,
> {
    let n = spec_count(b);
    if b.len() < 78 {
        Some(DatabaseError::Truncated)
    } else if ((be_u16(b.subrange(32, 34)) & 1 == 1) != rs) {
        Some(DatabaseError::FormatMismatch)
    } else if spec_dir_err(rs, b, 0, n) is Some {
        spec_dir_err(rs, b, 0, n)
    } else if pad && spec_dir_end(rs, b) + 2 > b.len() {
        Some(DatabaseError::Truncated)
    } else if cats && spec_buf_is_data(b) && spec_pad_end(rs, pad, b) + 276 > b.len() {
        Some(DatabaseError::Truncated)
    } else if n > 0 && spec_entry_off(rs, b, 0) > spec_ai_end(rs, pad, cats, b) && spec_entry_off(
        rs,
        b,
        0,
    ) > b.len() {
        Some(DatabaseError::Truncated)
    } else if spec_data_err(rs, b, 0, n) is Some {
        spec_data_err(rs, b, 0, n)
    } else {
        None
    }
}

/// A representation of a Palm OS database file.
///
/// The type parameter selects the format policy; decoding checks the
/// buffer against it. The record headers are decoded snapshots; insertion
/// appends new pairs but does not update the header's stored record
/// count, which callers must reconcile before serializing.
pub struct PalmDatabase<T: DatabaseFormat> {
    pub header: DatabaseHeader,
    /// The decoded app-info block. Formats without one hold the default
    /// empty value, which encodes to no bytes at all.
    pub app_info: AppInfoCategories,
    /// The reserved region (also called sort info area): bytes between the
    /// app-info block and the first record's data, preserved verbatim.
    pub application_reserved: Vec<u8>,
    /// Record headers together with their contained data, in directory
    /// order. This is for convenience and does not match the on-disk
    /// layout, where all headers precede all data.
    pub records: Vec<(PdbRecordHeader, Vec<u8>)>,
    /// A verbatim copy of the buffer this database was decoded from.
    pub original_data: Vec<u8>,
    pub _marker: PhantomData<T>,
}

impl<T: DatabaseFormat> PalmDatabase<T> {
    /// Structural well-formedness of every component.
    pub open spec fn wf(self) -> bool {
        &&& self.header.wf()
        &&& self.app_info.wf()
        &&& forall|i: int|
            0 <= i < self.records@.len() ==> (#[trigger] self.records@[i]).0.wf()
    }

    /// The serialized form: header, directory, pad (policy permitting),
    /// app info, reserved bytes, then all record data.
    pub open spec fn spec_bytes(self) -> Seq<u8> {
        self.header.spec_bytes() + spec_dir_bytes(self.records@) + (
        if T::spec_uses_compat_padding() {
            zeros(2)
        } else {
            Seq::empty()
        }) + self.app_info.spec_bytes() + self.application_reserved@ + spec_data_bytes(
            self.records@,
        )
    }

    /// True when this value is what decoding `b` under this policy
    /// produces: every component decoded from its place in the buffer.
    pub open spec fn decodes(self, b: Seq<u8>) -> bool {
        let rs = T::spec_resource_shape();
        let pad = T::spec_uses_compat_padding();
        let cats = T::spec_has_categories();
        let n = spec_count(b);
        &&& self.header.decodes(b)
        &&& self.records@.len() == n
        &&& forall|i: int|
            0 <= i < n ==> (#[trigger] self.records@[i]).0.decodes_at(rs, b, spec_entry_pos(rs, i))
        &&& forall|i: int|
            0 <= i < n ==> (#[trigger] self.records@[i]).1@ == b.subrange(
                spec_entry_off(rs, b, i),
                spec_entry_off(rs, b, i) + spec_entry_len(rs, b, i),
            )
        &&& (cats ==> self.app_info.decodes(self.header, b, spec_pad_end(rs, pad, b)))
        &&& (!cats ==> self.app_info.spec_is_default())
        &&& self.application_reserved@ == spec_reserved_region(rs, pad, cats, b)
        &&& self.original_data@ == b
    }

    /// Decode a whole database file. All-or-nothing: the first truncation,
    /// format mismatch or out-of-bounds slice aborts the decode with that
    /// error.
    #[verifier::loop_isolation(false)]
    #[verifier::rlimit(100)]
    pub fn from_bytes(data: &[u8]) -> (r: Result<Self, DatabaseError>)
        requires
            data@.len() <= u32::MAX,
        ensures
            match spec_db_decode_err(
                T::spec_resource_shape(),
                T::spec_uses_compat_padding(),
                T::spec_has_categories(),
                data@,
            ) {
                Some(e) => r == Err::<Self, DatabaseError>(e),
                None => r matches Ok(db) && db.decodes(data@) && db.wf(),
            },
    {
        let ghost rs_s = T::spec_resource_shape();
        let ghost pad_s = T::spec_uses_compat_padding();
        let ghost cats_s = T::spec_has_categories();
        let header = match DatabaseHeader::from_bytes(data) {
            Ok(h) => h,
            Err(e) => {
                return Err(e);
            },
        };
        if !T::is_valid(data, &header) {
            return Err(DatabaseError::FormatMismatch);
        }
        proof {
            assert(header.attributes == be_u16(data@.subrange(32, 34)));
        }
        let rs = T::resource_shape();
        let sl: usize = if rs {
            10
        } else {
            8
        };
        let n = header.record_count as usize;
        proof {
            assert(sl as int == spec_shape_len(rs_s));
            assert(header.record_count == be_u16(data@.subrange(76, 78)));
            assert(n as int == spec_count(data@));
            assert(sl * n <= 655350) by (nonlinear_arith)
                requires
                    sl <= 10,
                    n <= 65535,
            ;
        }
        let mut i: usize = 0;
        while i < n
            invariant
                i <= n,
                forall|j: int|
                    0 <= j < i ==> spec_rec_decode_err(rs_s, data@, spec_entry_pos(rs_s, j))
                        is None,
            decreases n - i,
        {
            proof {
                assert(sl * i <= sl * n) by (nonlinear_arith)
                    requires
                        0 <= i <= n,
                        0 <= sl,
                ;
                assert((78 + sl * i) as int == spec_entry_pos(rs_s, i as int));
            }
            match PdbRecordHeader::from_bytes(&header, data, 78 + sl * i) {
                Ok(_) => (),
                Err(e) => {
                    proof {
                        lemma_dir_err_skip(rs_s, data@, i as int, n as int);
                    }
                    return Err(e);
                },
            }
            i = i + 1;
        }
        proof {
            lemma_dir_err_skip(rs_s, data@, n as int, n as int);
            lemma_dir_err_none_all(rs_s, data@, 0, n as int);
        }
        let dir_end = 78 + sl * n;
        proof {
            assert(dir_end as int == spec_dir_end(rs_s, data@));
        }
        if T::uses_compat_padding() {
            if dir_end + 2 > data.len() {
                return Err(DatabaseError::Truncated);
            }
        }
        let ai_pos = if T::uses_compat_padding() {
            dir_end + 2
        } else {
            dir_end
        };
        proof {
            assert(ai_pos as int == spec_pad_end(rs_s, pad_s, data@));
            assert(header.type_code@ == data@.subrange(60, 64));
            assert(spec_is_data_type(header) == spec_buf_is_data(data@));
        }
        let app_info = if T::has_categories() {
            match AppInfoCategories::from_bytes(&header, data, ai_pos) {
                Ok(a) => a,
                Err(e) => {
                    return Err(e);
                },
            }
        } else {
            AppInfoCategories::default_value()
        };
        let ai_end = if T::has_categories() && is_data_type(&header) {
            ai_pos + 276
        } else {
            ai_pos
        };
        proof {
            assert(ai_end as int == spec_ai_end(rs_s, pad_s, cats_s, data@));
        }
        let application_reserved: Vec<u8>;
        if n > 0 {
            let first = match PdbRecordHeader::from_bytes(&header, data, 78) {
                Ok(h) => h,
                Err(_) => {
                    return Err(DatabaseError::Truncated);
                },
            };
            let off0 = first.data_offset() as usize;
            proof {
                assert(spec_entry_pos(rs_s, 0) == 78);
                assert(off0 as int == spec_entry_off(rs_s, data@, 0));
            }
            if off0 > ai_end {
                if off0 > data.len() {
                    return Err(DatabaseError::Truncated);
                }
                application_reserved = vstd::slice::slice_to_vec(
                    vstd::slice::slice_subrange(data, ai_end, off0),
                );
                proof {
                    assert(application_reserved@ == spec_reserved_region(
                        rs_s,
                        pad_s,
                        cats_s,
                        data@,
                    ));
                }
            } else {
                application_reserved = Vec::new();
                proof {
                    assert(application_reserved@ == spec_reserved_region(
                        rs_s,
                        pad_s,
                        cats_s,
                        data@,
                    ));
                }
            }
        } else {
            application_reserved = Vec::new();
            proof {
                assert(application_reserved@ == spec_reserved_region(rs_s, pad_s, cats_s, data@));
            }
        }
        let mut records: Vec<(PdbRecordHeader, Vec<u8>)> = Vec::new();
        let mut k: usize = 0;
        while k < n
            invariant
                k <= n,
                records@.len() == k,
                forall|j: int|
                    0 <= j < k ==> (#[trigger] records@[j]).0.decodes_at(
                        rs_s,
                        data@,
                        spec_entry_pos(rs_s, j),
                    ) && records@[j].0.wf(),
                forall|j: int|
                    0 <= j < k ==> (#[trigger] records@[j]).1@ == data@.subrange(
                        spec_entry_off(rs_s, data@, j),
                        spec_entry_off(rs_s, data@, j) + spec_entry_len(rs_s, data@, j),
                    ),
                forall|j: int|
                    0 <= j < k ==> spec_entry_off(rs_s, data@, j) + spec_entry_len(rs_s, data@, j)
                        <= data@.len(),
            decreases n - k,
        {
            proof {
                assert(sl * k <= sl * n) by (nonlinear_arith)
                    requires
                        0 <= k <= n,
                        0 <= sl,
                ;
                assert((78 + sl * k) as int == spec_entry_pos(rs_s, k as int));
            }
            let hdr_k = match PdbRecordHeader::from_bytes(&header, data, 78 + sl * k) {
                Ok(h) => h,
                Err(_) => {
                    return Err(DatabaseError::Truncated);
                },
            };
            let off = hdr_k.data_offset() as usize;
            let dlen = match hdr_k.data_len() {
                Some(l) => l as usize,
                None => 0,
            };
            proof {
                let ghost il = spec_entry_len(rs_s, data@, k as int);
                assert(0 <= il);
                assert(il <= u32::MAX);
                assert(off as int == spec_entry_off(rs_s, data@, k as int));
                assert(dlen as int == il);
            }
            if off > data.len() || dlen > data.len() - off {
                proof {
                    lemma_data_err_skip(rs_s, data@, k as int, n as int);
                }
                return Err(DatabaseError::OutOfBounds);
            }
            let d = vstd::slice::slice_to_vec(vstd::slice::slice_subrange(data, off, off + dlen));
            records.push((hdr_k, d));
            k = k + 1;
        }
        proof {
            lemma_data_err_skip(rs_s, data@, n as int, n as int);
        }
        Ok(
            PalmDatabase {
                header,
                app_info,
                application_reserved,
                records,
                original_data: vstd::slice::slice_to_vec(data),
                _marker: PhantomData,
            },
        )
    }

    /// Serialize the database: header bytes, every record header in list
    /// order, the pad if the policy requires it, the app-info bytes, the
    /// reserved bytes, and every record's data in list order. No offsets
    /// are validated: a model whose stored offsets disagree with this
    /// layout encodes an inconsistent file rather than failing.
    #[verifier::loop_isolation(false)]
    pub fn to_bytes(&self) -> (r: Result<Vec<u8>, DatabaseError>)
        requires
            self.wf(),
        ensures
            r matches Ok(v) && v@ == self.spec_bytes(),
    {
        let mut out = match self.header.to_bytes() {
            Ok(v) => v,
            Err(e) => {
                return Err(e);
            },
        };
        let n = self.records.len();
        let mut i: usize = 0;
        while i < n
            invariant
                i <= n,
                out@ =~= self.header.spec_bytes() + spec_dir_bytes(
                    self.records@.subrange(0, i as int),
                ),
            decreases n - i,
        {
            let hb = match self.records[i].0.to_bytes() {
                Ok(v) => v,
                Err(e) => {
                    return Err(e);
                },
            };
            crate::bytes::push_bytes(&mut out, &hb);
            proof {
                assert(self.records@.subrange(0, i + 1) =~= self.records@.subrange(
                    0,
                    i as int,
                ).push(self.records@[i as int]));
                lemma_dir_bytes_push(self.records@.subrange(0, i as int), self.records@[i as int]);
            }
            i = i + 1;
        }
        proof {
            assert(self.records@.subrange(0, n as int) =~= self.records@);
        }
        if T::uses_compat_padding() {
            out.push(0u8);
            out.push(0u8);
            proof {
                assert(out@ =~= self.header.spec_bytes() + spec_dir_bytes(self.records@) + zeros(
                    2,
                ));
            }
        }
        let ab = match self.app_info.to_bytes() {
            Ok(v) => v,
            Err(e) => {
                return Err(e);
            },
        };
        crate::bytes::push_bytes(&mut out, &ab);
        crate::bytes::push_bytes(&mut out, &self.application_reserved);
        let mut k: usize = 0;
        let ghost mid = out@;
        while k < n
            invariant
                k <= n,
                out@ =~= mid + spec_data_bytes(self.records@.subrange(0, k as int)),
            decreases n - k,
        {
            crate::bytes::push_bytes(&mut out, &self.records[k].1);
            proof {
                assert(self.records@.subrange(0, k + 1) =~= self.records@.subrange(
                    0,
                    k as int,
                ).push(self.records@[k as int]));
                lemma_data_bytes_push(self.records@.subrange(0, k as int), self.records@[k as int]);
            }
            k = k + 1;
        }
        proof {
            assert(self.records@.subrange(0, n as int) =~= self.records@);
            assert(out@ =~= self.spec_bytes());
        }
        Ok(out)
    }

    /// The record headers together with their data, in directory order.
    pub fn list_records_resources(&self) -> (r: &Vec<(PdbRecordHeader, Vec<u8>)>)
        ensures
            r == &self.records,
    {
        &self.records
    }

    /// Where a newly appended entry's data will start: after the last
    /// entry's data, or at the end of the current serialization when the
    /// database has no entries yet.
    pub open spec fn spec_insert_base_offset(self) -> int {
        if self.records@.len() > 0 {
            let last = self.records@.last().0;
            last.spec_data_offset() + spec_len_or_zero(last.spec_data_len())
        } else {
            self.spec_bytes().len() as int
        }
    }

    /// Create a new record in the database, returning the id of the new
    /// record: the smallest unique id not already in use. The new entry is
    /// appended with a data offset one 8-byte directory slot past the end
    /// of the existing data; the header's stored record count is not
    /// updated.
    pub fn insert_record(&mut self, attributes: RecordAttributes, data: &[u8]) -> (r: u32)
        requires
            old(self).wf(),
            attributes.wf(),
            old(self).records@.len() < 0x100_0000,
            data@.len() <= u32::MAX,
            old(self).spec_insert_base_offset() + 8 <= u32::MAX,
        ensures
            final(self).header == old(self).header,
            final(self).app_info == old(self).app_info,
            final(self).application_reserved == old(self).application_reserved,
            final(self).original_data == old(self).original_data,
            final(self).records@.len() == old(self).records@.len() + 1,
            forall|i: int|
                0 <= i < old(self).records@.len() ==> final(self).records@[i] == old(
                    self,
                ).records@[i],
            spec_is_unique_id_mex(old(self).records@, r),
            final(self).records@.last().0 == (PdbRecordHeader::Record {
                attributes,
                unique_id: r,
                data_offset: (old(self).spec_insert_base_offset() + 8) as u32,
                data_len: if data@.len() == 0 {
                    Option::<u32>::None
                } else {
                    Some(data@.len() as u32)
                },
            }),
            final(self).records@.last().1@ == data@,
            final(self).wf(),
    {
        let unique_id = alloc_unique_id(&self.records);
        proof {
            lemma_unique_id_count_bound(self.records@, unique_id as int);
        }
        let record_header_offset: u32 = if self.records.len() > 0 {
            let idx = self.records.len() - 1;
            let off = self.records[idx].0.data_offset();
            let dl = match self.records[idx].0.data_len() {
                Some(l) => l,
                None => 0,
            };
            off + dl
        } else {
            let v = match self.to_bytes() {
                Ok(v) => v,
                Err(_) => Vec::new(),
            };
            v.len() as u32
        };
        let data_len: Option<u32> = if data.len() == 0 {
            None
        } else {
            Some(data.len() as u32)
        };
        let record = PdbRecordHeader::construct_record(
            attributes,
            unique_id,
            record_header_offset,
            data_len,
        );
        self.records.push((record, vstd::slice::slice_to_vec(data)));
        unique_id
    }

    /// Create a new resource in the database, returning the id of the new
    /// resource: the smallest resource id not already in use. The new
    /// entry is appended with a data offset one 10-byte directory slot
    /// past the end of the existing data; the header's stored record count
    /// is not updated.
    pub fn insert_resource(&mut self, name: &[u8; 4], data: &[u8]) -> (r: u16)
        requires
            old(self).wf(),
            old(self).records@.len() < 0x1_0000,
            data@.len() <= u32::MAX,
            old(self).spec_insert_base_offset() + 10 <= u32::MAX,
        ensures
            final(self).header == old(self).header,
            final(self).app_info == old(self).app_info,
            final(self).application_reserved == old(self).application_reserved,
            final(self).original_data == old(self).original_data,
            final(self).records@.len() == old(self).records@.len() + 1,
            forall|i: int|
                0 <= i < old(self).records@.len() ==> final(self).records@[i] == old(
                    self,
                ).records@[i],
            spec_is_resource_id_mex(old(self).records@, r),
            final(self).records@.last().0 matches PdbRecordHeader::Resource {
                name: rname,
                record_id,
                data_offset,
                data_len,
            } && rname@ == name@ && record_id == r && data_offset == (old(
                self,
            ).spec_insert_base_offset() + 10) as u32 && data_len == (if data@.len() == 0 {
                Option::<u32>::None
            } else {
                Some(data@.len() as u32)
            }),
            final(self).records@.last().1@ == data@,
            final(self).wf(),
    {
        let resource_id = alloc_resource_id(&self.records);
        let record_header_offset: u32 = if self.records.len() > 0 {
            let idx = self.records.len() - 1;
            let off = self.records[idx].0.data_offset();
            let dl = match self.records[idx].0.data_len() {
                Some(l) => l,
                None => 0,
            };
            off + dl
        } else {
            let v = match self.to_bytes() {
                Ok(v) => v,
                Err(_) => Vec::new(),
            };
            v.len() as u32
        };
        let data_len: Option<u32> = if data.len() == 0 {
            None
        } else {
            Some(data.len() as u32)
        };
        let record = PdbRecordHeader::construct_resource(
            name,
            resource_id,
            record_header_offset,
            data_len,
        );
        self.records.push((record, vstd::slice::slice_to_vec(data)));
        resource_id
    }
}

impl<T: DatabaseFormat> PalmDatabase<T> {
    /// Where the record data region begins in this database's encoding:
    /// after the header, the directory, the pad, the app-info block and
    /// the reserved bytes.
    pub open spec fn spec_data_start(self) -> int {
        78 + spec_shape_len(T::spec_resource_shape()) * self.records@.len() + (
        if T::spec_uses_compat_padding() {
            2int
        } else {
            0int
        }) + (if self.app_info.is_data {
            276int
        } else {
            0int
        }) + self.application_reserved@.len()
    }

    /// The last directory entry's lookahead is benign: the 4 bytes after
    /// the directory either do not exist, or do not read as an offset
    /// strictly between the last entry's own offset and the end of the
    /// buffer. Decoding then measures the last entry's data against the
    /// end of the buffer, where it actually ends.
    pub open spec fn spec_benign_tail(self) -> bool {
        let rs = T::spec_resource_shape();
        let n = self.records@.len() as int;
        let b = self.spec_bytes();
        let p = spec_entry_pos(rs, n - 1) + spec_shape_len(rs)
            + crate::record::pdb_record::spec_peek_skip(rs);
        n == 0 || p + 4 > b.len() || be_u32(b.subrange(p, p + 4))
            <= self.records@.last().0.spec_data_offset() || be_u32(b.subrange(p, p + 4)) as int
            == b.len()
    }

    /// The self-describing layout that this codec itself produces: record
    /// count and shapes match the policy, every entry's stored offset
    /// points exactly at its data (laid out contiguously after the fixed
    /// blocks), interior entries have data, category names are nonzero,
    /// and the last entry's lookahead is benign.
    pub open spec fn spec_canonical(self) -> bool {
        let rs = T::spec_resource_shape();
        let cats = T::spec_has_categories();
        let n = self.records@.len() as int;
        &&& self.wf()
        &&& (self.header.attributes & 1 == 1) == rs
        &&& self.header.record_count as int == n
        &&& forall|i: int|
            0 <= i < n ==> (#[trigger] self.records@[i]).0.is_resource_shape() == rs
        &&& self.app_info.is_data == (cats && spec_is_data_type(self.header))
        &&& (self.app_info.is_data ==> forall|i: int|
            0 <= i < self.app_info.categories@.len()
                ==> crate::info::category::spec_cat_name_nonempty(
                #[trigger] self.app_info.categories@[i],
            ))
        &&& forall|i: int|
            0 <= i < n ==> (#[trigger] self.records@[i]).0.spec_data_offset() as int
                == self.spec_data_start() + spec_prefix_data_len(self.records@, i)
        &&& forall|i: int| 0 <= i < n - 1 ==> (#[trigger] self.records@[i]).1@.len() > 0
        &&& (n == 0 ==> self.application_reserved@.len() == 0)
        &&& self.spec_bytes().len() <= u32::MAX
        &&& self.spec_benign_tail()
    }
}

/// The lengths of the pieces of a canonical database's encoding.
pub proof fn lemma_piece_lens<T: DatabaseFormat>(db: PalmDatabase<T>)
    requires
        db.spec_canonical(),
    ensures
        db.header.spec_bytes().len() == 78,
        spec_dir_bytes(db.records@).len() == spec_shape_len(T::spec_resource_shape())
            * db.records@.len(),
        db.app_info.spec_bytes().len() == (if db.app_info.is_data {
            276int
        } else {
            0int
        }),
        spec_data_bytes(db.records@).len() == spec_prefix_data_len(
            db.records@,
            db.records@.len() as int,
        ),
        db.spec_bytes().len() == db.spec_data_start() + spec_prefix_data_len(
            db.records@,
            db.records@.len() as int,
        ),
{
    let rs = T::spec_resource_shape();
    lemma_dir_bytes_len(db.records@, rs);
    if db.app_info.is_data {
        crate::info::category::lemma_cat_names_len(db.app_info.categories@);
        assert(16 * db.app_info.categories@.len() + 16 * (16 - db.app_info.categories@.len())
            == 256) by (nonlinear_arith);
    }
    lemma_data_bytes_len(db.records@);
}

/// The header region of a canonical encoding, and what reads back from
/// it: the stored record count is the model's, and the stored type code
/// gates categories exactly as the model's header does.
#[verifier::rlimit(100)]
#[verifier::spinoff_prover]
pub proof fn lemma_region_header<T: DatabaseFormat>(db: PalmDatabase<T>)
    requires
        db.spec_canonical(),
    ensures
        db.spec_bytes().subrange(0, 78) == db.header.spec_bytes(),
        db.header.decodes(db.spec_bytes()),
        spec_count(db.spec_bytes()) == db.records@.len(),
        spec_buf_is_data(db.spec_bytes()) == spec_is_data_type(db.header),
        spec_dir_end(T::spec_resource_shape(), db.spec_bytes()) == 78 + spec_shape_len(
            T::spec_resource_shape(),
        ) * db.records@.len(),
        spec_ai_end(
            T::spec_resource_shape(),
            T::spec_uses_compat_padding(),
            T::spec_has_categories(),
            db.spec_bytes(),
        ) == db.spec_data_start() - db.application_reserved@.len(),
{
    let b = db.spec_bytes();
    lemma_piece_lens(db);
    assert(b.subrange(0, 78) =~= db.header.spec_bytes());
    crate::header::lemma_header_encode_decodes(db.header, b);
    assert(db.header.type_code@ == b.subrange(60, 64));
}

/// Directory entry `i` of a canonical encoding sits at its slot, and its
/// stored offset reads back as the entry's own data offset.
#[verifier::rlimit(100)]
#[verifier::spinoff_prover]
pub proof fn lemma_region_dir_entry<T: DatabaseFormat>(db: PalmDatabase<T>, i: int)
    requires
        db.spec_canonical(),
        0 <= i < db.records@.len(),
    ensures
        db.spec_bytes().subrange(
            spec_entry_pos(T::spec_resource_shape(), i),
            spec_entry_pos(T::spec_resource_shape(), i) + spec_shape_len(T::spec_resource_shape()),
        ) == db.records@[i].0.spec_bytes(),
        spec_entry_off(T::spec_resource_shape(), db.spec_bytes(), i)
            == db.records@[i].0.spec_data_offset(),
{
    let b = db.spec_bytes();
    let rs = T::spec_resource_shape();
    let sl = spec_shape_len(rs);
    let n = db.records@.len() as int;
    let recs = db.records@;
    let hb = db.header.spec_bytes();
    let dirb = spec_dir_bytes(recs);
    lemma_piece_lens(db);
    lemma_dir_bytes_slice(recs, rs, i);
    assert(sl * i + sl <= sl * n) by (nonlinear_arith)
        requires
            0 <= i < n,
            sl > 0,
    ;
    assert(sl * i >= 0) by (nonlinear_arith)
        requires
            0 <= i,
            sl > 0,
    ;
    let x1 = hb + dirb;
    assert forall|k: int| 0 <= k < sl implies #[trigger] b[spec_entry_pos(rs, i) + k]
        == dirb[sl * i + k] by {
        assert(x1[78 + (sl * i + k)] == dirb[sl * i + k]);
        assert(b[78 + (sl * i + k)] == x1[78 + (sl * i + k)]);
    }
    assert(b.subrange(spec_entry_pos(rs, i), spec_entry_pos(rs, i) + sl) =~= dirb.subrange(
        sl * i,
        sl * i + sl,
    ));
    crate::record::pdb_record::lemma_stored_offset_of_encoded(
        recs[i].0,
        rs,
        b,
        spec_entry_pos(rs, i),
    );
}

/// The app-info region of a canonical encoding holds the encoded block.
#[verifier::rlimit(100)]
#[verifier::spinoff_prover]
pub proof fn lemma_region_app<T: DatabaseFormat>(db: PalmDatabase<T>)
    requires
        db.spec_canonical(),
        db.app_info.is_data,
    ensures
        db.spec_bytes().subrange(
            spec_pad_end(T::spec_resource_shape(), T::spec_uses_compat_padding(), db.spec_bytes()),
            spec_pad_end(T::spec_resource_shape(), T::spec_uses_compat_padding(), db.spec_bytes())
                + 276,
        ) == db.app_info.spec_bytes(),
{
    let b = db.spec_bytes();
    let rs = T::spec_resource_shape();
    let pad = T::spec_uses_compat_padding();
    let recs = db.records@;
    let hb = db.header.spec_bytes();
    let dirb = spec_dir_bytes(recs);
    let padb = if pad {
        zeros(2)
    } else {
        Seq::<u8>::empty()
    };
    let ab = db.app_info.spec_bytes();
    lemma_piece_lens(db);
    lemma_region_header(db);
    let ap = spec_pad_end(rs, pad, b);
    let x1 = hb + dirb;
    let x2 = x1 + padb;
    let x3 = x2 + ab;
    assert(ap == x2.len());
    assert forall|k: int| 0 <= k < 276 implies #[trigger] b[ap + k] == ab[k] by {
        assert(x3[ap + k] == ab[k]);
        assert(b[ap + k] == x3[ap + k]);
    }
    assert(b.subrange(ap, ap + 276) =~= ab);
}

/// The reserved region of a canonical encoding holds the reserved bytes.
#[verifier::rlimit(100)]
#[verifier::spinoff_prover]
pub proof fn lemma_region_reserved<T: DatabaseFormat>(db: PalmDatabase<T>)
    requires
        db.spec_canonical(),
    ensures
        db.spec_bytes().subrange(
            db.spec_data_start() - db.application_reserved@.len(),
            db.spec_data_start(),
        ) == db.application_reserved@,
{
    let b = db.spec_bytes();
    let pad = T::spec_uses_compat_padding();
    let recs = db.records@;
    let hb = db.header.spec_bytes();
    let dirb = spec_dir_bytes(recs);
    let padb = if pad {
        zeros(2)
    } else {
        Seq::<u8>::empty()
    };
    let ab = db.app_info.spec_bytes();
    let rb = db.application_reserved@;
    lemma_piece_lens(db);
    let x1 = hb + dirb;
    let x2 = x1 + padb;
    let x3 = x2 + ab;
    let x4 = x3 + rb;
    let rp = db.spec_data_start() - rb.len();
    assert(rp == x3.len());
    assert forall|k: int| 0 <= k < rb.len() implies #[trigger] b[rp + k] == rb[k] by {
        assert(x4[rp + k] == rb[k]);
        assert(b[rp + k] == x4[rp + k]);
    }
    assert(b.subrange(rp, db.spec_data_start()) =~= rb);
}

/// Record `i`'s data in a canonical encoding sits exactly at its stored
/// offset.
#[verifier::rlimit(100)]
#[verifier::spinoff_prover]
pub proof fn lemma_region_data_entry<T: DatabaseFormat>(db: PalmDatabase<T>, i: int)
    requires
        db.spec_canonical(),
        0 <= i < db.records@.len(),
    ensures
        db.spec_bytes().subrange(
            db.records@[i].0.spec_data_offset() as int,
            db.records@[i].0.spec_data_offset() + db.records@[i].1@.len(),
        ) == db.records@[i].1@,
        db.records@[i].0.spec_data_offset() + db.records@[i].1@.len() <= db.spec_bytes().len(),
{
    let b = db.spec_bytes();
    let recs = db.records@;
    let n = recs.len() as int;
    let ds = db.spec_data_start();
    let datb = spec_data_bytes(recs);
    lemma_piece_lens(db);
    lemma_data_bytes_slice(recs, i);
    let p = spec_prefix_data_len(recs, i);
    lemma_prefix_data_len_mono(recs, 0, i);
    assert(spec_prefix_data_len(recs, 0) == 0);
    assert(spec_prefix_data_len(recs, i + 1) == p + recs[i].1@.len());
    lemma_prefix_data_len_mono(recs, i + 1, n);
    assert(recs[i].0.spec_data_offset() as int == ds + p);
    let x4 = (((db.header.spec_bytes() + spec_dir_bytes(recs)) + (
    if T::spec_uses_compat_padding() {
        zeros(2)
    } else {
        Seq::<u8>::empty()
    })) + db.app_info.spec_bytes()) + db.application_reserved@;
    assert(x4.len() == ds);
    assert(b == x4 + datb);
    assert forall|k: int| 0 <= k < recs[i].1@.len() implies #[trigger] b[ds + p + k]
        == datb[p + k] by {
        assert((x4 + datb)[ds + (p + k)] == datb[p + k]);
        assert(ds + p + k == ds + (p + k));
    }
    assert(b.subrange(ds + p, ds + p + recs[i].1@.len()) =~= datb.subrange(
        p,
        p + recs[i].1@.len(),
    ));
}

/// A directory whose entries all decode without failure reports no
/// failure.
pub proof fn lemma_dir_err_all_none(rs: bool, b: Seq<u8>, i: int, n: int)
    requires
        0 <= i,
        forall|j: int| i <= j < n ==> spec_rec_decode_err(rs, b, spec_entry_pos(rs, j)) is None,
    ensures
        spec_dir_err(rs, b, i, n) is None,
    decreases n - i,
{
    if i < n {
        lemma_dir_err_all_none(rs, b, i + 1, n);
    }
}

/// Data slices that all stay inside the buffer report no failure.
pub proof fn lemma_data_err_all_none(rs: bool, b: Seq<u8>, i: int, n: int)
    requires
        0 <= i,
        forall|j: int|
            i <= j < n ==> spec_entry_off(rs, b, j) + spec_entry_len(rs, b, j) <= b.len(),
    ensures
        spec_data_err(rs, b, i, n) is None,
    decreases n - i,
{
    if i < n {
        lemma_data_err_all_none(rs, b, i + 1, n);
    }
}

/// In a canonical encoding, every entry's inferred data length is exactly
/// the length of its data: an interior entry sees the next entry's larger
/// stored offset, and the last entry (its lookahead being benign) measures
/// to the end of the buffer, where its data ends.
#[verifier::rlimit(100)]
#[verifier::spinoff_prover]
pub proof fn lemma_entry_len_agrees<T: DatabaseFormat>(db: PalmDatabase<T>, i: int)
    requires
        db.spec_canonical(),
        0 <= i < db.records@.len(),
    ensures
        spec_entry_len(T::spec_resource_shape(), db.spec_bytes(), i) == db.records@[i].1@.len(),
        spec_entry_off(T::spec_resource_shape(), db.spec_bytes(), i)
            == db.records@[i].0.spec_data_offset(),
{
    let b = db.spec_bytes();
    let rs = T::spec_resource_shape();
    let sl = spec_shape_len(rs);
    let n = db.records@.len() as int;
    let recs = db.records@;
    lemma_piece_lens(db);
    lemma_region_dir_entry(db, i);
    assert(spec_prefix_data_len(recs, i + 1) == spec_prefix_data_len(recs, i) + recs[i].1@.len());
    if i < n - 1 {
        lemma_region_dir_entry(db, i + 1);
        assert(sl * (i + 1) == sl * i + sl) by (nonlinear_arith);
        assert(sl * (i + 2) <= sl * n) by (nonlinear_arith)
            requires
                i + 2 <= n,
                sl > 0,
        ;
        assert(sl * (i + 2) == sl * i + 2 * sl) by (nonlinear_arith);
        assert(spec_entry_pos(rs, i) + 2 * sl <= 78 + sl * n);
        assert(spec_entry_pos(rs, i + 1) == spec_entry_pos(rs, i) + sl);
        assert(recs[i + 1].0.spec_data_offset() as int == db.spec_data_start()
            + spec_prefix_data_len(recs, i + 1));
        assert(recs[i].1@.len() > 0);
        lemma_prefix_data_len_mono(recs, 0, i);
        assert(spec_prefix_data_len(recs, 0) == 0);
        crate::record::pdb_record::lemma_inferred_len_from_next_entry(
            rs,
            b,
            spec_entry_pos(rs, i),
        );
    } else {
        // Last entry: the benign-tail condition forces the fallback or an
        // offset equal to the total length, and both measure to the end.
        let pos = spec_entry_pos(rs, i);
        let off = spec_stored_offset(rs, b, pos) as int;
        lemma_prefix_data_len_mono(recs, 0, i);
        assert(spec_prefix_data_len(recs, 0) == 0);
        assert(off == db.spec_data_start() + spec_prefix_data_len(recs, i));
        assert(b.len() - off == recs[i].1@.len());
        match crate::record::pdb_record::spec_peek(rs, b, pos) {
            Some(v) => {
                if v > off {
                    assert(v as int == b.len());
                } else {
                    crate::record::pdb_record::lemma_inferred_len_at_end(rs, b, pos);
                }
            },
            None => {
                crate::record::pdb_record::lemma_inferred_len_at_end(rs, b, pos);
            },
        }
    }
}

/// Decoding a canonical database's own encoding never fails.
#[verifier::rlimit(100)]
#[verifier::spinoff_prover]
pub proof fn lemma_canonical_decode_ok<T: DatabaseFormat>(db: PalmDatabase<T>)
    requires
        db.spec_canonical(),
    ensures
        spec_db_decode_err(
            T::spec_resource_shape(),
            T::spec_uses_compat_padding(),
            T::spec_has_categories(),
            db.spec_bytes(),
        ) is None,
{
    let b = db.spec_bytes();
    let rs = T::spec_resource_shape();
    let pad = T::spec_uses_compat_padding();
    let cats = T::spec_has_categories();
    let sl = spec_shape_len(rs);
    let n = db.records@.len() as int;
    let recs = db.records@;
    lemma_piece_lens(db);
    lemma_region_header(db);
    lemma_prefix_data_len_mono(recs, 0, n);
    assert(spec_prefix_data_len(recs, 0) == 0);
    assert(b.len() >= db.spec_data_start());
    assert(be_u16(b.subrange(32, 34)) == db.header.attributes);
    assert forall|j: int| 0 <= j < n implies spec_rec_decode_err(rs, b, spec_entry_pos(rs, j))
        is None by {
        assert(sl * (j + 1) <= sl * n) by (nonlinear_arith)
            requires
                0 <= j < n,
                sl > 0,
        ;
        assert(sl * (j + 1) == sl * j + sl) by (nonlinear_arith);
        assert(spec_entry_pos(rs, j) + sl <= b.len());
        lemma_entry_len_agrees(db, j);
    }
    lemma_dir_err_all_none(rs, b, 0, n);
    assert forall|j: int| 0 <= j < n implies spec_entry_off(rs, b, j) + spec_entry_len(rs, b, j)
        <= b.len() by {
        lemma_entry_len_agrees(db, j);
        assert(spec_prefix_data_len(recs, j + 1) == spec_prefix_data_len(recs, j)
            + recs[j].1@.len());
        lemma_prefix_data_len_mono(recs, j + 1, n);
    }
    lemma_data_err_all_none(rs, b, 0, n);
    if n > 0 {
        lemma_entry_len_agrees(db, 0);
        lemma_prefix_data_len_mono(recs, 0, n);
    }
}

/// The full-file round trip: re-encoding whatever decodes from a
/// canonical database's own encoding yields that encoding, byte for byte.
#[verifier::rlimit(100)]
#[verifier::spinoff_prover]
pub proof fn lemma_database_round_trip<T: DatabaseFormat>(db: PalmDatabase<T>, db2: PalmDatabase<T>)
    requires
        db.spec_canonical(),
        db2.decodes(db.spec_bytes()),
    ensures
        db2.spec_bytes() == db.spec_bytes(),
{
    let b = db.spec_bytes();
    let rs = T::spec_resource_shape();
    let pad = T::spec_uses_compat_padding();
    let cats = T::spec_has_categories();
    let sl = spec_shape_len(rs);
    let n = db.records@.len() as int;
    let recs = db.records@;
    let recs2 = db2.records@;
    lemma_piece_lens(db);
    lemma_region_header(db);
    assert(recs2.len() == n);
    // The headers decode from the same bytes, so they re-encode alike.
    assert(db2.header.spec_bytes() =~= db.header.spec_bytes());
    // Each re-decoded directory entry re-encodes to its slot's bytes.
    assert forall|i: int| 0 <= i < n implies (#[trigger] recs2[i]).0.spec_bytes()
        == recs[i].0.spec_bytes() by {
        assert(sl * (i + 1) <= sl * n) by (nonlinear_arith)
            requires
                0 <= i < n,
                sl > 0,
        ;
        assert(sl * (i + 1) == sl * i + sl) by (nonlinear_arith);
        assert(spec_entry_pos(rs, i) + sl <= b.len());
        lemma_region_dir_entry(db, i);
        crate::record::pdb_record::lemma_rec_header_round_trip(
            recs2[i].0,
            rs,
            b,
            spec_entry_pos(rs, i),
        );
    }
    lemma_dir_bytes_congruent(recs2, recs);
    // The app-info blocks agree.
    assert(db2.app_info.spec_bytes() =~= db.app_info.spec_bytes()) by {
        if cats {
            if spec_is_data_type(db2.header) {
                assert(db.app_info.is_data);
                lemma_region_app(db);
                crate::info::category::lemma_app_info_round_trip(
                    db.app_info,
                    db2.app_info,
                    db2.header,
                    b,
                    spec_pad_end(rs, pad, b),
                );
            } else {
                assert(!db.app_info.is_data);
                assert(!db2.app_info.is_data);
            }
        } else {
            assert(!db.app_info.is_data);
            assert(!db2.app_info.is_data);
        }
    }
    // The reserved regions agree.
    assert(db2.application_reserved@ =~= db.application_reserved@) by {
        lemma_region_reserved(db);
        if n > 0 {
            lemma_region_dir_entry(db, 0);
            lemma_prefix_data_len_mono(recs, 0, n);
            assert(spec_prefix_data_len(recs, 0) == 0);
            assert(spec_entry_off(rs, b, 0) == db.spec_data_start());
            if db.application_reserved@.len() > 0 {
                assert(spec_reserved_region(rs, pad, cats, b) == b.subrange(
                    spec_ai_end(rs, pad, cats, b),
                    spec_entry_off(rs, b, 0),
                ));
            } else {
                assert(spec_reserved_region(rs, pad, cats, b) == Seq::<u8>::empty());
            }
        } else {
            assert(spec_reserved_region(rs, pad, cats, b) == Seq::<u8>::empty());
        }
    }
    // The record data agrees.
    assert forall|i: int| 0 <= i < n implies (#[trigger] recs2[i]).1@ == recs[i].1@ by {
        lemma_entry_len_agrees(db, i);
        lemma_region_data_entry(db, i);
    }
    lemma_data_bytes_congruent(recs2, recs);
    assert(db2.spec_bytes() == db.spec_bytes());
}

/// The numeric value of an optional stored length, taking 0 for `None`.
pub open spec fn spec_len_or_zero(l: Option<u32>) -> int {
    match l {
        Some(v) => v as int,
        None => 0,
    }
}

/// True when some entry of the list is a record with the given unique id.
pub open spec fn spec_has_unique_id(recs: Seq<(PdbRecordHeader, Vec<u8>)>, id: u32) -> bool {
    exists|i: int| 0 <= i < recs.len() && (#[trigger] recs[i]).0.spec_unique_id() == Some(id)
}

/// True when some entry of the list is a resource with the given id.
pub open spec fn spec_has_resource_id(recs: Seq<(PdbRecordHeader, Vec<u8>)>, id: u16) -> bool {
    exists|i: int| 0 <= i < recs.len() && (#[trigger] recs[i]).0.spec_resource_id() == Some(id)
}

/// True when `id` is the minimum excludant of the unique ids in use: it is
/// free, and every smaller id is taken.
pub open spec fn spec_is_unique_id_mex(recs: Seq<(PdbRecordHeader, Vec<u8>)>, id: u32) -> bool {
    &&& !spec_has_unique_id(recs, id)
    &&& forall|k: u32| k < id ==> #[trigger] spec_has_unique_id(recs, k)
}

/// True when `id` is the minimum excludant of the resource ids in use.
pub open spec fn spec_is_resource_id_mex(recs: Seq<(PdbRecordHeader, Vec<u8>)>, id: u16) -> bool {
    &&& !spec_has_resource_id(recs, id)
    &&& forall|k: u16| k < id ==> #[trigger] spec_has_resource_id(recs, k)
}

/// If every unique id below `c` is in use, the list has at least `c`
/// entries: distinct ids need distinct entries.
pub proof fn lemma_unique_id_count_bound(recs: Seq<(PdbRecordHeader, Vec<u8>)>, c: int)
    requires
        0 <= c <= u32::MAX + 1,
        forall|k: u32| k < c ==> #[trigger] spec_has_unique_id(recs, k),
    ensures
        c <= recs.len(),
{
    broadcast use vstd::seq_lib::seq_to_set_is_finite;

    let ids: Seq<int> = Seq::new(
        recs.len(),
        |i: int|
            match recs[i].0.spec_unique_id() {
                Some(u) => u as int,
                None => -1,
            },
    );
    let rng = vstd::set_lib::set_int_range(0, c);
    assert forall|x: int| rng.contains(x) implies ids.to_set().contains(x) by {
        assert(spec_has_unique_id(recs, x as u32));
        let i = choose|i: int|
            0 <= i < recs.len() && (#[trigger] recs[i]).0.spec_unique_id() == Some(x as u32);
        assert(ids[i] == x);
        assert(ids.contains(x));
    }
    vstd::set_lib::lemma_len_subset(rng, ids.to_set());
    vstd::set_lib::lemma_int_range(0, c);
    ids.lemma_cardinality_of_set();
}

/// If every resource id below `c` is in use, the list has at least `c`
/// entries.
pub proof fn lemma_resource_id_count_bound(recs: Seq<(PdbRecordHeader, Vec<u8>)>, c: int)
    requires
        0 <= c <= u16::MAX + 1,
        forall|k: u16| k < c ==> #[trigger] spec_has_resource_id(recs, k),
    ensures
        c <= recs.len(),
{
    broadcast use vstd::seq_lib::seq_to_set_is_finite;

    let ids: Seq<int> = Seq::new(
        recs.len(),
        |i: int|
            match recs[i].0.spec_resource_id() {
                Some(u) => u as int,
                None => -1,
            },
    );
    let rng = vstd::set_lib::set_int_range(0, c);
    assert forall|x: int| rng.contains(x) implies ids.to_set().contains(x) by {
        assert(spec_has_resource_id(recs, x as u16));
        let i = choose|i: int|
            0 <= i < recs.len() && (#[trigger] recs[i]).0.spec_resource_id() == Some(x as u16);
        assert(ids[i] == x);
        assert(ids.contains(x));
    }
    vstd::set_lib::lemma_len_subset(rng, ids.to_set());
    vstd::set_lib::lemma_int_range(0, c);
    ids.lemma_cardinality_of_set();
}

/// Check whether any record in the list carries the given unique id.
fn contains_unique_id(records: &Vec<(PdbRecordHeader, Vec<u8>)>, id: u32) -> (r: bool)
    ensures
        r == spec_has_unique_id(records@, id),
{
    let n = records.len();
    let mut i: usize = 0;
    while i < n
        invariant
            i <= n,
            n == records@.len(),
            forall|j: int| 0 <= j < i ==> (#[trigger] records@[j]).0.spec_unique_id() != Some(id),
        decreases n - i,
    {
        match records[i].0.unique_id() {
            Some(u) => {
                if u == id {
                    return true;
                }
            },
            None => (),
        }
        i = i + 1;
    }
    false
}

/// Check whether any resource in the list carries the given id.
fn contains_resource_id(records: &Vec<(PdbRecordHeader, Vec<u8>)>, id: u16) -> (r: bool)
    ensures
        r == spec_has_resource_id(records@, id),
{
    let n = records.len();
    let mut i: usize = 0;
    while i < n
        invariant
            i <= n,
            n == records@.len(),
            forall|j: int|
                0 <= j < i ==> (#[trigger] records@[j]).0.spec_resource_id() != Some(id),
        decreases n - i,
    {
        match records[i].0.resource_id() {
            Some(u) => {
                if u == id {
                    return true;
                }
            },
            None => (),
        }
        i = i + 1;
    }
    false
}

/// Allocate the smallest unique id not in use, scanning upward from zero.
fn alloc_unique_id(records: &Vec<(PdbRecordHeader, Vec<u8>)>) -> (r: u32)
    requires
        records@.len() <= u32::MAX,
    ensures
        spec_is_unique_id_mex(records@, r),
{
    let mut c: u32 = 0;
    while contains_unique_id(records, c)
        invariant
            records@.len() <= u32::MAX,
            c <= records@.len(),
            forall|k: u32| k < c ==> #[trigger] spec_has_unique_id(records@, k),
        decreases records@.len() - c,
    {
        proof {
            lemma_unique_id_count_bound(records@, c + 1);
        }
        c = c + 1;
    }
    c
}

/// Allocate the smallest resource id not in use, scanning upward from
/// zero.
fn alloc_resource_id(records: &Vec<(PdbRecordHeader, Vec<u8>)>) -> (r: u16)
    requires
        records@.len() <= u16::MAX,
    ensures
        spec_is_resource_id_mex(records@, r),
{
    let mut c: u16 = 0;
    while contains_resource_id(records, c)
        invariant
            records@.len() <= u16::MAX,
            c <= records@.len(),
            forall|k: u16| k < c ==> #[trigger] spec_has_resource_id(records@, k),
        decreases records@.len() - c,
    {
        proof {
            lemma_resource_id_count_bound(records@, c + 1);
        }
        c = c + 1;
    }
    c
}

/// The data of the first record in the list carrying the given unique id,
/// or `None` when no record does.
pub open spec fn spec_find_record_data(recs: Seq<(PdbRecordHeader, Vec<u8>)>, id: u32) -> Option<
    Seq<u8>,
>
    decreases recs.len(),
{
    if recs.len() == 0 {
        None
    } else if recs[0].0.spec_unique_id() == Some(id) {
        Some(recs[0].1@)
    } else {
        spec_find_record_data(recs.drop_first(), id)
    }
}

/// Inserting a record and then looking its returned id up in the record
/// list yields exactly the inserted bytes: the id was not in use before,
/// so the appended entry is the one the lookup finds.
pub proof fn lemma_insert_then_lookup(
    old_recs: Seq<(PdbRecordHeader, Vec<u8>)>,
    new_recs: Seq<(PdbRecordHeader, Vec<u8>)>,
    id: u32,
    data: Seq<u8>,
)
    requires
        new_recs.len() == old_recs.len() + 1,
        forall|i: int| 0 <= i < old_recs.len() ==> new_recs[i] == old_recs[i],
        new_recs.last().0.spec_unique_id() == Some(id),
        new_recs.last().1@ == data,
        !spec_has_unique_id(old_recs, id),
    ensures
        spec_find_record_data(new_recs, id) == Some(data),
    decreases old_recs.len(),
{
    if old_recs.len() == 0 {
        assert(new_recs[0] == new_recs.last());
    } else {
        assert(old_recs[0].0.spec_unique_id() != Some(id));
        assert(new_recs[0] == old_recs[0]);
        lemma_insert_then_lookup(old_recs.drop_first(), new_recs.drop_first(), id, data);
    }
}

} // verus!
