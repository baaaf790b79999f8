//! Record category helpers: the category-bearing app-info block.
//!
//! The block is 276 bytes: a 16-bit "renamed" bitmask, sixteen 16-byte
//! null-padded category names, sixteen category unique-id bytes, a "last
//! assigned id" byte and a reserved byte. Category ids are positional
//! (0 to 15); id 0 is conventionally "Unfiled". Decoding stops producing
//! categories at the first all-zero name slot; the remaining slots and the
//! trailing fields are still consumed, so the block always occupies its
//! full size. Only databases whose declared type code is the generic data
//! type carry this block; for any other type the codec reads and writes
//! nothing.

use vstd::prelude::*;

use crate::DatabaseError;
use crate::bytes::{
    be_u16, push_be_u16, push_bytes, push_zeros, read_be_u16, spec_trimmed, trimmed,
    try_str_from_bytes, u16_be_bytes, zeros,
};
use crate::header::DatabaseHeader;

verus! {

/// Masking a record's attribute byte with this value yields its category
/// id, in the range 0 to 15.
pub const CATEGORY_ATTRIBUTE_MASK: u8 = 0x0F;

/// Size in bytes of an encoded category block.
pub const APP_INFO_CATEGORIES_SIZE: usize = 276;

/// One named record category.
#[derive(Debug, Clone, PartialEq)]
pub struct ExtraInfoCategory {
    /// Positional category id, 0 to 15; 0 is reserved for "Unfiled".
    pub category_id: u8,
    /// Category name: 16 bytes, null-padded.
    pub name: Vec<u8>,
    /// Whether the user has renamed the category.
    pub renamed: bool,
}

impl ExtraInfoCategory {
    /// The fixed-length name field has its on-disk length.
    pub open spec fn wf(self) -> bool {
        self.name@.len() == 16
    }

    /// Attempt to convert the category name to text.
    pub fn name_try_str(&self) -> (r: Result<&str, core::str::Utf8Error>)
        ensures
            r is Ok <==> vstd::utf8::valid_utf8(spec_trimmed(self.name@)),
            r matches Ok(s) ==> s@ == vstd::utf8::decode_utf8(spec_trimmed(self.name@)),
    {
        try_str_from_bytes(trimmed(self.name.as_slice()))
    }
}

/// True when the database's declared content type is the generic data
/// type, the only type that carries a category block.
pub open spec fn spec_is_data_type(hdr: DatabaseHeader) -> bool {
    hdr.type_code@ == seq![68u8, 65u8, 84u8, 65u8]
}

/// True when the 16 bytes starting at `start` are all zero.
pub open spec fn spec_slot_empty_at(b: Seq<u8>, start: int) -> bool {
    forall|j: int| 0 <= j < 16 ==> #[trigger] b[start + j] == 0
}

/// Start of name slot `i` in a block that begins at `pos`.
pub open spec fn spec_slot_start(pos: int, i: int) -> int {
    pos + 2 + 16 * i
}

/// The index of the first all-zero name slot at or after slot `i`, or 16
/// when every remaining slot is in use: decoding stops producing
/// categories there.
pub open spec fn spec_cat_count_from(b: Seq<u8>, pos: int, i: int) -> int
    decreases 16 - i,
{
    if i < 0 || i >= 16 {
        16
    } else if spec_slot_empty_at(b, spec_slot_start(pos, i)) {
        i
    } else {
        spec_cat_count_from(b, pos, i + 1)
    }
}

/// The number of categories a block starting at `pos` decodes to.
pub open spec fn spec_cat_count(b: Seq<u8>, pos: int) -> int {
    spec_cat_count_from(b, pos, 0)
}

/// A scan that found no empty slot below `c` and stopped at `c` (an empty
/// slot, or 16) has found the category count.
pub proof fn lemma_cat_count_scan(b: Seq<u8>, pos: int, k: int, c: int)
    requires
        0 <= k <= c <= 16,
        forall|i: int| k <= i < c ==> !spec_slot_empty_at(b, spec_slot_start(pos, i)),
        c == 16 || spec_slot_empty_at(b, spec_slot_start(pos, c)),
    ensures
        spec_cat_count_from(b, pos, k) == c,
    decreases c - k,
{
    if k < c {
        lemma_cat_count_scan(b, pos, k + 1, c);
    }
}

/// The concatenated name fields of a category list, in list order.
pub open spec fn spec_cat_names(cats: Seq<ExtraInfoCategory>) -> Seq<u8>
    decreases cats.len(),
{
    if cats.len() == 0 {
        Seq::empty()
    } else {
        cats[0].name@ + spec_cat_names(cats.drop_first())
    }
}

/// Appending one category appends its name bytes.
pub proof fn lemma_cat_names_push(cats: Seq<ExtraInfoCategory>, c: ExtraInfoCategory)
    ensures
        spec_cat_names(cats.push(c)) =~= spec_cat_names(cats) + c.name@,
    decreases cats.len(),
{
    if cats.len() == 0 {
        assert(cats.push(c).drop_first() =~= cats);
    } else {
        assert(cats.push(c).drop_first() =~= cats.drop_first().push(c));
        lemma_cat_names_push(cats.drop_first(), c);
    }
}

/// All names of a well-formed category list together occupy 16 bytes per
/// category.
pub proof fn lemma_cat_names_len(cats: Seq<ExtraInfoCategory>)
    requires
        forall|i: int| 0 <= i < cats.len() ==> (#[trigger] cats[i]).wf(),
    ensures
        spec_cat_names(cats).len() == 16 * cats.len(),
    decreases cats.len(),
{
    if cats.len() > 0 {
        assert(cats[0].wf());
        lemma_cat_names_len(cats.drop_first());
    }
}

/// The "renamed" bitmask rebuilt from the flags of the categories at slots
/// below `i`: bit `j` is set exactly when category `j` is renamed.
pub open spec fn spec_renamed_mask_upto(cats: Seq<ExtraInfoCategory>, i: int) -> u16
    decreases i,
{
    if i <= 0 {
        0u16
    } else {
        spec_renamed_mask_upto(cats, i - 1) | (if cats[i - 1].renamed {
            1u16 << ((i - 1) as u16)
        } else {
            0u16
        })
    }
}

/// The rebuilt bitmask of a whole category list.
pub open spec fn spec_renamed_mask(cats: Seq<ExtraInfoCategory>) -> u16 {
    spec_renamed_mask_upto(cats, cats.len() as int)
}

/// Which bits the rebuilt mask holds: bit `i` is set exactly when slot `i`
/// lies below `k` and its category is renamed.
pub proof fn lemma_renamed_mask_bit(cats: Seq<ExtraInfoCategory>, k: int, i: int)
    requires
        0 <= i < 16,
        0 <= k <= 16,
    ensures
        (spec_renamed_mask_upto(cats, k) & (1u16 << (i as u16)) != 0) == (i < k && cats[i].renamed),
    decreases k,
{
    if k <= 0 {
        let iu = i as u16;
        assert(0u16 & (1u16 << iu) == 0) by (bit_vector);
    } else {
        lemma_renamed_mask_bit(cats, k - 1, i);
        let m = spec_renamed_mask_upto(cats, k - 1);
        let add = if cats[k - 1].renamed {
            1u16 << ((k - 1) as u16)
        } else {
            0u16
        };
        let iu = i as u16;
        let ku = (k - 1) as u16;
        assert(((m | 0u16) & (1u16 << iu) != 0) == (m & (1u16 << iu) != 0)) by (bit_vector);
        assert(iu < 16 && ku < 16 ==> (((m | (1u16 << ku)) & (1u16 << iu) != 0) == ((m & (1u16
            << iu) != 0) || iu == ku))) by (bit_vector);
    }
}

/// The in-memory form of a category block.
///
/// `is_data` records whether the applicability gate held when the value
/// was decoded (or is meant to hold when it is encoded): when it is false
/// the block encodes to zero bytes.
#[derive(Debug, Clone, PartialEq)]
pub struct AppInfoCategories {
    /// The stored 16-bit "renamed" bitmask, as read from disk. Encoding
    /// rebuilds the mask from the categories' flags instead of reusing
    /// this value.
    pub renamed_categories: u16,
    /// The categories in slot order, ending at the first empty slot.
    pub categories: Vec<ExtraInfoCategory>,
    /// The stored table of 16 category unique-id bytes.
    pub category_unique_ids: Vec<u8>,
    /// The stored "last assigned id" byte.
    pub last_unique_id: u8,
    /// The stored reserved byte.
    pub rsvd: u8,
    /// Whether the applicability gate (a generic-data type code) held.
    pub is_data: bool,
}

impl AppInfoCategories {
    /// Structural well-formedness of the fixed-size parts.
    pub open spec fn wf(self) -> bool {
        &&& self.category_unique_ids@.len() == 16
        &&& self.categories@.len() <= 16
        &&& forall|i: int|
            0 <= i < self.categories@.len() ==> (#[trigger] self.categories@[i]).wf()
    }

    /// The on-disk bytes of this block: empty when `is_data` is unset,
    /// otherwise the full 276 bytes, with the bitmask rebuilt from the
    /// categories' renamed flags and the unused name slots zero-filled.
    pub open spec fn spec_bytes(self) -> Seq<u8> {
        if !self.is_data {
            Seq::empty()
        } else {
            u16_be_bytes(spec_renamed_mask(self.categories@)) + spec_cat_names(self.categories@)
                + zeros((16 * (16 - self.categories@.len())) as nat) + self.category_unique_ids@
                + seq![self.last_unique_id, self.rsvd]
        }
    }

    /// The default block: no categories, zero tables, gate false.
    pub open spec fn spec_is_default(self) -> bool {
        &&& self.renamed_categories == 0
        &&& self.categories@.len() == 0
        &&& self.category_unique_ids@ == zeros(16)
        &&& self.last_unique_id == 0
        &&& self.rsvd == 0
        &&& !self.is_data
    }

    /// True when this value is what decoding the block at `pos` of `b`,
    /// under the given header, produces.
    pub open spec fn decodes(self, hdr: DatabaseHeader, b: Seq<u8>, pos: int) -> bool {
        if !spec_is_data_type(hdr) {
            self.spec_is_default()
        } else {
            let count = spec_cat_count(b, pos);
            let mask = be_u16(b.subrange(pos, pos + 2));
            &&& pos + 276 <= b.len()
            &&& self.is_data
            &&& self.renamed_categories == mask
            &&& self.categories@.len() == count
            &&& forall|i: int|
                0 <= i < count ==> {
                    let c = #[trigger] self.categories@[i];
                    &&& c.category_id == i
                    &&& c.name@ == b.subrange(
                        spec_slot_start(pos, i),
                        spec_slot_start(pos, i) + 16,
                    )
                    &&& c.renamed == (mask & (1u16 << (i as u16)) != 0)
                }
            &&& self.category_unique_ids@ == b.subrange(pos + 258, pos + 274)
            &&& self.last_unique_id == b[pos + 274]
            &&& self.rsvd == b[pos + 275]
        }
    }

    /// Decode a category block at `pos`, gated on the header's type code:
    /// a non-data database yields the default value without reading, and a
    /// data database needs the full 276 bytes or fails as truncated.
    pub fn from_bytes(hdr: &DatabaseHeader, data: &[u8], pos: usize) -> (r: Result<
        AppInfoCategories,
        DatabaseError,
    >)
        ensures
            !spec_is_data_type(*hdr) ==> (r matches Ok(a) && a.spec_is_default() && a.wf()),
            spec_is_data_type(*hdr) && pos + 276 > data@.len() ==> r == Err::<
                AppInfoCategories,
                DatabaseError,
            >(DatabaseError::Truncated),
            spec_is_data_type(*hdr) && pos + 276 <= data@.len() ==> (r matches Ok(a) && a.decodes(
                *hdr,
                data@,
                pos as int,
            ) && a.wf()),
    {
        if !(hdr.type_code.len() == 4 && hdr.type_code[0] == 68 && hdr.type_code[1] == 65
            && hdr.type_code[2] == 84 && hdr.type_code[3] == 65) {
            proof {
                assert(!spec_is_data_type(*hdr));
            }
            return Ok(Self::default_value());
        }
        proof {
            assert(hdr.type_code@ =~= seq![68u8, 65u8, 84u8, 65u8]);
        }
        if data.len() < APP_INFO_CATEGORIES_SIZE || pos > data.len() - APP_INFO_CATEGORIES_SIZE {
            return Err(DatabaseError::Truncated);
        }
        let mask = read_be_u16(data, pos);
        let mut count: usize = 0;
        while count < 16 && !slot_is_empty(data, pos + 2 + 16 * count)
            invariant
                0 <= count <= 16,
                pos + 276 <= data@.len(),
                data@.len() <= usize::MAX,
                forall|i: int|
                    0 <= i < count ==> !spec_slot_empty_at(data@, spec_slot_start(pos as int, i)),
            decreases 16 - count,
        {
            count = count + 1;
        }
        proof {
            lemma_cat_count_scan(data@, pos as int, 0, count as int);
        }
        let mut categories: Vec<ExtraInfoCategory> = Vec::new();
        let mut i: usize = 0;
        while i < count
            invariant
                0 <= i <= count <= 16,
                pos + 276 <= data@.len(),
                data@.len() <= usize::MAX,
                count as int == spec_cat_count(data@, pos as int),
                categories@.len() == i,
                forall|j: int|
                    0 <= j < i ==> {
                        let c = #[trigger] categories@[j];
                        &&& c.category_id == j
                        &&& c.name@ == data@.subrange(
                            spec_slot_start(pos as int, j),
                            spec_slot_start(pos as int, j) + 16,
                        )
                        &&& c.renamed == (mask & (1u16 << (j as u16)) != 0)
                        &&& c.wf()
                    },
            decreases count - i,
        {
            let start = pos + 2 + 16 * i;
            let name = vstd::slice::slice_to_vec(
                vstd::slice::slice_subrange(data, start, start + 16),
            );
            let renamed = mask & (1u16 << (i as u16)) != 0;
            categories.push(ExtraInfoCategory { category_id: i as u8, name, renamed });
            i = i + 1;
        }
        let category_unique_ids = vstd::slice::slice_to_vec(
            vstd::slice::slice_subrange(data, pos + 258, pos + 274),
        );
        let last_unique_id = data[pos + 274];
        let rsvd = data[pos + 275];
        Ok(
            AppInfoCategories {
                renamed_categories: mask,
                categories,
                category_unique_ids,
                last_unique_id,
                rsvd,
                is_data: true,
            },
        )
    }

    /// The default block value: what decoding under a non-data type code
    /// yields.
    pub fn default_value() -> (r: AppInfoCategories)
        ensures
            r.spec_is_default(),
            r.wf(),
    {
        let mut ids: Vec<u8> = Vec::new();
        let mut i: usize = 0;
        while i < 16
            invariant
                i <= 16,
                ids@ =~= zeros(i as nat),
            decreases 16 - i,
        {
            ids.push(0u8);
            i = i + 1;
            proof {
                assert(zeros(i as nat) =~= zeros((i - 1) as nat).push(0u8));
            }
        }
        AppInfoCategories {
            renamed_categories: 0,
            categories: Vec::new(),
            category_unique_ids: ids,
            last_unique_id: 0,
            rsvd: 0,
            is_data: false,
        }
    }

    /// Encode the block: zero bytes when `is_data` is unset, otherwise
    /// the full 276 bytes.
    pub fn to_bytes(&self) -> (r: Result<Vec<u8>, DatabaseError>)
        requires
            self.wf(),
        ensures
            r matches Ok(v) && v@ == self.spec_bytes(),
    {
        if !self.is_data {
            return Ok(Vec::new());
        }
        let n = self.categories.len();
        let mut mask: u16 = 0;
        let mut i: usize = 0;
        while i < n
            invariant
                i <= n <= 16,
                n == self.categories@.len(),
                mask == spec_renamed_mask_upto(self.categories@, i as int),
            decreases n - i,
        {
            if self.categories[i].renamed {
                mask = mask | (1u16 << (i as u16));
            } else {
                proof {
                    let m = mask;
                    assert(m | 0u16 == m) by (bit_vector);
                }
            }
            i = i + 1;
        }
        let mut out: Vec<u8> = Vec::new();
        push_be_u16(&mut out, mask);
        let mut k: usize = 0;
        while k < n
            invariant
                k <= n <= 16,
                n == self.categories@.len(),
                forall|j: int|
                    0 <= j < self.categories@.len() ==> (#[trigger] self.categories@[j]).wf(),
                out@ =~= u16_be_bytes(spec_renamed_mask(self.categories@)) + spec_cat_names(
                    self.categories@.subrange(0, k as int),
                ),
            decreases n - k,
        {
            push_bytes(&mut out, &self.categories[k].name);
            proof {
                assert(self.categories@.subrange(0, k + 1) =~= self.categories@.subrange(
                    0,
                    k as int,
                ).push(self.categories@[k as int]));
                lemma_cat_names_push(
                    self.categories@.subrange(0, k as int),
                    self.categories@[k as int],
                );
            }
            k = k + 1;
        }
        proof {
            assert(self.categories@.subrange(0, n as int) =~= self.categories@);
        }
        push_zeros(&mut out, 16 * (16 - n));
        push_bytes(&mut out, &self.category_unique_ids);
        out.push(self.last_unique_id);
        out.push(self.rsvd);
        proof {
            assert(out@ =~= self.spec_bytes());
        }
        Ok(out)
    }

    /// Whether the block holds no data; the category block always reports
    /// false, as even an empty category list owns its stored tables.
    pub fn data_empty(&self) -> (r: bool)
        ensures
            !r,
    {
        false
    }

    /// The decoded categories, as a fresh list.
    pub fn data_item_categories(&self) -> (r: Option<Vec<ExtraInfoCategory>>)
        ensures
            r matches Some(v) && v@.len() == self.categories@.len(),
            r matches Some(v) ==> forall|i: int|
                0 <= i < v@.len() ==> {
                    let c = #[trigger] v@[i];
                    &&& c.category_id == self.categories@[i].category_id
                    &&& c.name@ == self.categories@[i].name@
                    &&& c.renamed == self.categories@[i].renamed
                },
    {
        let n = self.categories.len();
        let mut v: Vec<ExtraInfoCategory> = Vec::new();
        let mut i: usize = 0;
        while i < n
            invariant
                i <= n,
                n == self.categories@.len(),
                v@.len() == i,
                forall|j: int|
                    0 <= j < i ==> {
                        let c = #[trigger] v@[j];
                        &&& c.category_id == self.categories@[j].category_id
                        &&& c.name@ == self.categories@[j].name@
                        &&& c.renamed == self.categories@[j].renamed
                    },
            decreases n - i,
        {
            let src = &self.categories[i];
            let name = vstd::slice::slice_to_vec(src.name.as_slice());
            v.push(
                ExtraInfoCategory { category_id: src.category_id, name, renamed: src.renamed },
            );
            i = i + 1;
        }
        Some(v)
    }
}

/// True when a category's fixed-length name holds at least one nonzero
/// byte, so that decoding will not mistake its slot for the list's end.
pub open spec fn spec_cat_name_nonempty(c: ExtraInfoCategory) -> bool {
    exists|j: int| 0 <= j < 16 && #[trigger] c.name@[j] != 0
}

/// The name bytes of slot `i` within an encoded category list.
pub proof fn lemma_cat_names_slice(cats: Seq<ExtraInfoCategory>, i: int)
    requires
        forall|k: int| 0 <= k < cats.len() ==> (#[trigger] cats[k]).wf(),
        0 <= i < cats.len(),
    ensures
        spec_cat_names(cats).subrange(16 * i, 16 * i + 16) =~= cats[i].name@,
    decreases i,
{
    lemma_cat_names_len(cats);
    if i == 0 {
        lemma_cat_names_len(cats.drop_first());
    } else {
        lemma_cat_names_slice(cats.drop_first(), i - 1);
        lemma_cat_names_len(cats.drop_first());
        assert forall|k: int| 0 <= k < 16 implies #[trigger] spec_cat_names(cats)[16 * i + k]
            == spec_cat_names(cats.drop_first())[16 * (i - 1) + k] by {
            assert(cats[0].wf());
        }
        assert(spec_cat_names(cats).subrange(16 * i, 16 * i + 16) =~= spec_cat_names(
            cats.drop_first(),
        ).subrange(16 * (i - 1), 16 * (i - 1) + 16));
    }
}

/// Category lists with pointwise equal names encode the same name bytes.
pub proof fn lemma_cat_names_congruent(c1: Seq<ExtraInfoCategory>, c2: Seq<ExtraInfoCategory>)
    requires
        c1.len() == c2.len(),
        forall|i: int| 0 <= i < c1.len() ==> (#[trigger] c1[i]).name@ == c2[i].name@,
    ensures
        spec_cat_names(c1) =~= spec_cat_names(c2),
    decreases c1.len(),
{
    if c1.len() > 0 {
        assert(c1[0].name@ == c2[0].name@);
        assert forall|i: int| 0 <= i < c1.drop_first().len() implies (#[trigger] c1.drop_first()[i]).name@
            == c2.drop_first()[i].name@ by {
            assert(c1[i + 1].name@ == c2[i + 1].name@);
        }
        lemma_cat_names_congruent(c1.drop_first(), c2.drop_first());
    }
}

/// Category lists with pointwise equal renamed flags rebuild the same
/// bitmask.
pub proof fn lemma_renamed_mask_congruent(
    c1: Seq<ExtraInfoCategory>,
    c2: Seq<ExtraInfoCategory>,
    k: int,
)
    requires
        forall|i: int| 0 <= i < k ==> (#[trigger] c1[i]).renamed == c2[i].renamed,
    ensures
        spec_renamed_mask_upto(c1, k) == spec_renamed_mask_upto(c2, k),
    decreases k,
{
    if k > 0 {
        lemma_renamed_mask_congruent(c1, c2, k - 1);
    }
}

/// Decoding an encoded category block and re-encoding the decoded value
/// yields the original bytes: the block codec round-trips, provided every
/// encoded category has a nonzero name (so the decoder's stop-at-first-
/// empty-slot rule recovers the same list).
pub proof fn lemma_app_info_round_trip(
    a: AppInfoCategories,
    a2: AppInfoCategories,
    hdr2: DatabaseHeader,
    b: Seq<u8>,
    pos: int,
)
    requires
        a.wf(),
        a.is_data,
        forall|i: int|
            0 <= i < a.categories@.len() ==> spec_cat_name_nonempty(#[trigger] a.categories@[i]),
        spec_is_data_type(hdr2),
        0 <= pos,
        pos + 276 <= b.len(),
        b.subrange(pos, pos + 276) == a.spec_bytes(),
    ensures
        a2.decodes(hdr2, b, pos) ==> a2.spec_bytes() =~= a.spec_bytes(),
{
    if !a2.decodes(hdr2, b, pos) {
        return;
    }
    let e = a.spec_bytes();
    let cats = a.categories@;
    let cn = cats.len() as int;
    lemma_cat_names_len(cats);
    assert(e.len() == 276);
    assert forall|lo: int, hi: int| 0 <= lo <= hi <= 276 implies b.subrange(pos + lo, pos + hi)
        =~= e.subrange(lo, hi) by {
        assert forall|k: int| 0 <= k < hi - lo implies b.subrange(pos + lo, pos + hi)[k]
            == e.subrange(lo, hi)[k] by {
            assert(b.subrange(pos + lo, pos + hi)[k] == b.subrange(pos, pos + 276)[lo + k]);
        }
    }
    // The stored mask round-trips.
    let mask = spec_renamed_mask(cats);
    assert(e.subrange(0, 2) =~= u16_be_bytes(mask));
    crate::bytes::lemma_be_u16_of_u16_be_bytes(mask);
    assert(be_u16(b.subrange(pos, pos + 2)) == mask);
    // Name slot `i` of the encoding holds the i-th name for i < cn, and
    // zeros afterwards.
    assert forall|i: int| 0 <= i < cn implies b.subrange(
        spec_slot_start(pos, i),
        spec_slot_start(pos, i) + 16,
    ) =~= cats[i].name@ by {
        lemma_cat_names_slice(cats, i);
        assert(e.subrange(2 + 16 * i, 2 + 16 * i + 16) =~= spec_cat_names(cats).subrange(
            16 * i,
            16 * i + 16,
        ));
        assert(b.subrange(pos + (2 + 16 * i), pos + (2 + 16 * i + 16)) =~= e.subrange(
            2 + 16 * i,
            2 + 16 * i + 16,
        ));
    }
    assert forall|i: int| cn <= i < 16 implies spec_slot_empty_at(b, spec_slot_start(pos, i)) by {
        assert forall|j: int| 0 <= j < 16 implies #[trigger] b[spec_slot_start(pos, i) + j]
            == 0 by {
            assert(e[2 + 16 * i + j] == zeros((16 * (16 - cn)) as nat)[16 * (i - cn) + j]);
            assert(b[pos + (2 + 16 * i + j)] == e[2 + 16 * i + j]);
        }
    }
    // The decoder stops exactly at the end of the encoded list.
    assert forall|i: int| 0 <= i < cn implies !spec_slot_empty_at(b, spec_slot_start(pos, i)) by {
        let j = choose|j: int| 0 <= j < 16 && #[trigger] cats[i].name@[j] != 0;
        assert(b[spec_slot_start(pos, i) + j] == cats[i].name@[j]);
    }
    lemma_cat_count_scan(b, pos, 0, cn);
    let cats2 = a2.categories@;
    assert(cats2.len() == cn);
    // Decoded fields agree with the originals.
    assert forall|i: int| 0 <= i < cn implies (#[trigger] cats2[i]).name@ == cats[i].name@
        && cats2[i].renamed == cats[i].renamed by {
        lemma_renamed_mask_bit(cats, cn, i);
    }
    // Re-encoding the decoded value reproduces every component.
    lemma_cat_names_congruent(cats2, cats);
    lemma_renamed_mask_congruent(cats2, cats, cn);
    assert(a2.category_unique_ids@ =~= e.subrange(258, 274));
    assert(e.subrange(258, 274) =~= a.category_unique_ids@);
    assert(a2.last_unique_id == b[pos + 274] && b[pos + 274] == e[274] && e[274]
        == a.last_unique_id);
    assert(a2.rsvd == b[pos + 275] && b[pos + 275] == e[275] && e[275] == a.rsvd);
    assert(a2.spec_bytes() =~= a.spec_bytes());
}

/// Check whether the header's declared type code is the generic data
/// type, the only content type that carries a category block.
pub fn is_data_type(hdr: &DatabaseHeader) -> (r: bool)
    ensures
        r == spec_is_data_type(*hdr),
{
    let r = hdr.type_code.len() == 4 && hdr.type_code[0] == 68 && hdr.type_code[1] == 65
        && hdr.type_code[2] == 84 && hdr.type_code[3] == 65;
    proof {
        if r {
            assert(hdr.type_code@ =~= seq![68u8, 65u8, 84u8, 65u8]);
        }
    }
    r
}

/// Check whether the 16 bytes at `start` are all zero.
fn slot_is_empty(data: &[u8], start: usize) -> (r: bool)
    requires
        start + 16 <= data@.len(),
    ensures
        r == spec_slot_empty_at(data@, start as int),
{
    let n: usize = data.len();
    let mut j: usize = 0;
    while j < 16 && data[start + j] == 0u8
        invariant
            j <= 16,
            start + 16 <= data@.len(),
            data@.len() <= usize::MAX,
            forall|k: int| 0 <= k < j ==> #[trigger] data@[start + k] == 0,
        decreases 16 - j,
    {
        j = j + 1;
    }
    j == 16
}

} // verus!
