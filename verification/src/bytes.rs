//! Big-endian byte-order helpers.
//!
//! Every multi-byte integer in a Palm database is stored big-endian. The
//! spec functions here give the mathematical reading of a byte sequence as
//! an unsigned integer, and the inverse writing of an integer as bytes; the
//! executable functions are proved against them.

use vstd::prelude::*;

verus! {

/// The big-endian 16-bit value stored in a 2-byte sequence.
pub open spec fn be_u16(b: Seq<u8>) -> u16
    recommends
        b.len() == 2,
{
    ((b[0] as u16) << 8) | (b[1] as u16)
}

/// The big-endian 24-bit value stored in a 3-byte sequence.
pub open spec fn be_u24(b: Seq<u8>) -> u32
    recommends
        b.len() == 3,
{
    ((b[0] as u32) << 16) | ((b[1] as u32) << 8) | (b[2] as u32)
}

/// The big-endian 32-bit value stored in a 4-byte sequence.
pub open spec fn be_u32(b: Seq<u8>) -> u32
    recommends
        b.len() == 4,
{
    ((b[0] as u32) << 24) | ((b[1] as u32) << 16) | ((b[2] as u32) << 8) | (b[3] as u32)
}

/// The 2-byte big-endian encoding of a 16-bit value.
pub open spec fn u16_be_bytes(x: u16) -> Seq<u8> {
    seq![((x >> 8) & 0xff) as u8, (x & 0xff) as u8]
}

/// The 3-byte big-endian encoding of the low 24 bits of a value.
pub open spec fn u24_be_bytes(x: u32) -> Seq<u8> {
    seq![((x >> 16) & 0xff) as u8, ((x >> 8) & 0xff) as u8, (x & 0xff) as u8]
}

/// The 4-byte big-endian encoding of a 32-bit value.
pub open spec fn u32_be_bytes(x: u32) -> Seq<u8> {
    seq![
        ((x >> 24) & 0xff) as u8,
        ((x >> 16) & 0xff) as u8,
        ((x >> 8) & 0xff) as u8,
        (x & 0xff) as u8,
    ]
}

/// Reading back an encoded 16-bit value yields the value.
pub proof fn lemma_be_u16_of_u16_be_bytes(x: u16)
    ensures
        be_u16(u16_be_bytes(x)) == x,
{
    assert((((((x >> 8) & 0xff) as u8) as u16) << 8) | (((x & 0xff) as u8) as u16) == x)
        by (bit_vector);
}

/// Re-encoding a decoded 2-byte sequence yields the same bytes.
pub proof fn lemma_u16_be_bytes_of_be_u16(b: Seq<u8>)
    requires
        b.len() == 2,
    ensures
        u16_be_bytes(be_u16(b)) =~= b,
{
    let b0 = b[0];
    let b1 = b[1];
    let x = ((b0 as u16) << 8) | (b1 as u16);
    assert(((x >> 8) & 0xff) as u8 == b0 && (x & 0xff) as u8 == b1) by (bit_vector)
        requires
            x == ((b0 as u16) << 8) | (b1 as u16),
    ;
}

/// Reading back an encoded 24-bit value yields the value, for values that fit.
pub proof fn lemma_be_u24_of_u24_be_bytes(x: u32)
    requires
        x < 0x100_0000,
    ensures
        be_u24(u24_be_bytes(x)) == x,
{
    assert(((((x >> 16) & 0xff) as u8 as u32) << 16) | ((((x >> 8) & 0xff) as u8 as u32) << 8) | (
    (x & 0xff) as u8 as u32) == x) by (bit_vector)
        requires
            x < 0x100_0000,
    ;
}

/// Re-encoding a decoded 3-byte sequence yields the same bytes.
pub proof fn lemma_u24_be_bytes_of_be_u24(b: Seq<u8>)
    requires
        b.len() == 3,
    ensures
        u24_be_bytes(be_u24(b)) =~= b,
{
    let b0 = b[0];
    let b1 = b[1];
    let b2 = b[2];
    let x = ((b0 as u32) << 16) | ((b1 as u32) << 8) | (b2 as u32);
    assert(((x >> 16) & 0xff) as u8 == b0 && ((x >> 8) & 0xff) as u8 == b1 && (x & 0xff) as u8
        == b2) by (bit_vector)
        requires
            x == ((b0 as u32) << 16) | ((b1 as u32) << 8) | (b2 as u32),
    ;
}

/// A 24-bit read is always below 2^24.
pub proof fn lemma_be_u24_bound(b: Seq<u8>)
    requires
        b.len() == 3,
    ensures
        be_u24(b) < 0x100_0000,
{
    let b0 = b[0];
    let b1 = b[1];
    let b2 = b[2];
    assert((((b0 as u32) << 16) | ((b1 as u32) << 8) | (b2 as u32)) < 0x100_0000) by (bit_vector);
}

/// Reading back an encoded 32-bit value yields the value.
pub proof fn lemma_be_u32_of_u32_be_bytes(x: u32)
    ensures
        be_u32(u32_be_bytes(x)) == x,
{
    assert(((((x >> 24) & 0xff) as u8 as u32) << 24) | ((((x >> 16) & 0xff) as u8 as u32) << 16) | (
    (((x >> 8) & 0xff) as u8 as u32) << 8) | ((x & 0xff) as u8 as u32) == x) by (bit_vector);
}

/// Re-encoding a decoded 4-byte sequence yields the same bytes.
pub proof fn lemma_u32_be_bytes_of_be_u32(b: Seq<u8>)
    requires
        b.len() == 4,
    ensures
        u32_be_bytes(be_u32(b)) =~= b,
{
    let b0 = b[0];
    let b1 = b[1];
    let b2 = b[2];
    let b3 = b[3];
    let x = ((b0 as u32) << 24) | ((b1 as u32) << 16) | ((b2 as u32) << 8) | (b3 as u32);
    assert(((x >> 24) & 0xff) as u8 == b0 && ((x >> 16) & 0xff) as u8 == b1 && ((x >> 8) & 0xff)
        as u8 == b2 && (x & 0xff) as u8 == b3) by (bit_vector)
        requires
            x == ((b0 as u32) << 24) | ((b1 as u32) << 16) | ((b2 as u32) << 8) | (b3 as u32),
    ;
}

/// Read the big-endian 16-bit value at `pos`.
pub fn read_be_u16(data: &[u8], pos: usize) -> (r: u16)
    requires
        pos + 2 <= data@.len(),
    ensures
        r == be_u16(data@.subrange(pos as int, pos + 2)),
{
    let b0 = data[pos];
    let b1 = data[pos + 1];
    let r = ((b0 as u16) << 8) | (b1 as u16);
    proof {
        let s = data@.subrange(pos as int, pos + 2);
        assert(s[0] == b0 && s[1] == b1);
    }
    r
}

/// Read the big-endian 24-bit value at `pos`.
pub fn read_be_u24(data: &[u8], pos: usize) -> (r: u32)
    requires
        pos + 3 <= data@.len(),
    ensures
        r == be_u24(data@.subrange(pos as int, pos + 3)),
        r < 0x100_0000,
{
    let b0 = data[pos];
    let b1 = data[pos + 1];
    let b2 = data[pos + 2];
    let r = ((b0 as u32) << 16) | ((b1 as u32) << 8) | (b2 as u32);
    proof {
        let s = data@.subrange(pos as int, pos + 3);
        assert(s[0] == b0 && s[1] == b1 && s[2] == b2);
        lemma_be_u24_bound(s);
    }
    r
}

/// Read the big-endian 32-bit value at `pos`.
pub fn read_be_u32(data: &[u8], pos: usize) -> (r: u32)
    requires
        pos + 4 <= data@.len(),
    ensures
        r == be_u32(data@.subrange(pos as int, pos + 4)),
{
    let b0 = data[pos];
    let b1 = data[pos + 1];
    let b2 = data[pos + 2];
    let b3 = data[pos + 3];
    let r = ((b0 as u32) << 24) | ((b1 as u32) << 16) | ((b2 as u32) << 8) | (b3 as u32);
    proof {
        let s = data@.subrange(pos as int, pos + 4);
        assert(s[0] == b0 && s[1] == b1 && s[2] == b2 && s[3] == b3);
    }
    r
}

/// Append the big-endian encoding of a 16-bit value.
pub fn push_be_u16(out: &mut Vec<u8>, x: u16)
    ensures
        final(out)@ =~= old(out)@ + u16_be_bytes(x),
{
    out.push(((x >> 8) & 0xff) as u8);
    out.push((x & 0xff) as u8);
}

/// Append the big-endian encoding of the low 24 bits of a value.
pub fn push_be_u24(out: &mut Vec<u8>, x: u32)
    ensures
        final(out)@ =~= old(out)@ + u24_be_bytes(x),
{
    out.push(((x >> 16) & 0xff) as u8);
    out.push(((x >> 8) & 0xff) as u8);
    out.push((x & 0xff) as u8);
}

/// Append the big-endian encoding of a 32-bit value.
pub fn push_be_u32(out: &mut Vec<u8>, x: u32)
    ensures
        final(out)@ =~= old(out)@ + u32_be_bytes(x),
{
    out.push(((x >> 24) & 0xff) as u8);
    out.push(((x >> 16) & 0xff) as u8);
    out.push(((x >> 8) & 0xff) as u8);
    out.push((x & 0xff) as u8);
}

/// Append a copy of `src` to `out`.
pub fn push_bytes(out: &mut Vec<u8>, src: &Vec<u8>)
    ensures
        final(out)@ =~= old(out)@ + src@,
{
    let n = src.len();
    let mut i: usize = 0;
    while i < n
        invariant
            i <= n,
            n == src@.len(),
            out@ =~= old(out)@ + src@.subrange(0, i as int),
        decreases n - i,
    {
        out.push(src[i]);
        i = i + 1;
        proof {
            assert(src@.subrange(0, i as int) =~= src@.subrange(0, i - 1).push(src@[i - 1]));
        }
    }
    proof {
        assert(src@.subrange(0, n as int) =~= src@);
    }
}

/// Append `count` zero bytes to `out`.
pub fn push_zeros(out: &mut Vec<u8>, count: usize)
    ensures
        final(out)@ =~= old(out)@ + zeros(count as nat),
{
    let mut i: usize = 0;
    while i < count
        invariant
            i <= count,
            out@ =~= old(out)@ + zeros(i as nat),
        decreases count - i,
    {
        out.push(0u8);
        i = i + 1;
        proof {
            assert(zeros(i as nat) =~= zeros((i - 1) as nat).push(0u8));
        }
    }
}

/// A run of zero bytes of the given length.
pub open spec fn zeros(n: nat) -> Seq<u8> {
    Seq::new(n, |i: int| 0u8)
}

/// The number of bytes before the first zero byte, or the whole length when
/// no byte is zero: the length of a null-padded field's content.
pub open spec fn spec_trim_len(s: Seq<u8>) -> nat
    decreases s.len(),
{
    if s.len() == 0 {
        0
    } else if s[0] == 0 {
        0
    } else {
        1 + spec_trim_len(s.drop_first())
    }
}

/// A scan that stops at index `i` on a zero byte (or the end) has found the
/// trimmed length.
pub proof fn lemma_trim_len_scan(s: Seq<u8>, i: int)
    requires
        0 <= i <= s.len(),
        forall|j: int| 0 <= j < i ==> s[j] != 0,
        i == s.len() || s[i] == 0,
    ensures
        spec_trim_len(s) == i,
    decreases i,
{
    if i == 0 {
    } else {
        assert(s[0] != 0);
        lemma_trim_len_scan(s.drop_first(), i - 1);
    }
}

/// The trimmed length never exceeds the length.
pub proof fn lemma_trim_len_bound(s: Seq<u8>)
    ensures
        spec_trim_len(s) <= s.len(),
    decreases s.len(),
{
    if s.len() > 0 && s[0] != 0 {
        lemma_trim_len_bound(s.drop_first());
    }
}

/// The content bytes of a null-padded field: everything before the first
/// zero byte.
pub open spec fn spec_trimmed(s: Seq<u8>) -> Seq<u8> {
    s.subrange(0, spec_trim_len(s) as int)
}

/// Return the prefix of `data` before its first zero byte.
pub fn trimmed(data: &[u8]) -> (r: &[u8])
    ensures
        r@ == spec_trimmed(data@),
{
    let n = data.len();
    let mut idx: usize = 0;
    while idx < n && data[idx] != 0u8
        invariant
            idx <= n,
            n == data@.len(),
            forall|j: int| 0 <= j < idx ==> data@[j] != 0,
        decreases n - idx,
    {
        idx = idx + 1;
    }
    proof {
        lemma_trim_len_scan(data@, idx as int);
    }
    vstd::slice::slice_subrange(data, 0, idx)
}

#[verifier::external_type_specification]
#[verifier::external_body]
pub struct ExUtf8Error(core::str::Utf8Error);

/// Relies on `core::str::from_utf8`: it succeeds exactly on valid UTF-8,
/// and then yields the decoded scalar values of those bytes.
#[verifier::external_body]
pub fn try_str_from_bytes(b: &[u8]) -> (r: Result<&str, core::str::Utf8Error>)
    ensures
        r is Ok <==> vstd::utf8::valid_utf8(b@),
        r matches Ok(s) ==> s@ == vstd::utf8::decode_utf8(b@),
{
    core::str::from_utf8(b)
}

} // verus!
