//! Little-endian encoding of the fixed-width integers that make up the
//! vfio-user wire format.

use vstd::prelude::*;

verus! {

/// The value of two bytes read as a little-endian `u16`.
pub open spec fn u16_from_le(b0: u8, b1: u8) -> u16 {
    ((b0 as u16) | ((b1 as u16) << 8u16)) as u16
}

/// The two bytes of `v`, least significant first.
pub open spec fn u16_le(v: u16) -> Seq<u8> {
    seq![(v & 0xffu16) as u8, ((v >> 8u16) & 0xffu16) as u8]
}

/// The `u16` stored little-endian at byte `i` of `b`.
pub open spec fn u16_at(b: Seq<u8>, i: int) -> u16 {
    u16_from_le(b[i], b[i + 1])
}

pub proof fn lemma_u16_le(v: u16)
    ensures
        u16_le(v).len() == 2,
        u16_from_le(u16_le(v)[0], u16_le(v)[1]) == v,
{
    assert(((((v & 0xffu16) as u8) as u16) | ((((v >> 8u16) & 0xffu16) as u8) as u16) << 8u16) == v)
        by (bit_vector);
}

pub proof fn lemma_u16_from_le(b0: u8, b1: u8)
    ensures
        u16_le(u16_from_le(b0, b1)) == seq![b0, b1],
{
    let v = u16_from_le(b0, b1);
    assert((((((b0 as u16) | ((b1 as u16) << 8u16)) as u16) & 0xffu16) as u8) == b0
        && ((((((b0 as u16) | ((b1 as u16) << 8u16)) as u16) >> 8u16) & 0xffu16) as u8) == b1)
        by (bit_vector);
    assert(u16_le(v) =~= seq![b0, b1]);
}

/// Reads the little-endian `u16` at byte `i` of `b`.
pub fn read_u16(b: &[u8], i: usize) -> (r: u16)
    requires
        i + 2 <= b@.len(),
    ensures
        r == u16_at(b@, i as int),
{
    (b[i] as u16) | ((b[i + 1] as u16) << 8u16)
}

/// Appends the little-endian bytes of `v` to `buf`.
pub fn push_u16(buf: &mut Vec<u8>, v: u16)
    ensures
        final(buf)@ == old(buf)@ + u16_le(v),
{
    buf.push((v & 0xff) as u8);
    buf.push(((v >> 8u16) & 0xff) as u8);
    assert(final(buf)@ =~= old(buf)@ + u16_le(v));
}

/// The value of four bytes read as a little-endian `u32`.
pub open spec fn u32_from_le(b0: u8, b1: u8, b2: u8, b3: u8) -> u32 {
    ((b0 as u32) | ((b1 as u32) << 8u32) | ((b2 as u32) << 16u32) | ((b3 as u32) << 24u32)) as u32
}

/// The four bytes of `v`, least significant first.
pub open spec fn u32_le(v: u32) -> Seq<u8> {
    seq![
        (v & 0xffu32) as u8,
        ((v >> 8u32) & 0xffu32) as u8,
        ((v >> 16u32) & 0xffu32) as u8,
        ((v >> 24u32) & 0xffu32) as u8,
    ]
}

/// The `u32` stored little-endian at byte `i` of `b`.
pub open spec fn u32_at(b: Seq<u8>, i: int) -> u32 {
    u32_from_le(b[i], b[i + 1], b[i + 2], b[i + 3])
}

pub proof fn lemma_u32_le(v: u32)
    ensures
        u32_le(v).len() == 4,
        u32_from_le(u32_le(v)[0], u32_le(v)[1], u32_le(v)[2], u32_le(v)[3]) == v,
{
    assert((((((v & 0xffu32) as u8) as u32) | ((((v >> 8u32) & 0xffu32) as u8) as u32) << 8u32
        | ((((v >> 16u32) & 0xffu32) as u8) as u32) << 16u32
        | ((((v >> 24u32) & 0xffu32) as u8) as u32) << 24u32) as u32) == v) by (bit_vector);
}

pub proof fn lemma_u32_from_le(b0: u8, b1: u8, b2: u8, b3: u8)
    ensures
        u32_le(u32_from_le(b0, b1, b2, b3)) == seq![b0, b1, b2, b3],
{
    let v = u32_from_le(b0, b1, b2, b3);
    assert(v == ((b0 as u32) | ((b1 as u32) << 8u32) | ((b2 as u32) << 16u32) | ((b3 as u32)
        << 24u32)) as u32);
    assert(v == ((b0 as u32) | ((b1 as u32) << 8u32) | ((b2 as u32) << 16u32) | ((b3 as u32)
        << 24u32)) as u32 ==> (v & 0xffu32) as u8 == b0 && ((v >> 8u32) & 0xffu32) as u8 == b1
        && ((v >> 16u32) & 0xffu32) as u8 == b2 && ((v >> 24u32) & 0xffu32) as u8 == b3)
        by (bit_vector);
    assert(u32_le(v) =~= seq![b0, b1, b2, b3]);
}

/// Reads the little-endian `u32` at byte `i` of `b`.
pub fn read_u32(b: &[u8], i: usize) -> (r: u32)
    requires
        i + 4 <= b@.len(),
    ensures
        r == u32_at(b@, i as int),
{
    (b[i] as u32) | ((b[i + 1] as u32) << 8u32) | ((b[i + 2] as u32) << 16u32) | ((b[i + 3] as u32)
        << 24u32)
}

/// Appends the little-endian bytes of `v` to `buf`.
pub fn push_u32(buf: &mut Vec<u8>, v: u32)
    ensures
        final(buf)@ == old(buf)@ + u32_le(v),
{
    buf.push((v & 0xff) as u8);
    buf.push(((v >> 8u32) & 0xff) as u8);
    buf.push(((v >> 16u32) & 0xff) as u8);
    buf.push(((v >> 24u32) & 0xff) as u8);
    assert(final(buf)@ =~= old(buf)@ + u32_le(v));
}

/// The value of eight bytes read as a little-endian `u64`.
pub open spec fn u64_from_le(b0: u8, b1: u8, b2: u8, b3: u8, b4: u8, b5: u8, b6: u8, b7: u8) -> u64 {
    ((b0 as u64) | ((b1 as u64) << 8u64) | ((b2 as u64) << 16u64) | ((b3 as u64) << 24u64)
        | ((b4 as u64) << 32u64) | ((b5 as u64) << 40u64) | ((b6 as u64) << 48u64) | ((b7 as u64)
        << 56u64)) as u64
}

/// The eight bytes of `v`, least significant first.
pub open spec fn u64_le(v: u64) -> Seq<u8> {
    seq![
        (v & 0xffu64) as u8,
        ((v >> 8u64) & 0xffu64) as u8,
        ((v >> 16u64) & 0xffu64) as u8,
        ((v >> 24u64) & 0xffu64) as u8,
        ((v >> 32u64) & 0xffu64) as u8,
        ((v >> 40u64) & 0xffu64) as u8,
        ((v >> 48u64) & 0xffu64) as u8,
        ((v >> 56u64) & 0xffu64) as u8,
    ]
}

/// The `u64` stored little-endian at byte `i` of `b`.
pub open spec fn u64_at(b: Seq<u8>, i: int) -> u64 {
    u64_from_le(b[i], b[i + 1], b[i + 2], b[i + 3], b[i + 4], b[i + 5], b[i + 6], b[i + 7])
}

pub proof fn lemma_u64_le(v: u64)
    ensures
        u64_le(v).len() == 8,
        u64_from_le(
            u64_le(v)[0],
            u64_le(v)[1],
            u64_le(v)[2],
            u64_le(v)[3],
            u64_le(v)[4],
            u64_le(v)[5],
            u64_le(v)[6],
            u64_le(v)[7],
        ) == v,
{
    assert((((((v & 0xffu64) as u8) as u64) | ((((v >> 8u64) & 0xffu64) as u8) as u64) << 8u64
        | ((((v >> 16u64) & 0xffu64) as u8) as u64) << 16u64
        | ((((v >> 24u64) & 0xffu64) as u8) as u64) << 24u64
        | ((((v >> 32u64) & 0xffu64) as u8) as u64) << 32u64
        | ((((v >> 40u64) & 0xffu64) as u8) as u64) << 40u64
        | ((((v >> 48u64) & 0xffu64) as u8) as u64) << 48u64
        | ((((v >> 56u64) & 0xffu64) as u8) as u64) << 56u64) as u64) == v) by (bit_vector);
}

pub proof fn lemma_u64_from_le(b0: u8, b1: u8, b2: u8, b3: u8, b4: u8, b5: u8, b6: u8, b7: u8)
    ensures
        u64_le(u64_from_le(b0, b1, b2, b3, b4, b5, b6, b7)) == seq![b0, b1, b2, b3, b4, b5, b6, b7],
{
    let v = u64_from_le(b0, b1, b2, b3, b4, b5, b6, b7);
    assert(v == ((b0 as u64) | ((b1 as u64) << 8u64) | ((b2 as u64) << 16u64) | ((b3 as u64)
        << 24u64) | ((b4 as u64) << 32u64) | ((b5 as u64) << 40u64) | ((b6 as u64) << 48u64) | ((
    b7 as u64) << 56u64)) as u64);
    assert(v == ((b0 as u64) | ((b1 as u64) << 8u64) | ((b2 as u64) << 16u64) | ((b3 as u64)
        << 24u64) | ((b4 as u64) << 32u64) | ((b5 as u64) << 40u64) | ((b6 as u64) << 48u64) | ((
    b7 as u64) << 56u64)) as u64 ==> (v & 0xffu64) as u8 == b0 && ((v >> 8u64) & 0xffu64) as u8
        == b1 && ((v >> 16u64) & 0xffu64) as u8 == b2 && ((v >> 24u64) & 0xffu64) as u8 == b3 && ((v
        >> 32u64) & 0xffu64) as u8 == b4 && ((v >> 40u64) & 0xffu64) as u8 == b5 && ((v >> 48u64)
        & 0xffu64) as u8 == b6 && ((v >> 56u64) & 0xffu64) as u8 == b7) by (bit_vector);
    assert(u64_le(v) =~= seq![b0, b1, b2, b3, b4, b5, b6, b7]);
}

/// Reads the little-endian `u64` at byte `i` of `b`.
pub fn read_u64(b: &[u8], i: usize) -> (r: u64)
    requires
        i + 8 <= b@.len(),
    ensures
        r == u64_at(b@, i as int),
{
    (b[i] as u64) | ((b[i + 1] as u64) << 8u64) | ((b[i + 2] as u64) << 16u64) | ((b[i + 3] as u64)
        << 24u64) | ((b[i + 4] as u64) << 32u64) | ((b[i + 5] as u64) << 40u64) | ((b[i + 6] as u64)
        << 48u64) | ((b[i + 7] as u64) << 56u64)
}

/// Appends the little-endian bytes of `v` to `buf`.
pub fn push_u64(buf: &mut Vec<u8>, v: u64)
    ensures
        final(buf)@ == old(buf)@ + u64_le(v),
{
    buf.push((v & 0xff) as u8);
    buf.push(((v >> 8u64) & 0xff) as u8);
    buf.push(((v >> 16u64) & 0xff) as u8);
    buf.push(((v >> 24u64) & 0xff) as u8);
    buf.push(((v >> 32u64) & 0xff) as u8);
    buf.push(((v >> 40u64) & 0xff) as u8);
    buf.push(((v >> 48u64) & 0xff) as u8);
    buf.push(((v >> 56u64) & 0xff) as u8);
    assert(final(buf)@ =~= old(buf)@ + u64_le(v));
}

/// A `u16` written between two byte sequences is read back unchanged.
pub proof fn lemma_u16_in(p: Seq<u8>, v: u16, q: Seq<u8>)
    ensures
        u16_at(p + u16_le(v) + q, p.len() as int) == v,
{
    lemma_u16_le(v);
    let s = p + u16_le(v) + q;
    assert(s[p.len() as int] == u16_le(v)[0]);
    assert(s[p.len() + 1int] == u16_le(v)[1]);
}

/// A `u32` written between two byte sequences is read back unchanged.
pub proof fn lemma_u32_in(p: Seq<u8>, v: u32, q: Seq<u8>)
    ensures
        u32_at(p + u32_le(v) + q, p.len() as int) == v,
{
    lemma_u32_le(v);
    let s = p + u32_le(v) + q;
    assert(s[p.len() as int] == u32_le(v)[0]);
    assert(s[p.len() + 1int] == u32_le(v)[1]);
    assert(s[p.len() + 2int] == u32_le(v)[2]);
    assert(s[p.len() + 3int] == u32_le(v)[3]);
}

/// A `u64` written between two byte sequences is read back unchanged.
pub proof fn lemma_u64_in(p: Seq<u8>, v: u64, q: Seq<u8>)
    ensures
        u64_at(p + u64_le(v) + q, p.len() as int) == v,
{
    lemma_u64_le(v);
    let s = p + u64_le(v) + q;
    assert(s[p.len() as int] == u64_le(v)[0]);
    assert(s[p.len() + 1int] == u64_le(v)[1]);
    assert(s[p.len() + 2int] == u64_le(v)[2]);
    assert(s[p.len() + 3int] == u64_le(v)[3]);
    assert(s[p.len() + 4int] == u64_le(v)[4]);
    assert(s[p.len() + 5int] == u64_le(v)[5]);
    assert(s[p.len() + 6int] == u64_le(v)[6]);
    assert(s[p.len() + 7int] == u64_le(v)[7]);
}

/// Writing back the `u16` read at byte `i` gives the same two bytes.
pub proof fn lemma_u16_at(b: Seq<u8>, i: int)
    requires
        0 <= i,
        i + 2 <= b.len(),
    ensures
        u16_le(u16_at(b, i)) == b.subrange(i, i + 2),
{
    lemma_u16_from_le(b[i], b[i + 1]);
    assert(b.subrange(i, i + 2) =~= seq![b[i], b[i + 1]]);
}

/// Writing back the `u32` read at byte `i` gives the same four bytes.
pub proof fn lemma_u32_at(b: Seq<u8>, i: int)
    requires
        0 <= i,
        i + 4 <= b.len(),
    ensures
        u32_le(u32_at(b, i)) == b.subrange(i, i + 4),
{
    lemma_u32_from_le(b[i], b[i + 1], b[i + 2], b[i + 3]);
    assert(b.subrange(i, i + 4) =~= seq![b[i], b[i + 1], b[i + 2], b[i + 3]]);
}

/// Writing back the `u64` read at byte `i` gives the same eight bytes.
pub proof fn lemma_u64_at(b: Seq<u8>, i: int)
    requires
        0 <= i,
        i + 8 <= b.len(),
    ensures
        u64_le(u64_at(b, i)) == b.subrange(i, i + 8),
{
    lemma_u64_from_le(b[i], b[i + 1], b[i + 2], b[i + 3], b[i + 4], b[i + 5], b[i + 6], b[i + 7]);
    assert(b.subrange(i, i + 8) =~= seq![b[i], b[i + 1], b[i + 2], b[i + 3], b[i + 4], b[i + 5], b[i + 6], b[i + 7]]);
}

/// A value read at byte `i` of a subrange is the value at the matching
/// byte of the whole sequence.
pub proof fn lemma_at_subrange(b: Seq<u8>, lo: int, hi: int, i: int)
    requires
        0 <= lo <= hi <= b.len(),
        0 <= i,
    ensures
        i + 2 <= hi - lo ==> u16_at(b.subrange(lo, hi), i) == u16_at(b, lo + i),
        i + 4 <= hi - lo ==> u32_at(b.subrange(lo, hi), i) == u32_at(b, lo + i),
        i + 8 <= hi - lo ==> u64_at(b.subrange(lo, hi), i) == u64_at(b, lo + i),
{
}

} // verus!
