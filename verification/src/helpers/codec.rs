//! Big-endian byte layouts of the fixed-width integers of the wire format.
use vstd::prelude::*;

verus! {

pub open spec fn be16(x: u16) -> Seq<u8> {
    seq![(x >> 8u16) as u8, x as u8]
}

pub open spec fn u16_of(b0: u8, b1: u8) -> u16 {
    ((b0 as u16) << 8u16) | (b1 as u16)
}

pub open spec fn from_be16(b: Seq<u8>) -> u16 {
    u16_of(b[0], b[1])
}

pub open spec fn be32(x: u32) -> Seq<u8> {
    seq![(x >> 24u32) as u8, (x >> 16u32) as u8, (x >> 8u32) as u8, x as u8]
}

pub open spec fn u32_of(b0: u8, b1: u8, b2: u8, b3: u8) -> u32 {
    ((b0 as u32) << 24u32) | ((b1 as u32) << 16u32) | ((b2 as u32) << 8u32) | (b3 as u32)
}

pub open spec fn from_be32(b: Seq<u8>) -> u32 {
    u32_of(b[0], b[1], b[2], b[3])
}

pub open spec fn be64(x: u64) -> Seq<u8> {
    seq![
        (x >> 56u64) as u8,
        (x >> 48u64) as u8,
        (x >> 40u64) as u8,
        (x >> 32u64) as u8,
        (x >> 24u64) as u8,
        (x >> 16u64) as u8,
        (x >> 8u64) as u8,
        x as u8,
    ]
}

pub open spec fn u64_of(b0: u8, b1: u8, b2: u8, b3: u8, b4: u8, b5: u8, b6: u8, b7: u8) -> u64 {
    ((b0 as u64) << 56u64) | ((b1 as u64) << 48u64) | ((b2 as u64) << 40u64) | ((b3 as u64)
        << 32u64) | ((b4 as u64) << 24u64) | ((b5 as u64) << 16u64) | ((b6 as u64) << 8u64) | (
    b7 as u64)
}

pub open spec fn from_be64(b: Seq<u8>) -> u64 {
    u64_of(b[0], b[1], b[2], b[3], b[4], b[5], b[6], b[7])
}

/// Little-endian bytes of a signed 64-bit integer, as `i64::to_le_bytes` lays them out.
pub open spec fn le64_signed(x: i64) -> Seq<u8> {
    let u = x as u64;
    seq![
        u as u8,
        (u >> 8u64) as u8,
        (u >> 16u64) as u8,
        (u >> 24u64) as u8,
        (u >> 32u64) as u8,
        (u >> 40u64) as u8,
        (u >> 48u64) as u8,
        (u >> 56u64) as u8,
    ]
}

/// The little-endian bytes of `x` in two's complement.
pub open spec fn le32_signed(x: i32) -> Seq<u8> {
    let u = x as u32;
    seq![u as u8, (u >> 8u32) as u8, (u >> 16u32) as u8, (u >> 24u32) as u8]
}

/// Appends the little-endian bytes of `x` (`i64::to_le_bytes`).
pub fn put_i64_le(out: &mut Vec<u8>, x: i64)
    ensures
        final(out)@ == old(out)@ + le64_signed(x),
{
    let u = x as u64;
    out.push(u as u8);
    out.push((u >> 8u64) as u8);
    out.push((u >> 16u64) as u8);
    out.push((u >> 24u64) as u8);
    out.push((u >> 32u64) as u8);
    out.push((u >> 40u64) as u8);
    out.push((u >> 48u64) as u8);
    out.push((u >> 56u64) as u8);
    assert(out@ =~= old(out)@ + le64_signed(x));
}

/// Appends the little-endian bytes of `x` (`i32::to_le_bytes`).
pub fn put_i32_le(out: &mut Vec<u8>, x: i32)
    ensures
        final(out)@ == old(out)@ + le32_signed(x),
{
    let u = x as u32;
    out.push(u as u8);
    out.push((u >> 8u32) as u8);
    out.push((u >> 16u32) as u8);
    out.push((u >> 24u32) as u8);
    assert(out@ =~= old(out)@ + le32_signed(x));
}

pub proof fn lemma_be16_roundtrip(x: u16)
    ensures
        from_be16(be16(x)) == x,
{
    assert(u16_of((x >> 8u16) as u8, x as u8) == x) by (bit_vector);
}

pub proof fn lemma_be32_roundtrip(x: u32)
    ensures
        from_be32(be32(x)) == x,
{
    assert(u32_of((x >> 24u32) as u8, (x >> 16u32) as u8, (x >> 8u32) as u8, x as u8) == x)
        by (bit_vector);
}

pub proof fn lemma_be64_roundtrip(x: u64)
    ensures
        from_be64(be64(x)) == x,
{
    assert(u64_of(
        (x >> 56u64) as u8,
        (x >> 48u64) as u8,
        (x >> 40u64) as u8,
        (x >> 32u64) as u8,
        (x >> 24u64) as u8,
        (x >> 16u64) as u8,
        (x >> 8u64) as u8,
        x as u8,
    ) == x) by (bit_vector);
}

pub proof fn lemma_signed64_roundtrip(x: i64)
    ensures
        ((x as u64) as i64) == x,
{
    assert(((x as u64) as i64) == x) by (bit_vector);
}

pub proof fn lemma_signed32_roundtrip(x: i32)
    ensures
        ((x as u32) as i32) == x,
{
    assert(((x as u32) as i32) == x) by (bit_vector);
}

/// Appends the big-endian bytes of `x`.
pub fn put_u16(out: &mut Vec<u8>, x: u16)
    ensures
        final(out)@ == old(out)@ + be16(x),
{
    out.push((x >> 8u16) as u8);
    out.push(x as u8);
    assert(out@ =~= old(out)@ + be16(x));
}

pub fn put_u32(out: &mut Vec<u8>, x: u32)
    ensures
        final(out)@ == old(out)@ + be32(x),
{
    out.push((x >> 24u32) as u8);
    out.push((x >> 16u32) as u8);
    out.push((x >> 8u32) as u8);
    out.push(x as u8);
    assert(out@ =~= old(out)@ + be32(x));
}

pub fn put_u64(out: &mut Vec<u8>, x: u64)
    ensures
        final(out)@ == old(out)@ + be64(x),
{
    out.push((x >> 56u64) as u8);
    out.push((x >> 48u64) as u8);
    out.push((x >> 40u64) as u8);
    out.push((x >> 32u64) as u8);
    out.push((x >> 24u64) as u8);
    out.push((x >> 16u64) as u8);
    out.push((x >> 8u64) as u8);
    out.push(x as u8);
    assert(out@ =~= old(out)@ + be64(x));
}

/// Reads a big-endian `u16` at `pos`, or `None` when fewer than two bytes are left.
pub fn get_u16(bytes: &[u8], pos: usize) -> (r: Option<u16>)
    requires
        pos <= bytes@.len(),
    ensures
        r == (if bytes@.len() - pos >= 2 {
            Some(from_be16(bytes@.skip(pos as int)))
        } else {
            None
        }),
{
    if bytes.len() - pos < 2 {
        return None;
    }
    Some(((bytes[pos] as u16) << 8u16) | (bytes[pos + 1] as u16))
}

pub fn get_u32(bytes: &[u8], pos: usize) -> (r: Option<u32>)
    requires
        pos <= bytes@.len(),
    ensures
        r == (if bytes@.len() - pos >= 4 {
            Some(from_be32(bytes@.skip(pos as int)))
        } else {
            None
        }),
{
    if bytes.len() - pos < 4 {
        return None;
    }
    Some(((bytes[pos] as u32) << 24u32) | ((bytes[pos + 1] as u32) << 16u32) | ((bytes[pos
        + 2] as u32) << 8u32) | (bytes[pos + 3] as u32))
}

pub fn get_u64(bytes: &[u8], pos: usize) -> (r: Option<u64>)
    requires
        pos <= bytes@.len(),
    ensures
        r == (if bytes@.len() - pos >= 8 {
            Some(from_be64(bytes@.skip(pos as int)))
        } else {
            None
        }),
{
    if bytes.len() - pos < 8 {
        return None;
    }
    Some(((bytes[pos] as u64) << 56u64) | ((bytes[pos + 1] as u64) << 48u64) | ((bytes[pos
        + 2] as u64) << 40u64) | ((bytes[pos + 3] as u64) << 32u64) | ((bytes[pos + 4] as u64)
        << 24u64) | ((bytes[pos + 5] as u64) << 16u64) | ((bytes[pos + 6] as u64) << 8u64) | (
    bytes[pos + 7] as u64))
}

/// Appends `bytes` to `out`.
pub fn put_bytes(out: &mut Vec<u8>, bytes: &[u8])
    ensures
        final(out)@ == old(out)@ + bytes@,
{
    let mut i: usize = 0;
    while i < bytes.len()
        invariant
            i <= bytes@.len(),
            out@ == old(out)@ + bytes@.take(i as int),
        decreases bytes@.len() - i,
    {
        out.push(bytes[i]);
        i = i + 1;
        assert(out@ =~= old(out)@ + bytes@.take(i as int));
    }
    assert(bytes@.take(i as int) =~= bytes@);
}

/// Copies `len` bytes starting at `pos`.
pub fn take_bytes(bytes: &[u8], pos: usize, len: usize) -> (r: Vec<u8>)
    requires
        pos <= bytes@.len(),
        len <= bytes@.len() - pos,
    ensures
        r@ == bytes@.skip(pos as int).take(len as int),
{
    let mut r: Vec<u8> = Vec::with_capacity(len);
    let n = bytes.len();
    let mut i: usize = 0;
    while i < len
        invariant
            i <= len,
            n == bytes@.len(),
            pos + len <= n,
            r@ == bytes@.skip(pos as int).take(i as int),
        decreases len - i,
    {
        r.push(bytes[pos + i]);
        i = i + 1;
        assert(r@ =~= bytes@.skip(pos as int).take(i as int));
    }
    r
}

} // verus!

verus! {

/// Whether the two byte sequences are the same.
pub fn bytes_eq(a: &[u8], b: &[u8]) -> (r: bool)
    ensures
        r == (a@ == b@),
{
    if a.len() != b.len() {
        return false;
    }
    let mut i: usize = 0;
    while i < a.len()
        invariant
            i <= a@.len(),
            a@.len() == b@.len(),
            forall|j: int| 0 <= j < i ==> a@[j] == b@[j],
        decreases a@.len() - i,
    {
        if a[i] != b[i] {
            return false;
        }
        i = i + 1;
    }
    assert(a@ =~= b@);
    true
}


/// Different numbers have different little-endian bytes.
pub proof fn lemma_le64_signed_injective(x: i64, y: i64)
    ensures
        le64_signed(x) == le64_signed(y) ==> x == y,
{
    if le64_signed(x) == le64_signed(y) {
        let a = le64_signed(x);
        let b = le64_signed(y);
        let u = x as u64;
        let v = y as u64;
        assert(a[0] == b[0] && a[1] == b[1] && a[2] == b[2] && a[3] == b[3]);
        assert(a[4] == b[4] && a[5] == b[5] && a[6] == b[6] && a[7] == b[7]);
        assert(u == v) by (bit_vector)
            requires
                u as u8 == v as u8,
                (u >> 8u64) as u8 == (v >> 8u64) as u8,
                (u >> 16u64) as u8 == (v >> 16u64) as u8,
                (u >> 24u64) as u8 == (v >> 24u64) as u8,
                (u >> 32u64) as u8 == (v >> 32u64) as u8,
                (u >> 40u64) as u8 == (v >> 40u64) as u8,
                (u >> 48u64) as u8 == (v >> 48u64) as u8,
                (u >> 56u64) as u8 == (v >> 56u64) as u8,
        ;
        lemma_signed64_roundtrip(x);
        lemma_signed64_roundtrip(y);
    }
}

} // verus!
