//! Small verified helpers on byte vectors: copying ranges and the
//! little/big-endian layouts of 64-bit integers used on the wire.
use vstd::prelude::*;

verus! {

/// Copies `v[lo..hi]` into a new vector.
pub fn copy_range(v: &[u8], lo: usize, hi: usize) -> (r: Vec<u8>)
    requires
        lo <= hi <= v@.len(),
    ensures
        r@ == v@.subrange(lo as int, hi as int),
{
    let mut r: Vec<u8> = Vec::new();
    let mut i = lo;
    while i < hi
        invariant
            lo <= i <= hi <= v@.len(),
            r@ == v@.subrange(lo as int, i as int),
        decreases hi - i,
    {
        r.push(v[i]);
        assert(v@.subrange(lo as int, i + 1) == v@.subrange(lo as int, i as int).push(v@[i as int]));
        i += 1;
    }
    r
}

/// Appends every byte of `src` to `dst`.
pub fn extend_bytes(dst: &mut Vec<u8>, src: &[u8])
    ensures
        final(dst)@ == old(dst)@ + src@,
{
    let n = src.len();
    for i in 0..n
        invariant
            n == src@.len(),
            dst@ == old(dst)@ + src@.take(i as int),
    {
        dst.push(src[i]);
        assert(src@.take(i + 1) == src@.take(i as int).push(src@[i as int]));
    }
    assert(src@.take(n as int) == src@);
}

/// Byte `i` (0 = least significant) of a 64-bit value.
pub open spec fn byte_of(x: u64, i: int) -> u8 {
    ((x >> (8 * i) as u64) & 0xff) as u8
}

/// The eight bytes of `x`, least significant first.
pub open spec fn le_bytes(x: u64) -> Seq<u8> {
    seq![byte_of(x, 0), byte_of(x, 1), byte_of(x, 2), byte_of(x, 3),
         byte_of(x, 4), byte_of(x, 5), byte_of(x, 6), byte_of(x, 7)]
}

/// The eight bytes of `x`, most significant first.
pub open spec fn be_bytes(x: u64) -> Seq<u8> {
    seq![byte_of(x, 7), byte_of(x, 6), byte_of(x, 5), byte_of(x, 4),
         byte_of(x, 3), byte_of(x, 2), byte_of(x, 1), byte_of(x, 0)]
}

/// The value whose little-endian bytes are `b[0..8]`.
pub open spec fn le_value(b: Seq<u8>) -> u64 {
    (b[0] as u64) | ((b[1] as u64) << 8u64) | ((b[2] as u64) << 16u64) | ((b[3] as u64) << 24u64)
        | ((b[4] as u64) << 32u64) | ((b[5] as u64) << 40u64) | ((b[6] as u64) << 48u64)
        | ((b[7] as u64) << 56u64)
}

/// Appends the little-endian bytes of `x`.
pub fn push_u64_le(dst: &mut Vec<u8>, x: u64)
    ensures
        final(dst)@ == old(dst)@ + le_bytes(x),
{
    dst.push((x & 0xff) as u8);
    dst.push(((x >> 8u64) & 0xff) as u8);
    dst.push(((x >> 16u64) & 0xff) as u8);
    dst.push(((x >> 24u64) & 0xff) as u8);
    dst.push(((x >> 32u64) & 0xff) as u8);
    dst.push(((x >> 40u64) & 0xff) as u8);
    dst.push(((x >> 48u64) & 0xff) as u8);
    dst.push(((x >> 56u64) & 0xff) as u8);
    assert(x == x >> 0u64) by (bit_vector);
    assert(dst@ == old(dst)@ + le_bytes(x));
}

/// Appends the big-endian bytes of `x`.
pub fn push_u64_be(dst: &mut Vec<u8>, x: u64)
    ensures
        final(dst)@ == old(dst)@ + be_bytes(x),
{
    dst.push(((x >> 56u64) & 0xff) as u8);
    dst.push(((x >> 48u64) & 0xff) as u8);
    dst.push(((x >> 40u64) & 0xff) as u8);
    dst.push(((x >> 32u64) & 0xff) as u8);
    dst.push(((x >> 24u64) & 0xff) as u8);
    dst.push(((x >> 16u64) & 0xff) as u8);
    dst.push(((x >> 8u64) & 0xff) as u8);
    dst.push((x & 0xff) as u8);
    assert(x == x >> 0u64) by (bit_vector);
    assert(dst@ == old(dst)@ + be_bytes(x));
}

/// Reads the little-endian value of `b[at..at + 8]`.
pub fn read_u64_le(b: &[u8], at: usize) -> (r: u64)
    requires
        at + 8 <= b@.len(),
    ensures
        r == le_value(b@.subrange(at as int, at + 8)),
{
    let r = (b[at] as u64) | ((b[at + 1] as u64) << 8u64) | ((b[at + 2] as u64) << 16u64)
        | ((b[at + 3] as u64) << 24u64) | ((b[at + 4] as u64) << 32u64) | ((b[at + 5] as u64)
        << 40u64) | ((b[at + 6] as u64) << 48u64) | ((b[at + 7] as u64) << 56u64);
    r
}

/// Reading back the little-endian bytes of a value gives the value.
pub proof fn lemma_le_roundtrip(x: u64)
    ensures
        le_value(le_bytes(x)) == x,
        le_bytes(x).len() == 8,
{
    let b0 = byte_of(x, 0);
    let b1 = byte_of(x, 1);
    let b2 = byte_of(x, 2);
    let b3 = byte_of(x, 3);
    let b4 = byte_of(x, 4);
    let b5 = byte_of(x, 5);
    let b6 = byte_of(x, 6);
    let b7 = byte_of(x, 7);
    assert(b0 == ((x >> 0u64) & 0xff) as u8);
    assert(b1 == ((x >> 8u64) & 0xff) as u8);
    assert(b2 == ((x >> 16u64) & 0xff) as u8);
    assert(b3 == ((x >> 24u64) & 0xff) as u8);
    assert(b4 == ((x >> 32u64) & 0xff) as u8);
    assert(b5 == ((x >> 40u64) & 0xff) as u8);
    assert(b6 == ((x >> 48u64) & 0xff) as u8);
    assert(b7 == ((x >> 56u64) & 0xff) as u8);
    assert((b0 as u64) | ((b1 as u64) << 8u64) | ((b2 as u64) << 16u64) | ((b3 as u64) << 24u64)
        | ((b4 as u64) << 32u64) | ((b5 as u64) << 40u64) | ((b6 as u64) << 48u64)
        | ((b7 as u64) << 56u64) == x) by (bit_vector)
        requires
            b0 == ((x >> 0u64) & 0xff) as u8,
            b1 == ((x >> 8u64) & 0xff) as u8,
            b2 == ((x >> 16u64) & 0xff) as u8,
            b3 == ((x >> 24u64) & 0xff) as u8,
            b4 == ((x >> 32u64) & 0xff) as u8,
            b5 == ((x >> 40u64) & 0xff) as u8,
            b6 == ((x >> 48u64) & 0xff) as u8,
            b7 == ((x >> 56u64) & 0xff) as u8,
    ;
}

} // verus!
