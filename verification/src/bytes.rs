//! Little-endian integer layouts and byte-region splicing: the primitives the
//! on-disk record specifications are written with.

use vstd::prelude::*;

verus! {

/// The four bytes of `x` in little-endian order.
pub open spec fn le32_bytes(x: u32) -> Seq<u8> {
    seq![x as u8, (x >> 8) as u8, (x >> 16) as u8, (x >> 24) as u8]
}

/// The value encoded by four little-endian bytes.
pub open spec fn le32_val(b0: u8, b1: u8, b2: u8, b3: u8) -> u32 {
    (b0 + b1 * 0x100 + b2 * 0x10000 + b3 * 0x1000000) as u32
}

/// The value of the four little-endian bytes of `s` starting at `off`.
pub open spec fn le32_at(s: Seq<u8>, off: int) -> u32 {
    le32_val(s[off], s[off + 1], s[off + 2], s[off + 3])
}

/// The eight bytes of `x` in little-endian order.
pub open spec fn le64_bytes(x: u64) -> Seq<u8> {
    seq![
        x as u8,
        (x >> 8) as u8,
        (x >> 16) as u8,
        (x >> 24) as u8,
        (x >> 32) as u8,
        (x >> 40) as u8,
        (x >> 48) as u8,
        (x >> 56) as u8,
    ]
}

/// The value encoded by eight little-endian bytes.
pub open spec fn le64_val(
    b0: u8,
    b1: u8,
    b2: u8,
    b3: u8,
    b4: u8,
    b5: u8,
    b6: u8,
    b7: u8,
) -> u64 {
    (b0 + b1 * 0x100 + b2 * 0x10000 + b3 * 0x1000000 + b4 * 0x1_0000_0000 + b5
        * 0x100_0000_0000 + b6 * 0x1_0000_0000_0000 + b7 * 0x100_0000_0000_0000) as u64
}

/// The value of the eight little-endian bytes of `s` starting at `off`.
pub open spec fn le64_at(s: Seq<u8>, off: int) -> u64 {
    le64_val(
        s[off],
        s[off + 1],
        s[off + 2],
        s[off + 3],
        s[off + 4],
        s[off + 5],
        s[off + 6],
        s[off + 7],
    )
}

/// Decoding the little-endian bytes of a 32-bit value gives the value back.
pub proof fn lemma_le32_roundtrip(x: u32)
    ensures
        le32_at(le32_bytes(x), 0) == x,
{
    let b0 = x as u8;
    let b1 = (x >> 8) as u8;
    let b2 = (x >> 16) as u8;
    let b3 = (x >> 24) as u8;
    assert(le32_val(b0, b1, b2, b3) == x) by (bit_vector)
        requires
            b0 == x as u8,
            b1 == (x >> 8) as u8,
            b2 == (x >> 16) as u8,
            b3 == (x >> 24) as u8,
    ;
}

/// Decoding the little-endian bytes of a 64-bit value gives the value back.
pub proof fn lemma_le64_roundtrip(x: u64)
    ensures
        le64_at(le64_bytes(x), 0) == x,
{
    let b0 = x as u8;
    let b1 = (x >> 8) as u8;
    let b2 = (x >> 16) as u8;
    let b3 = (x >> 24) as u8;
    let b4 = (x >> 32) as u8;
    let b5 = (x >> 40) as u8;
    let b6 = (x >> 48) as u8;
    let b7 = (x >> 56) as u8;
    assert(le64_val(b0, b1, b2, b3, b4, b5, b6, b7) == x) by (bit_vector)
        requires
            b0 == x as u8,
            b1 == (x >> 8) as u8,
            b2 == (x >> 16) as u8,
            b3 == (x >> 24) as u8,
            b4 == (x >> 32) as u8,
            b5 == (x >> 40) as u8,
            b6 == (x >> 48) as u8,
            b7 == (x >> 56) as u8,
    ;
}

/// The little-endian bytes of a zero 32-bit value are all zero.
pub proof fn lemma_le32_bytes_zero()
    ensures
        le32_bytes(0) == seq![0u8, 0u8, 0u8, 0u8],
{
    assert(0u32 as u8 == 0 && (0u32 >> 8) as u8 == 0 && (0u32 >> 16) as u8 == 0 && (0u32 >> 24)
        as u8 == 0) by (bit_vector);
    assert(le32_bytes(0) =~= seq![0u8, 0u8, 0u8, 0u8]);
}

/// A subrange of a subrange of `s` is a subrange of `s`.
pub proof fn lemma_subrange_of_subrange(s: Seq<u8>, off: int, len: int, a: int, b: int)
    requires
        0 <= off,
        off + len <= s.len(),
        0 <= a <= b <= len,
    ensures
        s.subrange(off, off + len).subrange(a, b) == s.subrange(off + a, off + b),
{
    assert(s.subrange(off, off + len).subrange(a, b) =~= s.subrange(off + a, off + b));
}

/// `s` with the bytes of `d` written at offset `off`; everything else kept.
pub open spec fn splice(s: Seq<u8>, off: int, d: Seq<u8>) -> Seq<u8> {
    Seq::new(s.len(), |i: int| if off <= i < off + d.len() { d[i - off] } else { s[i] })
}

/// Append the little-endian bytes of `x` to `out`.
pub fn push_le32(out: &mut Vec<u8>, x: u32)
    ensures
        final(out)@ == old(out)@ + le32_bytes(x),
{
    out.push(x as u8);
    out.push((x >> 8) as u8);
    out.push((x >> 16) as u8);
    out.push((x >> 24) as u8);
    proof {
        assert(out@ =~= old(out)@ + le32_bytes(x));
    }
}

/// Append the little-endian bytes of `x` to `out`.
pub fn push_le64(out: &mut Vec<u8>, x: u64)
    ensures
        final(out)@ == old(out)@ + le64_bytes(x),
{
    out.push(x as u8);
    out.push((x >> 8) as u8);
    out.push((x >> 16) as u8);
    out.push((x >> 24) as u8);
    out.push((x >> 32) as u8);
    out.push((x >> 40) as u8);
    out.push((x >> 48) as u8);
    out.push((x >> 56) as u8);
    proof {
        assert(out@ =~= old(out)@ + le64_bytes(x));
    }
}

/// Read the 32-bit little-endian value at `off`.
pub fn read_le32(s: &Vec<u8>, off: usize) -> (x: u32)
    requires
        off + 4 <= s.len(),
    ensures
        x == le32_at(s@, off as int),
{
    let b0 = s[off] as u32;
    let b1 = s[off + 1] as u32;
    let b2 = s[off + 2] as u32;
    let b3 = s[off + 3] as u32;
    b0 + b1 * 0x100 + b2 * 0x10000 + b3 * 0x1000000
}

/// Read the 64-bit little-endian value at `off`.
pub fn read_le64(s: &Vec<u8>, off: usize) -> (x: u64)
    requires
        off + 8 <= s.len(),
    ensures
        x == le64_at(s@, off as int),
{
    let b0 = s[off] as u64;
    let b1 = s[off + 1] as u64;
    let b2 = s[off + 2] as u64;
    let b3 = s[off + 3] as u64;
    let b4 = s[off + 4] as u64;
    let b5 = s[off + 5] as u64;
    let b6 = s[off + 6] as u64;
    let b7 = s[off + 7] as u64;
    b0 + b1 * 0x100 + b2 * 0x10000 + b3 * 0x1000000 + b4 * 0x1_0000_0000 + b5 * 0x100_0000_0000
        + b6 * 0x1_0000_0000_0000 + b7 * 0x100_0000_0000_0000
}

/// Append the bytes of a fixed-size array to `out`.
pub fn push_array<const N: usize>(out: &mut Vec<u8>, a: &[u8; N])
    ensures
        final(out)@ == old(out)@ + a@,
{
    let mut i: usize = 0;
    while i < N
        invariant
            i <= N,
            out@.len() == old(out)@.len() + i,
            forall|k: int| 0 <= k < old(out)@.len() ==> out@[k] == old(out)@[k],
            forall|k: int| 0 <= k < i ==> out@[old(out)@.len() + k] == a@[k],
        decreases N - i,
    {
        out.push(a[i]);
        i = i + 1;
    }
    proof {
        assert(out@ =~= old(out)@ + a@);
    }
}

/// The `N` bytes of `b` starting at `off`, as a fixed-size array.
pub fn array_from<const N: usize>(b: &Vec<u8>, off: usize) -> (r: [u8; N])
    requires
        off + N <= b.len(),
    ensures
        r@ == b@.subrange(off as int, off + N),
{
    let mut r = [0u8; N];
    let mut i: usize = 0;
    while i < N
        invariant
            i <= N,
            off + N <= b.len(),
            r@.len() == N,
            forall|k: int| 0 <= k < i ==> r@[k] == b@[off + k],
        decreases N - i,
    {
        r[i] = b[off + i];
        i = i + 1;
    }
    proof {
        assert(r@ =~= b@.subrange(off as int, off + N));
    }
    r
}

/// The four bytes of `v`, least significant first.
pub fn u32_to_le(v: u32) -> (r: [u8; 4])
    ensures
        r@ == le32_bytes(v),
{
    let r = [v as u8, (v >> 8) as u8, (v >> 16) as u8, (v >> 24) as u8];
    proof {
        assert(r@ =~= le32_bytes(v));
    }
    r
}

} // verus!
