//! Small tools for runs of bytes and for numbers written in bytes.

use vstd::prelude::*;

verus! {

/// A copy of the bytes of `buf` from `from` up to, not including, `to`.
pub fn copy_range(buf: &[u8], from: usize, to: usize) -> (out: Vec<u8>)
    requires
        from <= to <= buf@.len(),
    ensures
        out@ == buf@.subrange(from as int, to as int),
{
    let mut out: Vec<u8> = Vec::new();
    let mut i: usize = from;
    while i < to
        invariant
            from <= i <= to <= buf@.len(),
            out@ == buf@.subrange(from as int, i as int),
        decreases to - i,
    {
        out.push(buf[i]);
        i += 1;
        assert(out@ =~= buf@.subrange(from as int, i as int));
    }
    out
}

/// Appends the bytes of `more` to `buf`.
pub fn append(buf: &mut Vec<u8>, more: &[u8])
    ensures
        final(buf)@ == old(buf)@ + more@,
{
    let mut i: usize = 0;
    while i < more.len()
        invariant
            i <= more@.len(),
            buf@ == old(buf)@ + more@.subrange(0, i as int),
        decreases more.len() - i,
    {
        buf.push(more[i]);
        i += 1;
        assert(buf@ =~= old(buf)@ + more@.subrange(0, i as int));
    }
    assert(more@.subrange(0, more@.len() as int) =~= more@);
}

/// Whether `needle` occurs among the bytes of `buf` from `from` up to `to`.
pub fn contains_in(buf: &[u8], from: usize, to: usize, needle: u8) -> (found: bool)
    requires
        from <= to <= buf@.len(),
    ensures
        found == buf@.subrange(from as int, to as int).contains(needle),
{
    let mut i: usize = from;
    while i < to
        invariant
            from <= i <= to <= buf@.len(),
            !buf@.subrange(from as int, i as int).contains(needle),
        decreases to - i,
    {
        if buf[i] == needle {
            assert(buf@.subrange(from as int, to as int)[i - from] == needle);
            return true;
        }
        i += 1;
        assert forall|k: int| 0 <= k < i - from implies buf@.subrange(from as int, i as int)[k]
            != needle by {
            if k < i - 1 - from {
                assert(buf@.subrange(from as int, i - 1)[k] != needle);
            }
        }
    }
    false
}

/// The two bytes of `x`, most significant first.
pub open spec fn be16(x: u16) -> Seq<u8> {
    seq![(x / 256) as u8, (x % 256) as u8]
}

/// The four bytes of `x`, most significant first.
pub open spec fn be32(x: u32) -> Seq<u8> {
    seq![
        (x / 0x100_0000) as u8,
        (x / 0x1_0000 % 256) as u8,
        (x / 0x100 % 256) as u8,
        (x % 256) as u8,
    ]
}

/// The eight bytes of `x`, most significant first.
pub open spec fn be64(x: u64) -> Seq<u8> {
    be32((x / 0x1_0000_0000) as u32) + be32((x % 0x1_0000_0000) as u32)
}

/// The number whose two bytes, most significant first, are `hi` and `lo`.
pub open spec fn from_be16(hi: u8, lo: u8) -> u16 {
    (hi * 256 + lo) as u16
}

/// The number whose eight bytes, most significant first, are `b`.
pub open spec fn from_be64(b: Seq<u8>) -> u64
    recommends
        b.len() == 8,
{
    (((((((b[0] as int * 256 + b[1]) * 256 + b[2]) * 256 + b[3]) * 256 + b[4]) * 256 + b[5]) * 256
        + b[6]) * 256 + b[7]) as u64
}

/// Appends the two bytes of `x`, most significant first.
pub fn push_be16(buf: &mut Vec<u8>, x: u16)
    ensures
        final(buf)@ == old(buf)@ + be16(x),
{
    buf.push((x / 256) as u8);
    buf.push((x % 256) as u8);
    assert(buf@ =~= old(buf)@ + be16(x));
}

/// Appends the four bytes of `x`, most significant first.
pub fn push_be32(buf: &mut Vec<u8>, x: u32)
    ensures
        final(buf)@ == old(buf)@ + be32(x),
{
    buf.push((x / 0x100_0000) as u8);
    buf.push((x / 0x1_0000 % 256) as u8);
    buf.push((x / 0x100 % 256) as u8);
    buf.push((x % 256) as u8);
    assert(buf@ =~= old(buf)@ + be32(x));
}

/// Appends the eight bytes of `x`, most significant first.
pub fn push_be64(buf: &mut Vec<u8>, x: u64)
    ensures
        final(buf)@ == old(buf)@ + be64(x),
{
    push_be32(buf, (x / 0x1_0000_0000) as u32);
    push_be32(buf, (x % 0x1_0000_0000) as u32);
    assert(buf@ =~= old(buf)@ + be64(x));
}

/// Reads the eight bytes at the start of `b` as a number, most significant first.
pub fn read_be64(b: &[u8]) -> (x: u64)
    requires
        b@.len() >= 8,
    ensures
        x == from_be64(b@.subrange(0, 8)),
{
    let ghost s = b@.subrange(0, 8);
    let mut x: u64 = b[0] as u64;
    x = x * 256 + b[1] as u64;
    x = x * 256 + b[2] as u64;
    x = x * 256 + b[3] as u64;
    x = x * 256 + b[4] as u64;
    x = x * 256 + b[5] as u64;
    x = x * 256 + b[6] as u64;
    x = x * 256 + b[7] as u64;
    assert(s[0] == b@[0] && s[1] == b@[1] && s[2] == b@[2] && s[3] == b@[3] && s[4] == b@[4]
        && s[5] == b@[5] && s[6] == b@[6] && s[7] == b@[7]);
    x
}

/// The number whose four bytes, most significant first, are `b`.
pub open spec fn from_be32(b: Seq<u8>) -> u32
    recommends
        b.len() == 4,
{
    (((b[0] as int * 256 + b[1]) * 256 + b[2]) * 256 + b[3]) as u32
}

/// Reading back the four bytes of a number gives the number.
pub proof fn lemma_be32_round_trip(x: u32)
    ensures
        be32(x).len() == 4,
        from_be32(be32(x)) == x,
{
    let b0 = (x / 0x100_0000) as u8;
    let b1 = (x / 0x1_0000 % 256) as u8;
    let b2 = (x / 0x100 % 256) as u8;
    let b3 = (x % 256) as u8;
    assert(x / 0x100_0000 < 256) by (bit_vector);
    assert(b0 == x / 0x100_0000 && b1 == x / 0x1_0000 % 256 && b2 == x / 0x100 % 256 && b3 == x
        % 256);
    assert(((x / 0x100_0000 * 256 + x / 0x1_0000 % 256) * 256 + x / 0x100 % 256) * 256 + x % 256
        == x) by (bit_vector);
    assert(be32(x)[0] == b0 && be32(x)[1] == b1 && be32(x)[2] == b2 && be32(x)[3] == b3);
}

/// Reading back the eight bytes of a number gives the number.
pub proof fn lemma_be64_round_trip(x: u64)
    ensures
        be64(x).len() == 8,
        from_be64(be64(x)) == x,
{
    let hi = (x / 0x1_0000_0000) as u32;
    let lo = (x % 0x1_0000_0000) as u32;
    lemma_be32_round_trip(hi);
    lemma_be32_round_trip(lo);
    let b = be64(x);
    assert(b[0] == be32(hi)[0] && b[1] == be32(hi)[1] && b[2] == be32(hi)[2] && b[3] == be32(
        hi,
    )[3]);
    assert(b[4] == be32(lo)[0] && b[5] == be32(lo)[1] && b[6] == be32(lo)[2] && b[7] == be32(
        lo,
    )[3]);
    let h = from_be32(be32(hi)) as int;
    let l = from_be32(be32(lo)) as int;
    assert(h == ((b[0] as int * 256 + b[1]) * 256 + b[2]) * 256 + b[3]);
    assert(l == ((b[4] as int * 256 + b[5]) * 256 + b[6]) * 256 + b[7]);
    assert(from_be64(b) as int == h * 0x1_0000_0000 + l);
    assert(x == (x / 0x1_0000_0000) * 0x1_0000_0000 + x % 0x1_0000_0000) by (bit_vector);
}

} // verus!
