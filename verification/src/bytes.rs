//! Big-endian integers inside byte sequences.

use vstd::prelude::*;

verus! {

/// The two bytes of `v`, most significant first.
pub open spec fn be_u16(v: u16) -> Seq<u8> {
    seq![(v / 0x100) as u8, (v % 0x100) as u8]
}

/// The four bytes of `v`, most significant first.
pub open spec fn be_u32(v: u32) -> Seq<u8> {
    seq![
        (v / 0x100_0000) as u8,
        (v / 0x1_0000 % 0x100) as u8,
        (v / 0x100 % 0x100) as u8,
        (v % 0x100) as u8,
    ]
}

/// The integer that the two bytes of `s` from `i` on stand for.
pub open spec fn u16_at(s: Seq<u8>, i: int) -> u16 {
    (s[i] * 0x100 + s[i + 1]) as u16
}

/// The integer that the four bytes of `s` from `i` on stand for.
pub open spec fn u32_at(s: Seq<u8>, i: int) -> u32 {
    (s[i] * 0x100_0000 + s[i + 1] * 0x1_0000 + s[i + 2] * 0x100 + s[i + 3]) as u32
}

/// The first byte of a 16-bit integer counts 256 times as much as the second.
pub proof fn law_u16_big_endian(v: u16)
    ensures
        be_u16(v).len() == 2,
        be_u16(v)[0] * 256 + be_u16(v)[1] == v,
{
}

/// Each byte of a 32-bit integer counts 256 times as much as the next.
pub proof fn law_u32_big_endian(v: u32)
    ensures
        be_u32(v).len() == 4,
        ((be_u32(v)[0] * 256 + be_u32(v)[1]) * 256 + be_u32(v)[2]) * 256 + be_u32(v)[3] == v,
{
}

/// Integers are read from where they are said to be, the byte that counts most first.
pub proof fn law_read_big_endian(s: Seq<u8>, i: int)
    ensures
        u16_at(s, i) == s[i] * 256 + s[i + 1],
        u32_at(s, i) == ((s[i] * 256 + s[i + 1]) * 256 + s[i + 2]) * 256 + s[i + 3],
{
}

/// Writing a 16-bit integer and reading it back gives the integer.
pub proof fn law_u16_round_trip(v: u16)
    ensures
        be_u16(v).len() == 2,
        u16_at(be_u16(v), 0) == v,
{
}

/// Writing a 32-bit integer and reading it back gives the integer.
pub proof fn law_u32_round_trip(v: u32)
    ensures
        be_u32(v).len() == 4,
        u32_at(be_u32(v), 0) == v,
{
}

/// Reading a 16-bit integer and writing it back gives the bytes that were read.
pub proof fn law_u16_bytes(s: Seq<u8>, i: int)
    requires
        0 <= i,
        i + 2 <= s.len(),
    ensures
        be_u16(u16_at(s, i)) == s.subrange(i, i + 2),
{
    assert(be_u16(u16_at(s, i)) =~= s.subrange(i, i + 2));
}

/// Reading a 32-bit integer and writing it back gives the bytes that were read.
pub proof fn law_u32_bytes(s: Seq<u8>, i: int)
    requires
        0 <= i,
        i + 4 <= s.len(),
    ensures
        be_u32(u32_at(s, i)) == s.subrange(i, i + 4),
{
    let a = s[i] as u32;
    let b = s[i + 1] as u32;
    let c = s[i + 2] as u32;
    let d = s[i + 3] as u32;
    let v = u32_at(s, i);
    assert(v == a * 0x100_0000 + b * 0x1_0000 + c * 0x100 + d);
    assert(v / 0x100_0000 == a && v / 0x1_0000 % 0x100 == b && v / 0x100 % 0x100 == c && v % 0x100
        == d) by (bit_vector)
        requires
            a < 0x100,
            b < 0x100,
            c < 0x100,
            d < 0x100,
            v == a * 0x100_0000 + b * 0x1_0000 + c * 0x100 + d,
    ;
    assert(be_u32(v) =~= s.subrange(i, i + 4));
}

/// Where the four bytes of `v` stand in `s` from `i` on, `v` is what is read there.
pub proof fn lemma_u32_placed(s: Seq<u8>, i: int, v: u32)
    requires
        0 <= i,
        i + 4 <= s.len(),
        s.subrange(i, i + 4) == be_u32(v),
    ensures
        u32_at(s, i) == v,
{
    let t = s.subrange(i, i + 4);
    assert(t[0] == s[i] && t[1] == s[i + 1] && t[2] == s[i + 2] && t[3] == s[i + 3]);
    law_u32_round_trip(v);
}

/// Where the two bytes of `v` stand in `s` from `i` on, `v` is what is read there.
pub proof fn lemma_u16_placed(s: Seq<u8>, i: int, v: u16)
    requires
        0 <= i,
        i + 2 <= s.len(),
        s.subrange(i, i + 2) == be_u16(v),
    ensures
        u16_at(s, i) == v,
{
    let t = s.subrange(i, i + 2);
    assert(t[0] == s[i] && t[1] == s[i + 1]);
    law_u16_round_trip(v);
}

/// Appends `v` to `out`.
pub fn put_u16(out: &mut Vec<u8>, v: u16)
    ensures
        final(out)@ == old(out)@ + be_u16(v),
{
    out.push((v / 0x100) as u8);
    out.push((v % 0x100) as u8);
    assert(out@ =~= old(out)@ + be_u16(v));
}

/// Appends `v` to `out`.
pub fn put_u32(out: &mut Vec<u8>, v: u32)
    ensures
        final(out)@ == old(out)@ + be_u32(v),
{
    out.push((v / 0x100_0000) as u8);
    out.push((v / 0x1_0000 % 0x100) as u8);
    out.push((v / 0x100 % 0x100) as u8);
    out.push((v % 0x100) as u8);
    assert(out@ =~= old(out)@ + be_u32(v));
}

/// Appends the bytes of `data` to `out`.
pub fn put_bytes(out: &mut Vec<u8>, data: &[u8])
    ensures
        final(out)@ == old(out)@ + data@,
{
    out.extend_from_slice(data);
    assert(out@ =~= old(out)@ + data@);
}

/// Reads the 16-bit integer at `i`.
pub fn get_u16(s: &[u8], i: usize) -> (v: u16)
    requires
        i + 2 <= s@.len(),
    ensures
        v == u16_at(s@, i as int),
{
    s[i] as u16 * 0x100 + s[i + 1] as u16
}

/// Reads the 32-bit integer at `i`.
pub fn get_u32(s: &[u8], i: usize) -> (v: u32)
    requires
        i + 4 <= s@.len(),
    ensures
        v == u32_at(s@, i as int),
{
    s[i] as u32 * 0x100_0000 + s[i + 1] as u32 * 0x1_0000 + s[i + 2] as u32 * 0x100 + s[i + 3] as u32
}

} // verus!
