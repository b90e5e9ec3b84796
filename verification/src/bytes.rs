//! Little-endian 32-bit fields inside a byte buffer.
use vstd::prelude::*;

verus! {

/// The unsigned value of the four bytes `b0..b3`, least significant first.
pub open spec fn u32_from_le(b0: u8, b1: u8, b2: u8, b3: u8) -> u32 {
    (b0 + 256 * b1 + 65536 * b2 + 16777216 * b3) as u32
}

/// The little-endian 32-bit value stored in `s` at `at .. at + 4`.
pub open spec fn u32_le_at(s: Seq<u8>, at: int) -> u32 {
    u32_from_le(s[at], s[at + 1], s[at + 2], s[at + 3])
}

/// The four little-endian bytes of `v`.
pub open spec fn u32_le_bytes(v: u32) -> Seq<u8> {
    seq![
        (v % 256) as u8,
        ((v / 256) % 256) as u8,
        ((v / 65536) % 256) as u8,
        (v / 16777216) as u8,
    ]
}

/// `s` with the four bytes at `at .. at + 4` replaced by the encoding of `v`.
pub open spec fn u32_le_written(s: Seq<u8>, at: int, v: u32) -> Seq<u8> {
    s.take(at) + u32_le_bytes(v) + s.skip(at + 4)
}

/// Reads the little-endian `u32` at `offset`.
pub fn read_u32(data: &[u8], offset: usize) -> (v: u32)
    requires
        offset + 4 <= data@.len(),
    ensures
        v == u32_le_at(data@, offset as int),
{
    let b0 = data[offset] as u32;
    let b1 = data[offset + 1] as u32;
    let b2 = data[offset + 2] as u32;
    let b3 = data[offset + 3] as u32;
    b0 + 256 * b1 + 65536 * b2 + 16777216 * b3
}

/// Stores `value` little-endian at `offset .. offset + 4`; every other byte
/// keeps its value.
pub fn write_u32(data: &mut [u8], offset: usize, value: u32)
    requires
        offset + 4 <= old(data)@.len(),
    ensures
        final(data)@ == u32_le_written(old(data)@, offset as int, value),
{
    data[offset] = (value % 256) as u8;
    data[offset + 1] = ((value / 256) % 256) as u8;
    data[offset + 2] = ((value / 65536) % 256) as u8;
    data[offset + 3] = (value / 16777216) as u8;
    assert(data@ =~= u32_le_written(old(data)@, offset as int, value));
}

/// Decoding the encoding of `v` gives `v` back.
pub proof fn lemma_u32_le_roundtrip(v: u32)
    ensures
        u32_from_le(
            (v % 256) as u8,
            ((v / 256) % 256) as u8,
            ((v / 65536) % 256) as u8,
            (v / 16777216) as u8,
        ) == v,
{
    assert(v % 256 + 256 * ((v / 256) % 256) + 65536 * ((v / 65536) % 256) + 16777216 * (v
        / 16777216) == v) by (nonlinear_arith);
}

/// A read at an offset gives back what a write at that offset stored.
pub proof fn law_read_after_write(s: Seq<u8>, at: int, v: u32)
    requires
        0 <= at,
        at + 4 <= s.len(),
    ensures
        u32_le_written(s, at, v).len() == s.len(),
        u32_le_at(u32_le_written(s, at, v), at) == v,
{
    lemma_u32_le_roundtrip(v);
    let w = u32_le_written(s, at, v);
    assert(w[at] == (v % 256) as u8);
    assert(w[at + 1] == ((v / 256) % 256) as u8);
    assert(w[at + 2] == ((v / 65536) % 256) as u8);
    assert(w[at + 3] == (v / 16777216) as u8);
}

/// A write touches only its four bytes: a read of four bytes that do not
/// overlap them gives what it gave before.
pub proof fn law_write_keeps_other_fields(s: Seq<u8>, at: int, v: u32, other: int)
    requires
        0 <= at,
        at + 4 <= s.len(),
        0 <= other,
        other + 4 <= s.len(),
        other + 4 <= at || at + 4 <= other,
    ensures
        u32_le_at(u32_le_written(s, at, v), other) == u32_le_at(s, other),
{
    let w = u32_le_written(s, at, v);
    assert(w[other] == s[other]);
    assert(w[other + 1] == s[other + 1]);
    assert(w[other + 2] == s[other + 2]);
    assert(w[other + 3] == s[other + 3]);
}

/// Writing back the value just read leaves the buffer as it was.
pub proof fn law_write_what_was_read(s: Seq<u8>, at: int)
    requires
        0 <= at,
        at + 4 <= s.len(),
    ensures
        u32_le_written(s, at, u32_le_at(s, at)) == s,
{
    let v = u32_le_at(s, at);
    let (b0, b1, b2, b3) = (s[at], s[at + 1], s[at + 2], s[at + 3]);
    assert(b0 + 256 * b1 + 65536 * b2 + 16777216 * b3 < 0x1_0000_0000) by (nonlinear_arith)
        requires b0 < 256, b1 < 256, b2 < 256, b3 < 256;
    let n: int = b0 + 256 * b1 + 65536 * b2 + 16777216 * b3;
    assert(v == n);
    assert(n % 256 == b0 && (n / 256) % 256 == b1 && (n / 65536) % 256 == b2 && n / 16777216
        == b3) by (nonlinear_arith)
        requires
            n == b0 + 256 * b1 + 65536 * b2 + 16777216 * b3,
            0 <= b0 < 256, 0 <= b1 < 256, 0 <= b2 < 256, 0 <= b3 < 256;
    assert(u32_le_written(s, at, v) =~= s);
}

} // verus!
