//! Big- and little-endian encodings of fixed-width integers.
use vstd::prelude::*;

verus! {

/// Big-endian bytes of a `u32`.
pub open spec fn be32(x: u32) -> Seq<u8> {
    seq![
        (x / 0x1000000) as u8,
        (x / 0x10000 % 0x100) as u8,
        (x / 0x100 % 0x100) as u8,
        (x % 0x100) as u8,
    ]
}

/// Big-endian bytes of a `u64`.
pub open spec fn be64(x: u64) -> Seq<u8> {
    seq![
        (x / 0x100000000000000) as u8,
        (x / 0x1000000000000 % 0x100) as u8,
        (x / 0x10000000000 % 0x100) as u8,
        (x / 0x100000000 % 0x100) as u8,
        (x / 0x1000000 % 0x100) as u8,
        (x / 0x10000 % 0x100) as u8,
        (x / 0x100 % 0x100) as u8,
        (x % 0x100) as u8,
    ]
}

/// Little-endian bytes of a `u32`.
pub open spec fn le32(x: u32) -> Seq<u8> {
    seq![
        (x % 0x100) as u8,
        (x / 0x100 % 0x100) as u8,
        (x / 0x10000 % 0x100) as u8,
        (x / 0x1000000) as u8,
    ]
}

/// Little-endian bytes of a `u64`.
pub open spec fn le64(x: u64) -> Seq<u8> {
    seq![
        (x % 0x100) as u8,
        (x / 0x100 % 0x100) as u8,
        (x / 0x10000 % 0x100) as u8,
        (x / 0x1000000 % 0x100) as u8,
        (x / 0x100000000 % 0x100) as u8,
        (x / 0x10000000000 % 0x100) as u8,
        (x / 0x1000000000000 % 0x100) as u8,
        (x / 0x100000000000000) as u8,
    ]
}

/// The `u32` whose big-endian bytes are the first four of `s`.
pub open spec fn from_be32(s: Seq<u8>) -> u32 {
    (s[0] as int * 0x1000000 + s[1] as int * 0x10000 + s[2] as int * 0x100 + s[3] as int) as u32
}

/// The `u64` whose big-endian bytes are the first eight of `s`.
pub open spec fn from_be64(s: Seq<u8>) -> u64 {
    (s[0] as int * 0x100000000000000 + s[1] as int * 0x1000000000000 + s[2] as int
        * 0x10000000000 + s[3] as int * 0x100000000 + s[4] as int * 0x1000000 + s[5] as int
        * 0x10000 + s[6] as int * 0x100 + s[7] as int) as u64
}

/// The `u32` whose little-endian bytes are the first four of `s`.
pub open spec fn from_le32(s: Seq<u8>) -> u32 {
    from_be32(seq![s[3], s[2], s[1], s[0]])
}

/// The `u64` whose little-endian bytes are the first eight of `s`.
pub open spec fn from_le64(s: Seq<u8>) -> u64 {
    from_be64(seq![s[7], s[6], s[5], s[4], s[3], s[2], s[1], s[0]])
}

/// Big-endian bytes of a `u32` (`u32::to_be_bytes`).
pub fn u32_to_be_bytes(x: u32) -> (b: Vec<u8>)
    ensures
        b@ == be32(x),
{
    vec![
        (x / 0x1000000) as u8,
        (x / 0x10000 % 0x100) as u8,
        (x / 0x100 % 0x100) as u8,
        (x % 0x100) as u8,
    ]
}

/// Big-endian bytes of a `u64` (`u64::to_be_bytes`).
pub fn u64_to_be_bytes(x: u64) -> (b: Vec<u8>)
    ensures
        b@ == be64(x),
{
    vec![
        (x / 0x100000000000000) as u8,
        (x / 0x1000000000000 % 0x100) as u8,
        (x / 0x10000000000 % 0x100) as u8,
        (x / 0x100000000 % 0x100) as u8,
        (x / 0x1000000 % 0x100) as u8,
        (x / 0x10000 % 0x100) as u8,
        (x / 0x100 % 0x100) as u8,
        (x % 0x100) as u8,
    ]
}

/// Little-endian bytes of a `u32` (`u32::to_le_bytes`).
pub fn u32_to_le_bytes(x: u32) -> (b: Vec<u8>)
    ensures
        b@ == le32(x),
{
    vec![
        (x % 0x100) as u8,
        (x / 0x100 % 0x100) as u8,
        (x / 0x10000 % 0x100) as u8,
        (x / 0x1000000) as u8,
    ]
}

/// Little-endian bytes of a `u64` (`u64::to_le_bytes`).
pub fn u64_to_le_bytes(x: u64) -> (b: Vec<u8>)
    ensures
        b@ == le64(x),
{
    vec![
        (x % 0x100) as u8,
        (x / 0x100 % 0x100) as u8,
        (x / 0x10000 % 0x100) as u8,
        (x / 0x1000000 % 0x100) as u8,
        (x / 0x100000000 % 0x100) as u8,
        (x / 0x10000000000 % 0x100) as u8,
        (x / 0x1000000000000 % 0x100) as u8,
        (x / 0x100000000000000) as u8,
    ]
}

/// The `u32` read big-endian from `s[start..start + 4]` (`u32::from_be_bytes`).
pub fn u32_from_be_at(s: &[u8], start: usize) -> (x: u32)
    requires
        start + 4 <= s@.len(),
    ensures
        x == from_be32(s@.subrange(start as int, start + 4)),
{
    let x: u32 = s[start] as u32 * 0x1000000 + s[start + 1] as u32 * 0x10000 + s[start + 2] as u32
        * 0x100 + s[start + 3] as u32;
    x
}

/// The `u64` read big-endian from `s[start..start + 8]` (`u64::from_be_bytes`).
pub fn u64_from_be_at(s: &[u8], start: usize) -> (x: u64)
    requires
        start + 8 <= s@.len(),
    ensures
        x == from_be64(s@.subrange(start as int, start + 8)),
{
    let x: u64 = s[start] as u64 * 0x100000000000000 + s[start + 1] as u64 * 0x1000000000000
        + s[start + 2] as u64 * 0x10000000000 + s[start + 3] as u64 * 0x100000000 + s[start + 4] as u64
        * 0x1000000 + s[start + 5] as u64 * 0x10000 + s[start + 6] as u64 * 0x100 + s[start + 7] as u64;
    x
}

/// The `u32` read little-endian from `s[start..start + 4]` (`u32::from_le_bytes`).
pub fn u32_from_le_at(s: &[u8], start: usize) -> (x: u32)
    requires
        start + 4 <= s@.len(),
    ensures
        x == from_le32(s@.subrange(start as int, start + 4)),
{
    let b0 = s[start] as u32;
    let b1 = s[start + 1] as u32;
    let b2 = s[start + 2] as u32;
    let b3 = s[start + 3] as u32;
    let x: u32 = b3 * 0x1000000 + b2 * 0x10000 + b1 * 0x100 + b0;
    x
}

/// The `u64` read little-endian from `s[start..start + 8]` (`u64::from_le_bytes`).
pub fn u64_from_le_at(s: &[u8], start: usize) -> (x: u64)
    requires
        start + 8 <= s@.len(),
    ensures
        x == from_le64(s@.subrange(start as int, start + 8)),
{
    let b0 = s[start] as u64;
    let b1 = s[start + 1] as u64;
    let b2 = s[start + 2] as u64;
    let b3 = s[start + 3] as u64;
    let b4 = s[start + 4] as u64;
    let b5 = s[start + 5] as u64;
    let b6 = s[start + 6] as u64;
    let b7 = s[start + 7] as u64;
    let x: u64 = b7 * 0x100000000000000 + b6 * 0x1000000000000 + b5 * 0x10000000000 + b4
        * 0x100000000 + b3 * 0x1000000 + b2 * 0x10000 + b1 * 0x100 + b0;
    x
}

/// Reading back the little-endian bytes of a `u32` gives the value.
pub proof fn lemma_le32_roundtrip(x: u32)
    ensures
        le32(x).len() == 4,
        from_le32(le32(x)) == x,
{
    let s = le32(x);
    assert(s[0] as int == x % 0x100);
    assert(s[1] as int == x / 0x100 % 0x100);
    assert(s[2] as int == x / 0x10000 % 0x100);
    assert(s[3] as int == x / 0x1000000);
    assert(x / 0x1000000 * 0x1000000 + (x / 0x10000 % 0x100) * 0x10000 + (x / 0x100 % 0x100) * 0x100
        + x % 0x100 == x) by (nonlinear_arith);
}

/// Reading back the little-endian bytes of a `u64` gives the value.
pub proof fn lemma_le64_roundtrip(x: u64)
    ensures
        le64(x).len() == 8,
        from_le64(le64(x)) == x,
{
    let s = le64(x);
    assert(x / 0x100000000000000 * 0x100000000000000 + (x / 0x1000000000000 % 0x100)
        * 0x1000000000000 + (x / 0x10000000000 % 0x100) * 0x10000000000 + (x / 0x100000000 % 0x100)
        * 0x100000000 + (x / 0x1000000 % 0x100) * 0x1000000 + (x / 0x10000 % 0x100) * 0x10000 + (x
        / 0x100 % 0x100) * 0x100 + x % 0x100 == x) by (bit_vector);
}


/// Writing back the value read little-endian from 4 bytes gives the bytes.
pub proof fn lemma_le32_of_bytes(s: Seq<u8>)
    requires
        s.len() == 4,
    ensures
        le32(from_le32(s)) == s,
{
    let b0 = s[0];
    let b1 = s[1];
    let b2 = s[2];
    let b3 = s[3];
    let x = from_le32(s);
    assert(x == (b3 as u32) * 0x1000000 + (b2 as u32) * 0x10000 + (b1 as u32) * 0x100 + (b0 as u32));
    assert((x % 0x100) as u8 == b0 && (x / 0x100 % 0x100) as u8 == b1 && (x / 0x10000 % 0x100) as u8 == b2
        && (x / 0x1000000) as u8 == b3) by (bit_vector)
        requires
            x == (b3 as u32) * 0x1000000 + (b2 as u32) * 0x10000 + (b1 as u32) * 0x100 + (b0 as u32),
    ;
    assert(le32(x) =~= s);
}

/// Writing back the value read little-endian from 8 bytes gives the bytes.
pub proof fn lemma_le64_of_bytes(s: Seq<u8>)
    requires
        s.len() == 8,
    ensures
        le64(from_le64(s)) == s,
{
    let b0 = s[0];
    let b1 = s[1];
    let b2 = s[2];
    let b3 = s[3];
    let b4 = s[4];
    let b5 = s[5];
    let b6 = s[6];
    let b7 = s[7];
    let x = from_le64(s);
    assert(x == (b7 as u64) * 0x100000000000000 + (b6 as u64) * 0x1000000000000 + (b5 as u64)
        * 0x10000000000 + (b4 as u64) * 0x100000000 + (b3 as u64) * 0x1000000 + (b2 as u64) * 0x10000
        + (b1 as u64) * 0x100 + (b0 as u64));
    assert((x % 0x100) as u8 == b0 && (x / 0x100 % 0x100) as u8 == b1 && (x / 0x10000 % 0x100) as u8 == b2
        && (x / 0x1000000 % 0x100) as u8 == b3 && (x / 0x100000000 % 0x100) as u8 == b4 && (x
        / 0x10000000000 % 0x100) as u8 == b5 && (x / 0x1000000000000 % 0x100) as u8 == b6 && (x
        / 0x100000000000000) as u8 == b7) by (bit_vector)
        requires
            x == (b7 as u64) * 0x100000000000000 + (b6 as u64) * 0x1000000000000 + (b5 as u64)
                * 0x10000000000 + (b4 as u64) * 0x100000000 + (b3 as u64) * 0x1000000 + (b2 as u64)
                * 0x10000 + (b1 as u64) * 0x100 + (b0 as u64),
    ;
    assert(le64(x) =~= s);
}

} // verus!
