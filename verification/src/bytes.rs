//! Little-endian byte codecs for the guest ABI: every multi-byte integer that
//! crosses the guest/host boundary is little-endian.

use vstd::prelude::*;

verus! {

/// The `i32` whose little-endian bytes are `b0, b1, b2, b3`.
pub open spec fn spec_i32_of_le(b0: u8, b1: u8, b2: u8, b3: u8) -> i32 {
    ((b0 as u32) | ((b1 as u32) << 8) | ((b2 as u32) << 16) | ((b3 as u32) << 24)) as i32
}

/// The `i64` whose little-endian bytes are `b0 .. b7`.
pub open spec fn spec_i64_of_le(
    b0: u8,
    b1: u8,
    b2: u8,
    b3: u8,
    b4: u8,
    b5: u8,
    b6: u8,
    b7: u8,
) -> i64 {
    ((b0 as u64) | ((b1 as u64) << 8) | ((b2 as u64) << 16) | ((b3 as u64) << 24) | ((b4 as u64)
        << 32) | ((b5 as u64) << 40) | ((b6 as u64) << 48) | ((b7 as u64) << 56)) as i64
}

/// The little-endian bytes of an `i32`, lowest byte first.
pub open spec fn spec_i32_le_bytes(x: i32) -> Seq<u8> {
    seq![
        (x & 0xff) as u8,
        ((x >> 8) & 0xff) as u8,
        ((x >> 16) & 0xff) as u8,
        ((x >> 24) & 0xff) as u8,
    ]
}

/// The little-endian bytes of a `u32`, lowest byte first.
pub open spec fn spec_u32_le_bytes(x: u32) -> Seq<u8> {
    seq![
        (x & 0xff) as u8,
        ((x >> 8) & 0xff) as u8,
        ((x >> 16) & 0xff) as u8,
        ((x >> 24) & 0xff) as u8,
    ]
}

/// The little-endian bytes of an `i64`, lowest byte first.
pub open spec fn spec_i64_le_bytes(x: i64) -> Seq<u8> {
    seq![
        (x & 0xff) as u8,
        ((x >> 8) & 0xff) as u8,
        ((x >> 16) & 0xff) as u8,
        ((x >> 24) & 0xff) as u8,
        ((x >> 32) & 0xff) as u8,
        ((x >> 40) & 0xff) as u8,
        ((x >> 48) & 0xff) as u8,
        ((x >> 56) & 0xff) as u8,
    ]
}

/// The `u64` whose little-endian bytes are `b0 .. b7`.
pub open spec fn spec_u64_of_le(
    b0: u8,
    b1: u8,
    b2: u8,
    b3: u8,
    b4: u8,
    b5: u8,
    b6: u8,
    b7: u8,
) -> u64 {
    (b0 as u64) | ((b1 as u64) << 8) | ((b2 as u64) << 16) | ((b3 as u64) << 24) | ((b4 as u64)
        << 32) | ((b5 as u64) << 40) | ((b6 as u64) << 48) | ((b7 as u64) << 56)
}

/// The little-endian bytes of a `u64`, lowest byte first.
pub open spec fn spec_u64_le_bytes(x: u64) -> Seq<u8> {
    seq![
        (x & 0xff) as u8,
        ((x >> 8) & 0xff) as u8,
        ((x >> 16) & 0xff) as u8,
        ((x >> 24) & 0xff) as u8,
        ((x >> 32) & 0xff) as u8,
        ((x >> 40) & 0xff) as u8,
        ((x >> 48) & 0xff) as u8,
        ((x >> 56) & 0xff) as u8,
    ]
}

/// The little-endian bytes of a `u16`, lowest byte first.
pub open spec fn spec_u16_le_bytes(x: u16) -> Seq<u8> {
    seq![(x & 0xff) as u8, ((x >> 8) & 0xff) as u8]
}

/// Reads the `i32` stored little-endian in the first four bytes of `array`.
pub fn as_i32_le(array: &[u8]) -> (r: i32)
    requires
        array@.len() >= 4,
    ensures
        r == spec_i32_of_le(array@[0], array@[1], array@[2], array@[3]),
{
    let r = (array[0] as i32) | ((array[1] as i32) << 8) | ((array[2] as i32) << 16) | ((array[3]
        as i32) << 24);
    proof {
        let (b0, b1, b2, b3) = (array@[0], array@[1], array@[2], array@[3]);
        assert((b0 as i32) | ((b1 as i32) << 8) | ((b2 as i32) << 16) | ((b3 as i32) << 24)
            == ((b0 as u32) | ((b1 as u32) << 8) | ((b2 as u32) << 16) | ((b3 as u32) << 24))
            as i32) by (bit_vector);
    }
    r
}

/// Reads the `u32` stored little-endian in the first four bytes of `array`.
pub fn as_u32_le(array: &[u8]) -> (r: u32)
    requires
        array@.len() >= 4,
    ensures
        r == (spec_i32_of_le(array@[0], array@[1], array@[2], array@[3]) as u32),
{
    let r = (array[0] as u32) | ((array[1] as u32) << 8) | ((array[2] as u32) << 16) | ((array[3]
        as u32) << 24);
    proof {
        let (b0, b1, b2, b3) = (array@[0], array@[1], array@[2], array@[3]);
        assert((b0 as u32) | ((b1 as u32) << 8) | ((b2 as u32) << 16) | ((b3 as u32) << 24)
            == (((b0 as u32) | ((b1 as u32) << 8) | ((b2 as u32) << 16) | ((b3 as u32) << 24))
            as i32) as u32) by (bit_vector);
    }
    r
}

/// Reads the `i64` stored little-endian in the first eight bytes of `array`.
pub fn as_i64_le(array: &[u8]) -> (r: i64)
    requires
        array@.len() >= 8,
    ensures
        r == spec_i64_of_le(
            array@[0],
            array@[1],
            array@[2],
            array@[3],
            array@[4],
            array@[5],
            array@[6],
            array@[7],
        ),
{
    let r = (array[0] as i64) | ((array[1] as i64) << 8) | ((array[2] as i64) << 16) | ((array[3]
        as i64) << 24) | ((array[4] as i64) << 32) | ((array[5] as i64) << 40) | ((array[6] as i64)
        << 48) | ((array[7] as i64) << 56);
    proof {
        let (b0, b1, b2, b3) = (array@[0], array@[1], array@[2], array@[3]);
        let (b4, b5, b6, b7) = (array@[4], array@[5], array@[6], array@[7]);
        assert((b0 as i64) | ((b1 as i64) << 8) | ((b2 as i64) << 16) | ((b3 as i64) << 24) | ((b4
            as i64) << 32) | ((b5 as i64) << 40) | ((b6 as i64) << 48) | ((b7 as i64) << 56) == ((
        b0 as u64) | ((b1 as u64) << 8) | ((b2 as u64) << 16) | ((b3 as u64) << 24) | ((b4 as u64)
            << 32) | ((b5 as u64) << 40) | ((b6 as u64) << 48) | ((b7 as u64) << 56)) as i64)
            by (bit_vector);
    }
    r
}

/// Writes an `i64` as its eight little-endian bytes.
pub fn i64_as_u8_le(x: i64) -> (r: [u8; 8])
    ensures
        r@ == spec_i64_le_bytes(x),
{
    let r = [
        (x & 0xff) as u8,
        ((x >> 8) & 0xff) as u8,
        ((x >> 16) & 0xff) as u8,
        ((x >> 24) & 0xff) as u8,
        ((x >> 32) & 0xff) as u8,
        ((x >> 40) & 0xff) as u8,
        ((x >> 48) & 0xff) as u8,
        ((x >> 56) & 0xff) as u8,
    ];
    proof {
        assert(r@ =~= spec_i64_le_bytes(x));
    }
    r
}

/// Writes a `u64` as its eight little-endian bytes.
pub fn u64_as_u8_le(x: u64) -> (r: [u8; 8])
    ensures
        r@ == spec_u64_le_bytes(x),
{
    let r = [
        (x & 0xff) as u8,
        ((x >> 8) & 0xff) as u8,
        ((x >> 16) & 0xff) as u8,
        ((x >> 24) & 0xff) as u8,
        ((x >> 32) & 0xff) as u8,
        ((x >> 40) & 0xff) as u8,
        ((x >> 48) & 0xff) as u8,
        ((x >> 56) & 0xff) as u8,
    ];
    proof {
        assert(r@ =~= spec_u64_le_bytes(x));
    }
    r
}

/// Writes an `i32` as its four little-endian bytes.
pub fn i32_as_u8_le(x: i32) -> (r: [u8; 4])
    ensures
        r@ == spec_i32_le_bytes(x),
{
    let r = [(x & 0xff) as u8, ((x >> 8) & 0xff) as u8, ((x >> 16) & 0xff) as u8, ((x >> 24)
        & 0xff) as u8];
    proof {
        assert(r@ =~= spec_i32_le_bytes(x));
    }
    r
}

/// Writes a `u32` as its four little-endian bytes.
pub fn u32_as_u8_le(x: u32) -> (r: [u8; 4])
    ensures
        r@ == spec_u32_le_bytes(x),
{
    let r = [(x & 0xff) as u8, ((x >> 8) & 0xff) as u8, ((x >> 16) & 0xff) as u8, ((x >> 24)
        & 0xff) as u8];
    proof {
        assert(r@ =~= spec_u32_le_bytes(x));
    }
    r
}

/// Writes a `u16` as its two little-endian bytes.
pub fn u16_as_u8_le(x: u16) -> (r: [u8; 2])
    ensures
        r@ == spec_u16_le_bytes(x),
{
    let r = [(x & 0xff) as u8, ((x >> 8) & 0xff) as u8];
    proof {
        assert(r@ =~= spec_u16_le_bytes(x));
    }
    r
}

/// Encoding an `i32` little-endian and reading it back yields the value.
pub proof fn lemma_i32_le_roundtrip(x: i32)
    ensures
        spec_i32_of_le(
            spec_i32_le_bytes(x)[0],
            spec_i32_le_bytes(x)[1],
            spec_i32_le_bytes(x)[2],
            spec_i32_le_bytes(x)[3],
        ) == x,
{
    assert(((((x & 0xff) as u8) as u32) | ((((x >> 8) & 0xff) as u8) as u32) << 8 | ((((x >> 16)
        & 0xff) as u8) as u32) << 16 | ((((x >> 24) & 0xff) as u8) as u32) << 24) as i32 == x)
        by (bit_vector);
}

/// Encoding an `i64` little-endian and reading it back yields the value.
pub proof fn lemma_i64_le_roundtrip(x: i64)
    ensures
        spec_i64_of_le(
            spec_i64_le_bytes(x)[0],
            spec_i64_le_bytes(x)[1],
            spec_i64_le_bytes(x)[2],
            spec_i64_le_bytes(x)[3],
            spec_i64_le_bytes(x)[4],
            spec_i64_le_bytes(x)[5],
            spec_i64_le_bytes(x)[6],
            spec_i64_le_bytes(x)[7],
        ) == x,
{
    assert(((((x & 0xff) as u8) as u64) | ((((x >> 8) & 0xff) as u8) as u64) << 8 | ((((x >> 16)
        & 0xff) as u8) as u64) << 16 | ((((x >> 24) & 0xff) as u8) as u64) << 24 | ((((x >> 32)
        & 0xff) as u8) as u64) << 32 | ((((x >> 40) & 0xff) as u8) as u64) << 40 | ((((x >> 48)
        & 0xff) as u8) as u64) << 48 | ((((x >> 56) & 0xff) as u8) as u64) << 56) as i64 == x)
        by (bit_vector);
}

/// Encoding a `u64` little-endian and reading it back yields the value.
pub proof fn lemma_u64_le_roundtrip(x: u64)
    ensures
        spec_u64_of_le(
            spec_u64_le_bytes(x)[0],
            spec_u64_le_bytes(x)[1],
            spec_u64_le_bytes(x)[2],
            spec_u64_le_bytes(x)[3],
            spec_u64_le_bytes(x)[4],
            spec_u64_le_bytes(x)[5],
            spec_u64_le_bytes(x)[6],
            spec_u64_le_bytes(x)[7],
        ) == x,
{
    assert(((((x & 0xff) as u8) as u64) | ((((x >> 8) & 0xff) as u8) as u64) << 8 | ((((x >> 16)
        & 0xff) as u8) as u64) << 16 | ((((x >> 24) & 0xff) as u8) as u64) << 24 | ((((x >> 32)
        & 0xff) as u8) as u64) << 32 | ((((x >> 40) & 0xff) as u8) as u64) << 40 | ((((x >> 48)
        & 0xff) as u8) as u64) << 48 | ((((x >> 56) & 0xff) as u8) as u64) << 56) == x)
        by (bit_vector);
}

/// The signed and unsigned readings of eight little-endian bytes are the
/// same bit pattern.
pub proof fn lemma_i64_u64_of_le(b0: u8, b1: u8, b2: u8, b3: u8, b4: u8, b5: u8, b6: u8, b7: u8)
    ensures
        spec_i64_of_le(b0, b1, b2, b3, b4, b5, b6, b7) as u64 == spec_u64_of_le(
            b0,
            b1,
            b2,
            b3,
            b4,
            b5,
            b6,
            b7,
        ),
{
    let x = (b0 as u64) | ((b1 as u64) << 8) | ((b2 as u64) << 16) | ((b3 as u64) << 24) | ((b4
        as u64) << 32) | ((b5 as u64) << 40) | ((b6 as u64) << 48) | ((b7 as u64) << 56);
    assert((x as i64) as u64 == x) by (bit_vector);
}

} // verus!
