//! Big-endian integers: what their bytes mean, and the reading and writing of
//! them, which the `byteordered` crate does.
//!
//! Every numeric field of every format of this crate is big-endian.

use byteordered::ByteOrdered;
use vstd::prelude::*;

verus! {

/// The unsigned number that two bytes spell, the first byte weighing most.
pub open spec fn be_u16(b0: u8, b1: u8) -> int {
    b0 as int * 0x100 + b1 as int
}

/// The unsigned number that four bytes spell, the first byte weighing most.
pub open spec fn be_u32(b0: u8, b1: u8, b2: u8, b3: u8) -> int {
    b0 as int * 0x100_0000 + b1 as int * 0x1_0000 + b2 as int * 0x100 + b3 as int
}

/// Two's complement reading of a 16-bit pattern.
pub open spec fn signed16(u: int) -> int {
    if u >= 0x8000 {
        u - 0x1_0000
    } else {
        u
    }
}

/// Two's complement reading of a 32-bit pattern.
pub open spec fn signed32(u: int) -> int {
    if u >= 0x8000_0000 {
        u - 0x1_0000_0000
    } else {
        u
    }
}

/// The 32-bit pattern of a signed number.
pub open spec fn unsigned32(v: int) -> int {
    if v < 0 {
        v + 0x1_0000_0000
    } else {
        v
    }
}

/// The big-endian `u32` whose first byte is `bytes[pos]`.
pub open spec fn u32_at(bytes: Seq<u8>, pos: int) -> int
    recommends
        0 <= pos,
        pos + 4 <= bytes.len(),
{
    be_u32(bytes[pos], bytes[pos + 1], bytes[pos + 2], bytes[pos + 3])
}

/// The big-endian `i32` whose first byte is `bytes[pos]`.
pub open spec fn i32_at(bytes: Seq<u8>, pos: int) -> int
    recommends
        0 <= pos,
        pos + 4 <= bytes.len(),
{
    signed32(u32_at(bytes, pos))
}

/// The big-endian `i16` whose first byte is `bytes[pos]`.
pub open spec fn i16_at(bytes: Seq<u8>, pos: int) -> int
    recommends
        0 <= pos,
        pos + 2 <= bytes.len(),
{
    signed16(be_u16(bytes[pos], bytes[pos + 1]))
}

/// The four bytes of a 32-bit pattern, the weightiest first.
pub open spec fn be_bytes_u32(u: int) -> Seq<u8>
    recommends
        0 <= u < 0x1_0000_0000,
{
    seq![
        (u / 0x100_0000) as u8,
        ((u / 0x1_0000) % 0x100) as u8,
        ((u / 0x100) % 0x100) as u8,
        (u % 0x100) as u8,
    ]
}

/// The four bytes of a signed 32-bit number, the weightiest first.
pub open spec fn be_bytes_i32(v: int) -> Seq<u8>
    recommends
        -0x8000_0000 <= v < 0x8000_0000,
{
    be_bytes_u32(unsigned32(v))
}

/// The bytes of a sequence of 32-bit patterns, four for each.
pub open spec fn be_bytes_u32s(values: Seq<u32>) -> Seq<u8> {
    Seq::new(4 * values.len(), |k: int| be_bytes_u32(values[k / 4] as int)[k % 4])
}

/// The bytes of a sequence of signed 32-bit numbers, four for each.
pub open spec fn be_bytes_i32s(values: Seq<i32>) -> Seq<u8> {
    Seq::new(4 * values.len(), |k: int| be_bytes_i32(values[k / 4] as int)[k % 4])
}

/// Four bytes written for a 32-bit pattern spell that pattern again, wherever
/// in a sequence they stand.
pub proof fn lemma_u32_bytes_round_trip(u: int, bytes: Seq<u8>, pos: int)
    requires
        0 <= u < 0x1_0000_0000,
        0 <= pos,
        pos + 4 <= bytes.len(),
        bytes.subrange(pos, pos + 4) == be_bytes_u32(u),
    ensures
        u32_at(bytes, pos) == u,
{
    let w = be_bytes_u32(u);
    assert(bytes[pos] == w[0]);
    assert(bytes[pos + 1] == w[1]);
    assert(bytes[pos + 2] == w[2]);
    assert(bytes[pos + 3] == w[3]);
    assert(0 <= u / 0x100_0000 < 0x100);
    assert(u == (u / 0x100_0000) * 0x100_0000 + ((u / 0x1_0000) % 0x100) * 0x1_0000 + ((u
        / 0x100) % 0x100) * 0x100 + u % 0x100);
}

/// Four bytes written for a signed number spell that number again.
pub proof fn lemma_i32_bytes_round_trip(v: int, bytes: Seq<u8>, pos: int)
    requires
        -0x8000_0000 <= v < 0x8000_0000,
        0 <= pos,
        pos + 4 <= bytes.len(),
        bytes.subrange(pos, pos + 4) == be_bytes_i32(v),
    ensures
        i32_at(bytes, pos) == v,
{
    lemma_u32_bytes_round_trip(unsigned32(v), bytes, pos);
}

/// `ByteOrdered::read_u8` on a big-endian reader over `src`: the first byte,
/// and an error if and only if `src` is empty.
#[verifier::external_body]
pub(crate) fn take_u8(src: &[u8]) -> (r: Result<u8, std::io::Error>)
    ensures
        r is Ok <==> src@.len() >= 1,
        r is Ok ==> r->Ok_0 == src@[0],
{
    ByteOrdered::be(src).read_u8()
}

/// `ByteOrdered::read_i16` on a big-endian reader over `src`: the signed
/// number that the first two bytes spell, and an error if and only if `src`
/// holds fewer than two bytes.
#[verifier::external_body]
pub(crate) fn take_i16(src: &[u8]) -> (r: Result<i16, std::io::Error>)
    ensures
        r is Ok <==> src@.len() >= 2,
        r is Ok ==> r->Ok_0 as int == i16_at(src@, 0),
{
    ByteOrdered::be(src).read_i16()
}

/// `ByteOrdered::read_i32` on a big-endian reader over `src`: the signed
/// number that the first four bytes spell, and an error if and only if `src`
/// holds fewer than four bytes.
#[verifier::external_body]
pub(crate) fn take_i32(src: &[u8]) -> (r: Result<i32, std::io::Error>)
    ensures
        r is Ok <==> src@.len() >= 4,
        r is Ok ==> r->Ok_0 as int == i32_at(src@, 0),
{
    ByteOrdered::be(src).read_i32()
}

/// `ByteOrdered::read_u32` on a big-endian reader over `src`: the unsigned
/// number that the first four bytes spell, and an error if and only if `src`
/// holds fewer than four bytes.
#[verifier::external_body]
pub(crate) fn take_u32(src: &[u8]) -> (r: Result<u32, std::io::Error>)
    ensures
        r is Ok <==> src@.len() >= 4,
        r is Ok ==> r->Ok_0 as int == u32_at(src@, 0),
{
    ByteOrdered::be(src).read_u32()
}

/// `ByteOrdered::write_u8` on a writer over `out`: appends the byte. Writing
/// to a `Vec<u8>` does not fail.
#[verifier::external_body]
pub(crate) fn put_u8(out: &mut Vec<u8>, x: u8) -> (r: Result<(), std::io::Error>)
    ensures
        r is Ok,
        final(out)@ == old(out)@.push(x),
{
    ByteOrdered::be(out).write_u8(x)
}

/// `ByteOrdered::write_i32` on a big-endian writer over `out`: appends the
/// four bytes of `x`, the weightiest first. Writing to a `Vec<u8>` does not
/// fail.
#[verifier::external_body]
pub(crate) fn put_i32(out: &mut Vec<u8>, x: i32) -> (r: Result<(), std::io::Error>)
    ensures
        r is Ok,
        final(out)@ == old(out)@ + be_bytes_i32(x as int),
{
    ByteOrdered::be(out).write_i32(x)
}

/// `ByteOrdered::write_u32` on a big-endian writer over `out`: appends the
/// four bytes of `x`, the weightiest first. Writing to a `Vec<u8>` does not
/// fail.
#[verifier::external_body]
pub(crate) fn put_u32(out: &mut Vec<u8>, x: u32) -> (r: Result<(), std::io::Error>)
    ensures
        r is Ok,
        final(out)@ == old(out)@ + be_bytes_u32(x as int),
{
    ByteOrdered::be(out).write_u32(x)
}

/// Appends the bytes of each of `values`, in order.
pub fn put_u32s(out: &mut Vec<u8>, values: &Vec<u32>)
    ensures
        final(out)@ == old(out)@ + be_bytes_u32s(values@),
{
    let ghost head = out@;
    let mut i: usize = 0;
    assert(out@ =~= head + be_bytes_u32s(values@.take(0)));
    while i < values.len()
        invariant
            i <= values.len(),
            out@ == head + be_bytes_u32s(values@.take(i as int)),
        decreases values.len() - i,
    {
        let _ = put_u32(out, values[i]);
        assert(out@ =~= head + be_bytes_u32s(values@.take(i + 1))) by {
            let grown = be_bytes_u32s(values@.take(i + 1));
            let before = be_bytes_u32s(values@.take(i as int));
            assert(grown.len() == before.len() + 4);
            assert forall|k: int| 0 <= k < grown.len() implies grown[k] == (before + be_bytes_u32(
                values@[i as int] as int,
            ))[k] by {
                if k < 4 * i {
                    assert(k / 4 < i);
                } else {
                    assert(k / 4 == i);
                    assert(k % 4 == k - 4 * i);
                }
            }
            assert(grown =~= before + be_bytes_u32(values@[i as int] as int));
        }
        i = i + 1;
    }
    assert(values@.take(values@.len() as int) =~= values@);
}

/// Appends the bytes of each of `values`, in order.
pub fn put_i32s(out: &mut Vec<u8>, values: &Vec<i32>)
    ensures
        final(out)@ == old(out)@ + be_bytes_i32s(values@),
{
    let ghost head = out@;
    let mut i: usize = 0;
    assert(out@ =~= head + be_bytes_i32s(values@.take(0)));
    while i < values.len()
        invariant
            i <= values.len(),
            out@ == head + be_bytes_i32s(values@.take(i as int)),
        decreases values.len() - i,
    {
        let _ = put_i32(out, values[i]);
        assert(out@ =~= head + be_bytes_i32s(values@.take(i + 1))) by {
            let grown = be_bytes_i32s(values@.take(i + 1));
            let before = be_bytes_i32s(values@.take(i as int));
            assert(grown.len() == before.len() + 4);
            assert forall|k: int| 0 <= k < grown.len() implies grown[k] == (before + be_bytes_i32(
                values@[i as int] as int,
            ))[k] by {
                if k < 4 * i {
                    assert(k / 4 < i);
                } else {
                    assert(k / 4 == i);
                    assert(k % 4 == k - 4 * i);
                }
            }
            assert(grown =~= before + be_bytes_i32(values@[i as int] as int));
        }
        i = i + 1;
    }
    assert(values@.take(values@.len() as int) =~= values@);
}

} // verus!
