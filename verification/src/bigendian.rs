//! Big-endian integers as byte sequences, and reading them from a slice.

use byteorder::{BigEndian, ReadBytesExt};
use vstd::prelude::*;

verus! {

/// The two bytes of `n`, most significant first.
pub open spec fn be16_bytes(n: u16) -> Seq<u8> {
    seq![(n / 0x100) as u8, (n % 0x100) as u8]
}

/// The four bytes of `n`, most significant first.
pub open spec fn be32_bytes(n: u32) -> Seq<u8> {
    seq![
        (n / 0x100_0000) as u8,
        (n / 0x1_0000 % 0x100) as u8,
        (n / 0x100 % 0x100) as u8,
        (n % 0x100) as u8,
    ]
}

/// The eight bytes of `n`, most significant first.
pub open spec fn be64_bytes(n: u64) -> Seq<u8> {
    seq![
        (n / 0x100_0000_0000_0000) as u8,
        (n / 0x1_0000_0000_0000 % 0x100) as u8,
        (n / 0x100_0000_0000 % 0x100) as u8,
        (n / 0x1_0000_0000 % 0x100) as u8,
        (n / 0x100_0000 % 0x100) as u8,
        (n / 0x1_0000 % 0x100) as u8,
        (n / 0x100 % 0x100) as u8,
        (n % 0x100) as u8,
    ]
}

/// The number whose big-endian bytes are the first two of `s`.
pub open spec fn be16(s: Seq<u8>) -> u16
    recommends
        s.len() >= 2,
{
    (s[0] as int * 0x100 + s[1] as int) as u16
}

/// The number whose big-endian bytes are the first four of `s`.
pub open spec fn be32(s: Seq<u8>) -> u32
    recommends
        s.len() >= 4,
{
    (s[0] as int * 0x100_0000 + s[1] as int * 0x1_0000 + s[2] as int * 0x100 + s[3] as int) as u32
}

/// The number whose big-endian bytes are the first eight of `s`.
pub open spec fn be64(s: Seq<u8>) -> u64
    recommends
        s.len() >= 8,
{
    (s[0] as int * 0x100_0000_0000_0000 + s[1] as int * 0x1_0000_0000_0000 + s[2] as int
        * 0x100_0000_0000 + s[3] as int * 0x1_0000_0000 + s[4] as int * 0x100_0000 + s[5] as int
        * 0x1_0000 + s[6] as int * 0x100 + s[7] as int) as u64
}

/// Reading back the bytes written for a 16-bit number gives the number,
/// whatever follows them.
pub proof fn lemma_be16_roundtrip(n: u16, rest: Seq<u8>)
    ensures
        be16_bytes(n).len() == 2,
        be16(be16_bytes(n) + rest) == n,
{
}

/// Reading back the bytes written for a 32-bit number gives the number,
/// whatever follows them.
pub proof fn lemma_be32_roundtrip(n: u32, rest: Seq<u8>)
    ensures
        be32_bytes(n).len() == 4,
        be32(be32_bytes(n) + rest) == n,
{
}

/// Reading back the bytes written for a 64-bit number gives the number,
/// whatever follows them.
pub proof fn lemma_be64_roundtrip(n: u64, rest: Seq<u8>)
    ensures
        be64_bytes(n).len() == 8,
        be64(be64_bytes(n) + rest) == n,
{
    let q1 = n as int / 0x100;
    let q2 = q1 / 0x100;
    let q3 = q2 / 0x100;
    let q4 = q3 / 0x100;
    let q5 = q4 / 0x100;
    let q6 = q5 / 0x100;
    let q7 = q6 / 0x100;
    assert(q2 == n as int / 0x1_0000);
    assert(q3 == n as int / 0x100_0000);
    assert(q4 == n as int / 0x1_0000_0000);
    assert(q5 == n as int / 0x100_0000_0000);
    assert(q6 == n as int / 0x1_0000_0000_0000);
    assert(q7 == n as int / 0x100_0000_0000_0000);
    assert(q7 < 0x100);
    let s = be64_bytes(n) + rest;
    assert(s[0] == q7);
    assert(s[1] == q6 % 0x100);
    assert(s[2] == q5 % 0x100);
    assert(s[3] == q4 % 0x100);
    assert(s[4] == q3 % 0x100);
    assert(s[5] == q2 % 0x100);
    assert(s[6] == q1 % 0x100);
    assert(s[7] == n as int % 0x100);
}

/// `std::io::Error`, taken as it is: a failed read is told from a good one
/// and nothing more is read out of it.
#[verifier::external_type_specification]
#[verifier::external_body]
pub struct ExIoError(std::io::Error);

/// `byteorder::ReadBytesExt::read_u16::<BigEndian>` with a byte slice as the
/// reader: two bytes are taken from the front and read most significant
/// first; with fewer than two bytes the read fails.
#[verifier::external_body]
pub(crate) fn read_u16_be(src: &[u8]) -> (r: Result<u16, std::io::Error>)
    ensures
        r.is_ok() <==> src@.len() >= 2,
        r matches Ok(n) ==> n == be16(src@),
{
    let mut rd: &[u8] = src;
    rd.read_u16::<BigEndian>()
}

/// `byteorder::ReadBytesExt::read_u32::<BigEndian>` with a byte slice as the
/// reader: four bytes are taken from the front and read most significant
/// first; with fewer than four bytes the read fails.
#[verifier::external_body]
pub(crate) fn read_u32_be(src: &[u8]) -> (r: Result<u32, std::io::Error>)
    ensures
        r.is_ok() <==> src@.len() >= 4,
        r matches Ok(n) ==> n == be32(src@),
{
    let mut rd: &[u8] = src;
    rd.read_u32::<BigEndian>()
}

/// `byteorder::ReadBytesExt::read_u64::<BigEndian>` with a byte slice as the
/// reader: eight bytes are taken from the front and read most significant
/// first; with fewer than eight bytes the read fails.
#[verifier::external_body]
pub(crate) fn read_u64_be(src: &[u8]) -> (r: Result<u64, std::io::Error>)
    ensures
        r.is_ok() <==> src@.len() >= 8,
        r matches Ok(n) ==> n == be64(src@),
{
    let mut rd: &[u8] = src;
    rd.read_u64::<BigEndian>()
}

} // verus!
