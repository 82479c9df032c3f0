//! Big-endian integers, as every multi-byte field of the protocol is sent.
use byteorder::{BigEndian, ByteOrder};
use vstd::prelude::*;

verus! {

/// The two bytes of `n`, most significant first.
pub open spec fn u16_be(n: u16) -> Seq<u8> {
    seq![(n >> 8u16) as u8, n as u8]
}

/// The four bytes of `n`, most significant first.
pub open spec fn u32_be(n: u32) -> Seq<u8> {
    seq![(n >> 24u32) as u8, (n >> 16u32) as u8, (n >> 8u32) as u8, n as u8]
}

/// The eight bytes of `n`, most significant first.
pub open spec fn u64_be(n: u64) -> Seq<u8> {
    seq![
        (n >> 56u64) as u8,
        (n >> 48u64) as u8,
        (n >> 40u64) as u8,
        (n >> 32u64) as u8,
        (n >> 24u64) as u8,
        (n >> 16u64) as u8,
        (n >> 8u64) as u8,
        n as u8,
    ]
}

/// The number that the first two bytes of `s` encode.
pub open spec fn be_u16(s: Seq<u8>) -> u16 {
    ((s[0] as u16) << 8u16) | (s[1] as u16)
}

/// The number that the first four bytes of `s` encode.
pub open spec fn be_u32(s: Seq<u8>) -> u32 {
    ((s[0] as u32) << 24u32) | ((s[1] as u32) << 16u32) | ((s[2] as u32) << 8u32) | (s[3] as u32)
}

/// The number that the first eight bytes of `s` encode.
pub open spec fn be_u64(s: Seq<u8>) -> u64 {
    ((s[0] as u64) << 56u64) | ((s[1] as u64) << 48u64) | ((s[2] as u64) << 40u64) | ((s[3] as u64)
        << 32u64) | ((s[4] as u64) << 24u64) | ((s[5] as u64) << 16u64) | ((s[6] as u64) << 8u64)
        | (s[7] as u64)
}

/// Decoding the encoding of a `u16` gives it back.
pub proof fn lemma_u16_round_trip(n: u16)
    ensures
        be_u16(u16_be(n)) == n,
        u16_be(n).len() == 2,
{
    let b0 = (n >> 8u16) as u8;
    let b1 = n as u8;
    assert(((b0 as u16) << 8u16) | (b1 as u16) == n) by (bit_vector)
        requires
            b0 == (n >> 8u16) as u8,
            b1 == n as u8,
    ;
}

/// Decoding the encoding of a `u32` gives it back.
pub proof fn lemma_u32_round_trip(n: u32)
    ensures
        be_u32(u32_be(n)) == n,
        u32_be(n).len() == 4,
{
    let b0 = (n >> 24u32) as u8;
    let b1 = (n >> 16u32) as u8;
    let b2 = (n >> 8u32) as u8;
    let b3 = n as u8;
    assert(((b0 as u32) << 24u32) | ((b1 as u32) << 16u32) | ((b2 as u32) << 8u32) | (b3 as u32)
        == n) by (bit_vector)
        requires
            b0 == (n >> 24u32) as u8,
            b1 == (n >> 16u32) as u8,
            b2 == (n >> 8u32) as u8,
            b3 == n as u8,
    ;
}

/// Decoding the encoding of a `u64` gives it back.
pub proof fn lemma_u64_round_trip(n: u64)
    ensures
        be_u64(u64_be(n)) == n,
        u64_be(n).len() == 8,
{
    let b0 = (n >> 56u64) as u8;
    let b1 = (n >> 48u64) as u8;
    let b2 = (n >> 40u64) as u8;
    let b3 = (n >> 32u64) as u8;
    let b4 = (n >> 24u64) as u8;
    let b5 = (n >> 16u64) as u8;
    let b6 = (n >> 8u64) as u8;
    let b7 = n as u8;
    assert(((b0 as u64) << 56u64) | ((b1 as u64) << 48u64) | ((b2 as u64) << 40u64) | ((b3 as u64)
        << 32u64) | ((b4 as u64) << 24u64) | ((b5 as u64) << 16u64) | ((b6 as u64) << 8u64) | (b7
        as u64) == n) by (bit_vector)
        requires
            b0 == (n >> 56u64) as u8,
            b1 == (n >> 48u64) as u8,
            b2 == (n >> 40u64) as u8,
            b3 == (n >> 32u64) as u8,
            b4 == (n >> 24u64) as u8,
            b5 == (n >> 16u64) as u8,
            b6 == (n >> 8u64) as u8,
            b7 == n as u8,
    ;
}

/// Relies on byteorder's `BigEndian::read_u16`: the first two bytes of its
/// argument, most significant first.
#[verifier::external_body]
pub(crate) fn read_u16_at(b: &[u8], at: usize) -> (r: u16)
    requires
        at + 2 <= b@.len(),
    ensures
        r == be_u16(b@.subrange(at as int, at + 2)),
{
    BigEndian::read_u16(&b[at..])
}

/// Relies on byteorder's `BigEndian::read_u32`: the first four bytes of its
/// argument, most significant first.
#[verifier::external_body]
pub(crate) fn read_u32_at(b: &[u8], at: usize) -> (r: u32)
    requires
        at + 4 <= b@.len(),
    ensures
        r == be_u32(b@.subrange(at as int, at + 4)),
{
    BigEndian::read_u32(&b[at..])
}

/// Relies on byteorder's `BigEndian::read_u64`: the first eight bytes of its
/// argument, most significant first.
#[verifier::external_body]
pub(crate) fn read_u64_at(b: &[u8], at: usize) -> (r: u64)
    requires
        at + 8 <= b@.len(),
    ensures
        r == be_u64(b@.subrange(at as int, at + 8)),
{
    BigEndian::read_u64(&b[at..])
}

/// Relies on byteorder's `BigEndian::write_u16`: it fills two bytes with `n`,
/// most significant first.
#[verifier::external_body]
fn u16_bytes(n: u16) -> (r: Vec<u8>)
    ensures
        r@ == u16_be(n),
{
    let mut b = vec![0u8; 2];
    BigEndian::write_u16(&mut b, n);
    b
}

/// Relies on byteorder's `BigEndian::write_u32`: it fills four bytes with `n`,
/// most significant first.
#[verifier::external_body]
fn u32_bytes(n: u32) -> (r: Vec<u8>)
    ensures
        r@ == u32_be(n),
{
    let mut b = vec![0u8; 4];
    BigEndian::write_u32(&mut b, n);
    b
}

/// Relies on byteorder's `BigEndian::write_u64`: it fills eight bytes with
/// `n`, most significant first.
#[verifier::external_body]
fn u64_bytes(n: u64) -> (r: Vec<u8>)
    ensures
        r@ == u64_be(n),
{
    let mut b = vec![0u8; 8];
    BigEndian::write_u64(&mut b, n);
    b
}

/// Appends `n` in two bytes.
pub fn push_u16(out: &mut Vec<u8>, n: u16)
    ensures
        final(out)@ == old(out)@ + u16_be(n),
{
    let mut b = u16_bytes(n);
    out.append(&mut b);
}

/// Appends `n` in four bytes.
pub fn push_u32(out: &mut Vec<u8>, n: u32)
    ensures
        final(out)@ == old(out)@ + u32_be(n),
{
    let mut b = u32_bytes(n);
    out.append(&mut b);
}

/// Appends `n` in eight bytes.
pub fn push_u64(out: &mut Vec<u8>, n: u64)
    ensures
        final(out)@ == old(out)@ + u64_be(n),
{
    let mut b = u64_bytes(n);
    out.append(&mut b);
}

/// Appends the bytes of `data`.
pub fn push_bytes(out: &mut Vec<u8>, data: &[u8])
    ensures
        final(out)@ == old(out)@ + data@,
{
    out.extend_from_slice(data);
}


/// Whether `a` and `b` hold the same bytes.
pub fn bytes_equal(a: &[u8], b: &[u8]) -> (r: bool)
    ensures
        r == (a@ == b@),
{
    if a.len() != b.len() {
        return false;
    }
    let mut i: usize = 0;
    while i < a.len()
        invariant
            a@.len() == b@.len(),
            0 <= i <= a@.len(),
            forall|j: int| 0 <= j < i ==> a@[j] == b@[j],
        decreases a@.len() - i,
    {
        if a[i] != b[i] {
            return false;
        }
        i = i + 1;
    }
    assert(a@ =~= b@);
    true
}

/// A new vector holding the bytes of `data`.
pub fn bytes_to_vec(data: &[u8]) -> (r: Vec<u8>)
    ensures
        r@ == data@,
{
    let mut v: Vec<u8> = Vec::new();
    push_bytes(&mut v, data);
    assert(v@ =~= data@);
    v
}

} // verus!
