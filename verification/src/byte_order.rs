//! Big-endian integers: what their bytes are, and the calls that read and
//! write them.
use byteorder::{BigEndian, ByteOrder};
use vstd::prelude::*;

verus! {

/// The number that the first two bytes of `s` hold, most significant first.
pub open spec fn be_u16(s: Seq<u8>) -> int {
    s[0] * 0x100 + s[1]
}

/// The number that the first four bytes of `s` hold, most significant first.
pub open spec fn be_u32(s: Seq<u8>) -> int {
    be_u16(s) * 0x1_0000 + be_u16(s.skip(2))
}

/// The number that the first eight bytes of `s` hold, most significant first.
pub open spec fn be_u64(s: Seq<u8>) -> int {
    be_u32(s) * 0x1_0000_0000 + be_u32(s.skip(4))
}

/// The two bytes of `n`, most significant first.
pub open spec fn be_bytes_u16(n: u16) -> Seq<u8> {
    seq![(n / 0x100) as u8, (n % 0x100) as u8]
}

/// The four bytes of `n`, most significant first.
pub open spec fn be_bytes_u32(n: u32) -> Seq<u8> {
    be_bytes_u16((n / 0x1_0000) as u16) + be_bytes_u16((n % 0x1_0000) as u16)
}

/// The eight bytes of `n`, most significant first.
pub open spec fn be_bytes_u64(n: u64) -> Seq<u8> {
    be_bytes_u32((n / 0x1_0000_0000) as u32) + be_bytes_u32((n % 0x1_0000_0000) as u32)
}

/// Reading two bytes back gives the number they were written from.
pub proof fn be_u16_inverts_bytes(n: u16, rest: Seq<u8>)
    ensures
        be_u16(be_bytes_u16(n) + rest) == n,
{
}

/// Reading four bytes back gives the number they were written from.
pub proof fn be_u32_inverts_bytes(n: u32, rest: Seq<u8>)
    ensures
        be_u32(be_bytes_u32(n) + rest) == n,
{
    let high = (n / 0x1_0000) as u16;
    let low = (n % 0x1_0000) as u16;
    let s = be_bytes_u32(n) + rest;
    be_u16_inverts_bytes(high, be_bytes_u16(low) + rest);
    be_u16_inverts_bytes(low, rest);
    assert(s =~= be_bytes_u16(high) + (be_bytes_u16(low) + rest));
    assert(s.skip(2) =~= be_bytes_u16(low) + rest);
}

/// Reading eight bytes back gives the number they were written from.
pub proof fn be_u64_inverts_bytes(n: u64, rest: Seq<u8>)
    ensures
        be_u64(be_bytes_u64(n) + rest) == n,
{
    let high = (n / 0x1_0000_0000) as u32;
    let low = (n % 0x1_0000_0000) as u32;
    let s = be_bytes_u64(n) + rest;
    be_u32_inverts_bytes(high, be_bytes_u32(low) + rest);
    be_u32_inverts_bytes(low, rest);
    assert(s =~= be_bytes_u32(high) + (be_bytes_u32(low) + rest));
    assert(s.skip(4) =~= be_bytes_u32(low) + rest);
}

/// Writing back a number read from two bytes gives those bytes.
pub proof fn be_bytes_u16_inverts_read(s: Seq<u8>)
    requires
        s.len() >= 2,
    ensures
        be_bytes_u16(be_u16(s) as u16) == s.take(2),
{
    assert(be_bytes_u16(be_u16(s) as u16) =~= s.take(2));
}

/// `byteorder::BigEndian::read_u16`: the number in the first two bytes of
/// `buf`. It panics on a shorter slice.
#[verifier::external_body]
pub(crate) fn read_u16(buf: &[u8]) -> (n: u16)
    requires
        buf@.len() >= 2,
    ensures
        n == be_u16(buf@),
{
    BigEndian::read_u16(buf)
}

/// `byteorder::BigEndian::read_u32`: the number in the first four bytes of
/// `buf`. It panics on a shorter slice.
#[verifier::external_body]
pub(crate) fn read_u32(buf: &[u8]) -> (n: u32)
    requires
        buf@.len() >= 4,
    ensures
        n == be_u32(buf@),
{
    BigEndian::read_u32(buf)
}

/// `byteorder::BigEndian::read_u64`: the number in the first eight bytes of
/// `buf`. It panics on a shorter slice.
#[verifier::external_body]
pub(crate) fn read_u64(buf: &[u8]) -> (n: u64)
    requires
        buf@.len() >= 8,
    ensures
        n == be_u64(buf@),
{
    BigEndian::read_u64(buf)
}

/// `byteorder::BigEndian::write_u16`: puts the two bytes of `n` at the front
/// of `buf` and leaves the rest of it alone. It panics on a shorter slice.
#[verifier::external_body]
pub(crate) fn write_u16(buf: &mut [u8], n: u16)
    requires
        old(buf)@.len() >= 2,
    ensures
        final(buf)@ == be_bytes_u16(n) + old(buf)@.skip(2),
{
    BigEndian::write_u16(buf, n)
}

/// `byteorder::BigEndian::write_u32`: puts the four bytes of `n` at the front
/// of `buf` and leaves the rest of it alone. It panics on a shorter slice.
#[verifier::external_body]
pub(crate) fn write_u32(buf: &mut [u8], n: u32)
    requires
        old(buf)@.len() >= 4,
    ensures
        final(buf)@ == be_bytes_u32(n) + old(buf)@.skip(4),
{
    BigEndian::write_u32(buf, n)
}

/// The bytes of `n` in big-endian order.
pub fn u16_to_be_bytes(n: u16) -> (bytes: [u8; 2])
    ensures
        bytes@ == be_bytes_u16(n),
{
    let bytes: [u8; 2] = [(n / 0x100) as u8, (n % 0x100) as u8];
    assert(bytes@ =~= be_bytes_u16(n));
    bytes
}

/// The bytes of `n` in big-endian order.
pub fn u32_to_be_bytes(n: u32) -> (bytes: [u8; 4])
    ensures
        bytes@ == be_bytes_u32(n),
{
    let high: [u8; 2] = u16_to_be_bytes((n / 0x1_0000) as u16);
    let low: [u8; 2] = u16_to_be_bytes((n % 0x1_0000) as u16);
    let bytes: [u8; 4] = [high[0], high[1], low[0], low[1]];
    assert(bytes@ =~= high@ + low@);
    bytes
}

/// The bytes of `n` in big-endian order.
pub fn u64_to_be_bytes(n: u64) -> (bytes: [u8; 8])
    ensures
        bytes@ == be_bytes_u64(n),
{
    let high: [u8; 4] = u32_to_be_bytes((n / 0x1_0000_0000) as u32);
    let low: [u8; 4] = u32_to_be_bytes((n % 0x1_0000_0000) as u32);
    let bytes: [u8; 8] = [high[0], high[1], high[2], high[3], low[0], low[1], low[2], low[3]];
    assert(bytes@ =~= high@ + low@);
    bytes
}

/// Numbers are read with their most significant byte first: each byte weighs 256
/// times as much as the one behind it.
pub proof fn the_first_byte_weighs_most(s: Seq<u8>)
    ensures
        be_u16(s) == 0x100 * s[0] + s[1],
        s.len() >= 4 ==> be_u32(s) == 0x100_0000 * s[0] + 0x1_0000 * s[1] + 0x100 * s[2] + s[3],
        s.len() >= 8 ==> be_u64(s) == 0x1_0000_0000 * (0x100_0000 * s[0] + 0x1_0000 * s[1] + 0x100
            * s[2] + s[3]) + (0x100_0000 * s[4] + 0x1_0000 * s[5] + 0x100 * s[6] + s[7]),
{
}

/// Numbers are written with their most significant byte first, in as many bytes
/// as they have.
pub proof fn the_first_byte_is_written_first(short: u16, middle: u32, long: u64)
    ensures
        be_bytes_u16(short).len() == 2,
        0x100 * be_bytes_u16(short)[0] + be_bytes_u16(short)[1] == short,
        be_bytes_u32(middle).len() == 4,
        ({
            let bytes = be_bytes_u32(middle);
            0x100_0000 * bytes[0] + 0x1_0000 * bytes[1] + 0x100 * bytes[2] + bytes[3] == middle
        }),
        be_bytes_u64(long).len() == 8,
        ({
            let bytes = be_bytes_u64(long);
            0x1_0000_0000 * (0x100_0000 * bytes[0] + 0x1_0000 * bytes[1] + 0x100 * bytes[2]
                + bytes[3]) + (0x100_0000 * bytes[4] + 0x1_0000 * bytes[5] + 0x100 * bytes[6]
                + bytes[7]) == long
        }),
{
    let none = Seq::<u8>::empty();
    be_u16_inverts_bytes(short, none);
    be_u32_inverts_bytes(middle, none);
    be_u64_inverts_bytes(long, none);
    assert(be_bytes_u16(short) + none =~= be_bytes_u16(short));
    assert(be_bytes_u32(middle) + none =~= be_bytes_u32(middle));
    assert(be_bytes_u64(long) + none =~= be_bytes_u64(long));
    the_first_byte_weighs_most(be_bytes_u16(short));
    the_first_byte_weighs_most(be_bytes_u32(middle));
    the_first_byte_weighs_most(be_bytes_u64(long));
}

} // verus!
