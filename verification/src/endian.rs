//! Numbers in network byte order, read from bytes and written to them
//! with the `byteorder` crate.

use vstd::prelude::*;
use byteorder::{BigEndian, ByteOrder, LittleEndian};
use crate::error::Error;

verus! {

/// The two bytes of `n`, most significant first.
pub open spec fn be_bytes_u16(n: u16) -> Seq<u8> {
    seq![(n / 0x100) as u8, (n % 0x100) as u8]
}

/// The two bytes of `n`, least significant first.
pub open spec fn le_bytes_u16(n: u16) -> Seq<u8> {
    seq![(n % 0x100) as u8, (n / 0x100) as u8]
}

/// The four bytes of `n`, most significant first.
pub open spec fn be_bytes_u32(n: u32) -> Seq<u8> {
    seq![
        (n / 0x100_0000) as u8,
        (n / 0x1_0000 % 0x100) as u8,
        (n / 0x100 % 0x100) as u8,
        (n % 0x100) as u8,
    ]
}

/// The eight bytes of `n`, most significant first.
pub open spec fn be_bytes_u64(n: u64) -> Seq<u8> {
    seq![
        (n / 0x100_0000_0000_0000) as u8,
        (n / 0x1_0000_0000_0000 % 0x100) as u8,
        (n / 0x100_0000_0000 % 0x100) as u8,
        (n / 0x1_0000_0000 % 0x100) as u8,
        (n / 0x100_0000 % 0x100) as u8,
        (n / 0x1_0000 % 0x100) as u8,
        (n / 0x100 % 0x100) as u8,
        (n % 0x100) as u8,
    ]
}

/// The big-endian 16 bit number that starts at `at`.
pub open spec fn be_u16(s: Seq<u8>, at: int) -> u16 {
    (s[at] as int * 0x100 + s[at + 1] as int) as u16
}

/// The big-endian 32 bit number that starts at `at`.
pub open spec fn be_u32(s: Seq<u8>, at: int) -> u32 {
    (s[at] as int * 0x100_0000 + s[at + 1] as int * 0x1_0000 + s[at + 2] as int * 0x100 + s[at
        + 3] as int) as u32
}

/// The big-endian 64 bit number that starts at `at`.
pub open spec fn be_u64(s: Seq<u8>, at: int) -> u64 {
    (be_u32(s, at) as int * 0x1_0000_0000 + be_u32(s, at + 4) as int) as u64
}

/// `s` with `data` written over it from `at` on; what does not fit is dropped.
pub open spec fn overwrite(s: Seq<u8>, at: int, data: Seq<u8>) -> Seq<u8> {
    Seq::new(s.len(), |i: int| if at <= i < at + data.len() { data[i - at] } else { s[i] })
}

/// `byteorder::BigEndian::read_u16`: the first two bytes of `buf`, read as a
/// big-endian number. It panics on a shorter buffer.
#[verifier::external_body]
fn be_read_u16(buf: &[u8]) -> (r: u16)
    requires
        buf@.len() >= 2,
    ensures
        r == be_u16(buf@, 0),
{
    BigEndian::read_u16(buf)
}

/// `byteorder::BigEndian::read_u32`: the first four bytes of `buf`, read as a
/// big-endian number. It panics on a shorter buffer.
#[verifier::external_body]
fn be_read_u32(buf: &[u8]) -> (r: u32)
    requires
        buf@.len() >= 4,
    ensures
        r == be_u32(buf@, 0),
{
    BigEndian::read_u32(buf)
}

/// `byteorder::BigEndian::read_u64`: the first eight bytes of `buf`, read as a
/// big-endian number. It panics on a shorter buffer.
#[verifier::external_body]
fn be_read_u64(buf: &[u8]) -> (r: u64)
    requires
        buf@.len() >= 8,
    ensures
        r == be_u64(buf@, 0),
{
    BigEndian::read_u64(buf)
}

/// `byteorder::BigEndian::write_u16`: the first two bytes of `buf` become the
/// bytes of `n`, most significant first; the rest stays. It panics on a
/// shorter buffer.
#[verifier::external_body]
fn be_write_u16(buf: &mut [u8], n: u16)
    requires
        old(buf)@.len() >= 2,
    ensures
        final(buf)@ == overwrite(old(buf)@, 0, be_bytes_u16(n)),
{
    BigEndian::write_u16(buf, n)
}

/// `byteorder::BigEndian::write_u32`: the first four bytes of `buf` become the
/// bytes of `n`, most significant first; the rest stays. It panics on a
/// shorter buffer.
#[verifier::external_body]
fn be_write_u32(buf: &mut [u8], n: u32)
    requires
        old(buf)@.len() >= 4,
    ensures
        final(buf)@ == overwrite(old(buf)@, 0, be_bytes_u32(n)),
{
    BigEndian::write_u32(buf, n)
}

/// `byteorder::BigEndian::write_u64`: the first eight bytes of `buf` become
/// the bytes of `n`, most significant first; the rest stays. It panics on a
/// shorter buffer.
#[verifier::external_body]
fn be_write_u64(buf: &mut [u8], n: u64)
    requires
        old(buf)@.len() >= 8,
    ensures
        final(buf)@ == overwrite(old(buf)@, 0, be_bytes_u64(n)),
{
    BigEndian::write_u64(buf, n)
}

/// `byteorder::LittleEndian::write_u16`: the first two bytes of `buf` become
/// the bytes of `n`, least significant first; the rest stays. It panics on a
/// shorter buffer.
#[verifier::external_body]
fn le_write_u16(buf: &mut [u8], n: u16)
    requires
        old(buf)@.len() >= 2,
    ensures
        final(buf)@ == overwrite(old(buf)@, 0, le_bytes_u16(n)),
{
    LittleEndian::write_u16(buf, n)
}

/// Read the big-endian 16 bit number at `at`.
pub fn read_u16(bytes: &[u8], at: usize) -> (r: u16)
    requires
        at + 2 <= bytes@.len(),
    ensures
        r == be_u16(bytes@, at as int),
{
    let tail = vstd::slice::slice_subrange(bytes, at, bytes.len());
    be_read_u16(tail)
}

/// Read the big-endian 32 bit number at `at`.
pub fn read_u32(bytes: &[u8], at: usize) -> (r: u32)
    requires
        at + 4 <= bytes@.len(),
    ensures
        r == be_u32(bytes@, at as int),
{
    let tail = vstd::slice::slice_subrange(bytes, at, bytes.len());
    be_read_u32(tail)
}

/// Read the big-endian 64 bit number at `at`.
pub fn read_u64(bytes: &[u8], at: usize) -> (r: u64)
    requires
        at + 8 <= bytes@.len(),
    ensures
        r == be_u64(bytes@, at as int),
{
    let tail = vstd::slice::slice_subrange(bytes, at, bytes.len());
    be_read_u64(tail)
}

/// Copy `data` over `bytes` from `at` on, as far as it fits, and say whether
/// all of it did.
pub fn write_bytes(bytes: &mut [u8], at: usize, data: &[u8]) -> (r: Result<(), Error>)
    requires
        at <= old(bytes)@.len(),
    ensures
        final(bytes)@ == overwrite(old(bytes)@, at as int, data@),
        r is Ok <==> at + data@.len() <= old(bytes)@.len(),
        r is Err ==> r == Err::<(), Error>(Error::Io),
{
    let room: usize = bytes.len() - at;
    let count: usize = if data.len() < room { data.len() } else { room };
    let mut i: usize = 0;
    while i < count
        invariant
            i <= count,
            count <= data@.len(),
            at + count <= usize::MAX,
            at + count <= bytes@.len(),
            bytes@.len() == old(bytes)@.len(),
            forall|j: int| 0 <= j < bytes@.len() ==> bytes@[j] == if at <= j < at + i {
                data@[j - at]
            } else {
                old(bytes)@[j]
            },
        decreases count - i,
    {
        bytes[at + i] = data[i];
        i += 1;
    }
    assert(bytes@ =~= overwrite(old(bytes)@, at as int, data@));
    if data.len() <= room {
        Ok(())
    } else {
        Err(Error::Io)
    }
}

/// Write `value` at `at`, most significant byte first. Where fewer than two
/// bytes are left, those that fit are written and the write fails.
pub fn write_u16(bytes: &mut [u8], at: usize, value: u16) -> (r: Result<(), Error>)
    requires
        at <= old(bytes)@.len(),
    ensures
        final(bytes)@ == overwrite(old(bytes)@, at as int, be_bytes_u16(value)),
        r is Ok <==> at + 2 <= old(bytes)@.len(),
        r is Err ==> r == Err::<(), Error>(Error::Io),
{
    let mut scratch: Vec<u8> = vec![0u8, 0u8];
    be_write_u16(scratch.as_mut_slice(), value);
    assert(scratch@ =~= be_bytes_u16(value));
    write_bytes(bytes, at, scratch.as_slice())
}

/// Write `value` at `at`, least significant byte first. Where fewer than two
/// bytes are left, those that fit are written and the write fails.
pub fn write_u16_le(bytes: &mut [u8], at: usize, value: u16) -> (r: Result<(), Error>)
    requires
        at <= old(bytes)@.len(),
    ensures
        final(bytes)@ == overwrite(old(bytes)@, at as int, le_bytes_u16(value)),
        r is Ok <==> at + 2 <= old(bytes)@.len(),
        r is Err ==> r == Err::<(), Error>(Error::Io),
{
    let mut scratch: Vec<u8> = vec![0u8, 0u8];
    le_write_u16(scratch.as_mut_slice(), value);
    assert(scratch@ =~= le_bytes_u16(value));
    write_bytes(bytes, at, scratch.as_slice())
}

/// Write `value` at `at`, most significant byte first. Where fewer than four
/// bytes are left, those that fit are written and the write fails.
pub fn write_u32(bytes: &mut [u8], at: usize, value: u32) -> (r: Result<(), Error>)
    requires
        at <= old(bytes)@.len(),
    ensures
        final(bytes)@ == overwrite(old(bytes)@, at as int, be_bytes_u32(value)),
        r is Ok <==> at + 4 <= old(bytes)@.len(),
        r is Err ==> r == Err::<(), Error>(Error::Io),
{
    let mut scratch: Vec<u8> = vec![0u8, 0u8, 0u8, 0u8];
    be_write_u32(scratch.as_mut_slice(), value);
    assert(scratch@ =~= be_bytes_u32(value));
    write_bytes(bytes, at, scratch.as_slice())
}

/// Write `value` at `at`, most significant byte first. Where fewer than eight
/// bytes are left, those that fit are written and the write fails.
pub fn write_u64(bytes: &mut [u8], at: usize, value: u64) -> (r: Result<(), Error>)
    requires
        at <= old(bytes)@.len(),
    ensures
        final(bytes)@ == overwrite(old(bytes)@, at as int, be_bytes_u64(value)),
        r is Ok <==> at + 8 <= old(bytes)@.len(),
        r is Err ==> r == Err::<(), Error>(Error::Io),
{
    let mut scratch: Vec<u8> = vec![0u8, 0u8, 0u8, 0u8, 0u8, 0u8, 0u8, 0u8];
    be_write_u64(scratch.as_mut_slice(), value);
    assert(scratch@ =~= be_bytes_u64(value));
    write_bytes(bytes, at, scratch.as_slice())
}

/// A 16 bit number written at `at` is the number read back from there.
pub proof fn lemma_u16_round_trip(s: Seq<u8>, at: int, n: u16)
    requires
        0 <= at,
        at + 2 <= s.len(),
    ensures
        be_u16(overwrite(s, at, be_bytes_u16(n)), at) == n,
{
}

/// A 32 bit number written at `at` is the number read back from there.
pub proof fn lemma_u32_round_trip(s: Seq<u8>, at: int, n: u32)
    requires
        0 <= at,
        at + 4 <= s.len(),
    ensures
        be_u32(overwrite(s, at, be_bytes_u32(n)), at) == n,
{
}

/// A 64 bit number written at `at` is the number read back from there.
pub proof fn lemma_u64_round_trip(s: Seq<u8>, at: int, n: u64)
    requires
        0 <= at,
        at + 8 <= s.len(),
    ensures
        be_u64(overwrite(s, at, be_bytes_u64(n)), at) == n,
{
    let t = overwrite(s, at, be_bytes_u64(n));
    assert((n / 0x100_0000_0000_0000) * 0x100_0000 + (n / 0x1_0000_0000_0000 % 0x100) * 0x1_0000
        + (n / 0x100_0000_0000 % 0x100) * 0x100 + (n / 0x1_0000_0000 % 0x100) == n
        / 0x1_0000_0000) by (bit_vector);
    assert((n / 0x100_0000 % 0x100) * 0x100_0000 + (n / 0x1_0000 % 0x100) * 0x1_0000 + (n / 0x100
        % 0x100) * 0x100 + (n % 0x100) == n % 0x1_0000_0000) by (bit_vector);
    assert(be_u32(t, at) == n / 0x1_0000_0000);
    assert(be_u32(t, at + 4) == n % 0x1_0000_0000);
}

/// Writing at `at` leaves every byte outside the written range as it was, and
/// the length too.
pub proof fn lemma_overwrite_frame(s: Seq<u8>, at: int, data: Seq<u8>, i: int)
    requires
        0 <= i < s.len(),
        i < at || at + data.len() <= i,
    ensures
        overwrite(s, at, data).len() == s.len(),
        overwrite(s, at, data)[i] == s[i],
{
}

} // verus!
