//! Little-endian fields at a byte offset of a buffer.
//!
//! The integers are read by `binrw`; what it hands back is stated here over
//! the bytes of the buffer, and the layout parsers are proved against that.

use crate::types::{fails_with, DecodeError};
use binrw::io::Cursor;
use binrw::BinRead;
use vstd::prelude::*;
use vstd::slice::{slice_subrange, slice_to_vec};

verus! {

/// `binrw::Error`: why a read failed.  Nothing is read from it here: every
/// failed read of a field is taken as the end of the buffer.
#[verifier::external_type_specification]
#[verifier::external_body]
pub struct ExBinrwError(binrw::Error);

/// The 16-bit value whose little-endian encoding starts at `at`.
pub open spec fn le_u16(s: Seq<u8>, at: int) -> u16 {
    (s[at] as int + 0x100 * (s[at + 1] as int)) as u16
}

/// The 32-bit value whose little-endian encoding starts at `at`.
pub open spec fn le_u32(s: Seq<u8>, at: int) -> u32 {
    (s[at] as int + 0x100 * (s[at + 1] as int) + 0x1_0000 * (s[at + 2] as int) + 0x100_0000 * (s[at
        + 3] as int)) as u32
}

/// The 64-bit value whose little-endian encoding starts at `at`.
pub open spec fn le_u64(s: Seq<u8>, at: int) -> u64 {
    (le_u32(s, at) as int + 0x1_0000_0000 * (le_u32(s, at + 4) as int)) as u64
}

/// The field of `width` bytes at `at` lies within the buffer.
pub open spec fn in_bounds(s: Seq<u8>, at: int, width: int) -> bool {
    0 <= at && 0 <= width && at + width <= s.len()
}

/// `u8::read_le` of binrw, on a cursor over `data` that stands at `pos`.
/// It reads one byte and returns it; it fails if and only if no byte is left
/// at `pos`.
#[verifier::external_body]
fn read_le_u8(data: &[u8], pos: usize) -> (r: Result<u8, binrw::Error>)
    ensures
        in_bounds(data@, pos as int, 1) ==> r is Ok && r->Ok_0 == data@[pos as int],
        !in_bounds(data@, pos as int, 1) ==> r is Err,
{
    let mut cursor = Cursor::new(data);
    cursor.set_position(pos as u64);
    u8::read_le(&mut cursor)
}

/// `u16::read_le` of binrw, on a cursor over `data` that stands at `pos`.
/// It reads two bytes and returns the value that they encode, low byte
/// first; it fails if and only if fewer than two bytes are left at `pos`.
#[verifier::external_body]
fn read_le_u16(data: &[u8], pos: usize) -> (r: Result<u16, binrw::Error>)
    ensures
        in_bounds(data@, pos as int, 2) ==> r is Ok && r->Ok_0 == le_u16(data@, pos as int),
        !in_bounds(data@, pos as int, 2) ==> r is Err,
{
    let mut cursor = Cursor::new(data);
    cursor.set_position(pos as u64);
    u16::read_le(&mut cursor)
}

/// `u32::read_le` of binrw, on a cursor over `data` that stands at `pos`.
/// It reads four bytes and returns the value that they encode, low byte
/// first; it fails if and only if fewer than four bytes are left at `pos`.
#[verifier::external_body]
fn read_le_u32(data: &[u8], pos: usize) -> (r: Result<u32, binrw::Error>)
    ensures
        in_bounds(data@, pos as int, 4) ==> r is Ok && r->Ok_0 == le_u32(data@, pos as int),
        !in_bounds(data@, pos as int, 4) ==> r is Err,
{
    let mut cursor = Cursor::new(data);
    cursor.set_position(pos as u64);
    u32::read_le(&mut cursor)
}

/// `u64::read_le` of binrw, on a cursor over `data` that stands at `pos`.
/// It reads eight bytes and returns the value that they encode, low byte
/// first; it fails if and only if fewer than eight bytes are left at `pos`.
#[verifier::external_body]
fn read_le_u64(data: &[u8], pos: usize) -> (r: Result<u64, binrw::Error>)
    ensures
        in_bounds(data@, pos as int, 8) ==> r is Ok && r->Ok_0 == le_u64(data@, pos as int),
        !in_bounds(data@, pos as int, 8) ==> r is Err,
{
    let mut cursor = Cursor::new(data);
    cursor.set_position(pos as u64);
    u64::read_le(&mut cursor)
}

/// The byte at `pos`, or `TruncatedInput` where the buffer ends before it.
pub fn get_u8(data: &[u8], pos: usize) -> (r: Result<u8, DecodeError>)
    ensures
        in_bounds(data@, pos as int, 1) ==> r == Ok::<u8, DecodeError>(data@[pos as int]),
        !in_bounds(data@, pos as int, 1) ==> fails_with(r, DecodeError::TruncatedInput),
{
    match read_le_u8(data, pos) {
        Ok(v) => Ok(v),
        Err(_) => Err(DecodeError::TruncatedInput),
    }
}

/// The 16-bit field at `pos`, or `TruncatedInput` where the buffer ends
/// before the field does.
pub fn get_u16(data: &[u8], pos: usize) -> (r: Result<u16, DecodeError>)
    ensures
        in_bounds(data@, pos as int, 2) ==> r == Ok::<u16, DecodeError>(le_u16(data@, pos as int)),
        !in_bounds(data@, pos as int, 2) ==> fails_with(r, DecodeError::TruncatedInput),
{
    match read_le_u16(data, pos) {
        Ok(v) => Ok(v),
        Err(_) => Err(DecodeError::TruncatedInput),
    }
}

/// The 32-bit field at `pos`, or `TruncatedInput` where the buffer ends
/// before the field does.
pub fn get_u32(data: &[u8], pos: usize) -> (r: Result<u32, DecodeError>)
    ensures
        in_bounds(data@, pos as int, 4) ==> r == Ok::<u32, DecodeError>(le_u32(data@, pos as int)),
        !in_bounds(data@, pos as int, 4) ==> fails_with(r, DecodeError::TruncatedInput),
{
    match read_le_u32(data, pos) {
        Ok(v) => Ok(v),
        Err(_) => Err(DecodeError::TruncatedInput),
    }
}

/// The 64-bit field at `pos`, or `TruncatedInput` where the buffer ends
/// before the field does.
pub fn get_u64(data: &[u8], pos: usize) -> (r: Result<u64, DecodeError>)
    ensures
        in_bounds(data@, pos as int, 8) ==> r == Ok::<u64, DecodeError>(le_u64(data@, pos as int)),
        !in_bounds(data@, pos as int, 8) ==> fails_with(r, DecodeError::TruncatedInput),
{
    match read_le_u64(data, pos) {
        Ok(v) => Ok(v),
        Err(_) => Err(DecodeError::TruncatedInput),
    }
}

/// A copy of the `count` bytes at `pos`, or `TruncatedInput` where the
/// buffer ends before they do.
pub fn get_bytes(data: &[u8], pos: usize, count: usize) -> (r: Result<Vec<u8>, DecodeError>)
    ensures
        in_bounds(data@, pos as int, count as int) ==> r is Ok && r->Ok_0@ == data@.subrange(
            pos as int,
            pos + count,
        ),
        !in_bounds(data@, pos as int, count as int) ==> fails_with(r, DecodeError::TruncatedInput),
{
    let len: usize = data.len();
    if pos > len || count > len - pos {
        return Err(DecodeError::TruncatedInput);
    }
    Ok(slice_to_vec(slice_subrange(data, pos, pos + count)))
}

/// The little-endian encoding of a 16-bit value.
pub open spec fn u16_le(x: u16) -> Seq<u8> {
    seq![(x % 0x100) as u8, (x / 0x100) as u8]
}

/// The little-endian encoding of a 32-bit value.
pub open spec fn u32_le(x: u32) -> Seq<u8> {
    seq![
        (x % 0x100) as u8,
        ((x / 0x100) % 0x100) as u8,
        ((x / 0x1_0000) % 0x100) as u8,
        (x / 0x100_0000) as u8,
    ]
}

/// The little-endian encoding of a 64-bit value.
pub open spec fn u64_le(x: u64) -> Seq<u8> {
    u32_le((x % 0x1_0000_0000) as u32) + u32_le((x / 0x1_0000_0000) as u32)
}

/// A 16-bit field holds the value whose encoding stands at its place.
pub proof fn lemma_le_u16_reads_encoding(s: Seq<u8>, at: int, x: u16)
    requires
        0 <= at,
        at + 2 <= s.len(),
        s.subrange(at, at + 2) == u16_le(x),
    ensures
        le_u16(s, at) == x,
{
    let f = s.subrange(at, at + 2);
    assert(f[0] == s[at] && f[1] == s[at + 1]);
}

/// A 32-bit field holds the value whose encoding stands at its place.
pub proof fn lemma_le_u32_reads_encoding(s: Seq<u8>, at: int, x: u32)
    requires
        0 <= at,
        at + 4 <= s.len(),
        s.subrange(at, at + 4) == u32_le(x),
    ensures
        le_u32(s, at) == x,
{
    let f = s.subrange(at, at + 4);
    assert(f[0] == s[at] && f[1] == s[at + 1] && f[2] == s[at + 2] && f[3] == s[at + 3]);
}

/// A 64-bit field holds the value whose encoding stands at its place.
pub proof fn lemma_le_u64_reads_encoding(s: Seq<u8>, at: int, x: u64)
    requires
        0 <= at,
        at + 8 <= s.len(),
        s.subrange(at, at + 8) == u64_le(x),
    ensures
        le_u64(s, at) == x,
{
    let f = s.subrange(at, at + 8);
    let low = (x % 0x1_0000_0000) as u32;
    let high = (x / 0x1_0000_0000) as u32;
    assert(s.subrange(at, at + 4) =~= f.subrange(0, 4));
    assert(s.subrange(at + 4, at + 8) =~= f.subrange(4, 8));
    assert(f.subrange(0, 4) =~= u32_le(low));
    assert(f.subrange(4, 8) =~= u32_le(high));
    lemma_le_u32_reads_encoding(s, at, low);
    lemma_le_u32_reads_encoding(s, at + 4, high);
}

/// Where a buffer begins with `a` followed by `f`, it begins with `a`, and
/// `f` stands right behind.
pub proof fn lemma_last_part_of_prefix(w: Seq<u8>, a: Seq<u8>, f: Seq<u8>)
    requires
        a.len() + f.len() <= w.len(),
        w.subrange(0, (a.len() + f.len()) as int) == a + f,
    ensures
        w.subrange(0, a.len() as int) == a,
        w.subrange(a.len() as int, (a.len() + f.len()) as int) == f,
{
    let af = w.subrange(0, (a.len() + f.len()) as int);
    assert forall|i: int| 0 <= i < a.len() implies w[i] == a[i] by {
        assert(af[i] == (a + f)[i]);
    }
    assert forall|i: int| 0 <= i < f.len() implies w[a.len() + i] == f[i] by {
        assert(af[a.len() + i] == (a + f)[a.len() + i]);
    }
    assert(w.subrange(0, a.len() as int) =~= a);
    assert(w.subrange(a.len() as int, (a.len() + f.len()) as int) =~= f);
}

} // verus!
