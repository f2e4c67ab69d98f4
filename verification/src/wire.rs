//! Reading the fixed-width and length-prefixed fields of a datagram.
//!
//! Every reader takes the whole buffer and a position, and gives the value
//! together with the position just past it, or `None` when the field would run
//! past the end of the buffer. Multi-byte integers are little-endian; the byte
//! arithmetic itself is done by the `byteorder` crate.

use byteorder::ByteOrder;
use byteorder::LittleEndian;
use vstd::prelude::*;
use vstd::slice::slice_subrange;
use vstd::slice::slice_to_vec;

verus! {

/// The unsigned value of two bytes, least significant first.
pub open spec fn le_u16(b: Seq<u8>) -> int {
    b[0] as int + 256 * (b[1] as int)
}

/// The unsigned value of four bytes, least significant first.
pub open spec fn le_u32(b: Seq<u8>) -> int {
    b[0] as int + 256 * (b[1] as int) + 65536 * (b[2] as int) + 16777216 * (b[3] as int)
}

/// The two's-complement value of four bytes, least significant first.
pub open spec fn le_i32(b: Seq<u8>) -> int {
    if le_u32(b) >= 0x8000_0000 {
        le_u32(b) - 0x1_0000_0000
    } else {
        le_u32(b)
    }
}

/// One byte at `at`.
pub open spec fn byte_at(b: Seq<u8>, at: int) -> Option<(u8, int)> {
    if 0 <= at < b.len() {
        Some((b[at], at + 1))
    } else {
        None
    }
}

/// `n` bytes starting at `at`.
pub open spec fn bytes_at(b: Seq<u8>, at: int, n: int) -> Option<(Seq<u8>, int)> {
    if 0 <= at && 0 <= n && at + n <= b.len() {
        Some((b.subrange(at, at + n), at + n))
    } else {
        None
    }
}

/// A little-endian `u16` at `at`.
pub open spec fn u16_at(b: Seq<u8>, at: int) -> Option<(int, int)> {
    match bytes_at(b, at, 2) {
        Some((field, next)) => Some((le_u16(field), next)),
        None => None,
    }
}

/// A little-endian `u32` at `at`.
pub open spec fn u32_at(b: Seq<u8>, at: int) -> Option<(int, int)> {
    match bytes_at(b, at, 4) {
        Some((field, next)) => Some((le_u32(field), next)),
        None => None,
    }
}

/// A little-endian `i32` at `at`.
pub open spec fn i32_at(b: Seq<u8>, at: int) -> Option<(int, int)> {
    match bytes_at(b, at, 4) {
        Some((field, next)) => Some((le_i32(field), next)),
        None => None,
    }
}

/// A byte string whose length is given by the single byte in front of it.
pub open spec fn short_text_at(b: Seq<u8>, at: int) -> Option<(Seq<u8>, int)> {
    match byte_at(b, at) {
        Some((n, body)) => bytes_at(b, body, n as int),
        None => None,
    }
}

/// A byte string whose length is given by the little-endian `u32` in front of it.
pub open spec fn long_text_at(b: Seq<u8>, at: int) -> Option<(Seq<u8>, int)> {
    match u32_at(b, at) {
        Some((n, body)) => bytes_at(b, body, n),
        None => None,
    }
}

/// `byteorder::LittleEndian::read_u16`: the first two bytes of `field` as an
/// unsigned integer, least significant byte first. It panics on fewer than two
/// bytes, which the precondition excludes.
#[verifier::external_body]
fn le_read_u16(field: &[u8]) -> (value: u16)
    requires
        field@.len() >= 2,
    ensures
        value as int == le_u16(field@),
{
    LittleEndian::read_u16(field)
}

/// `byteorder::LittleEndian::read_u32`: the first four bytes of `field` as an
/// unsigned integer, least significant byte first. It panics on fewer than four
/// bytes, which the precondition excludes.
#[verifier::external_body]
fn le_read_u32(field: &[u8]) -> (value: u32)
    requires
        field@.len() >= 4,
    ensures
        value as int == le_u32(field@),
{
    LittleEndian::read_u32(field)
}

/// `byteorder::LittleEndian::read_i32`: the first four bytes of `field` as a
/// two's-complement integer, least significant byte first. It panics on fewer
/// than four bytes, which the precondition excludes.
#[verifier::external_body]
fn le_read_i32(field: &[u8]) -> (value: i32)
    requires
        field@.len() >= 4,
    ensures
        value as int == le_i32(field@),
{
    LittleEndian::read_i32(field)
}

/// Reads one byte.
pub fn take_byte(b: &[u8], at: usize) -> (r: Option<(u8, usize)>)
    ensures
        r is Some <==> byte_at(b@, at as int) is Some,
        r matches Some((v, next)) ==> byte_at(b@, at as int) == Some((v, next as int)),
{
    if at < b.len() {
        Some((b[at], at + 1))
    } else {
        None
    }
}

/// Copies `n` bytes out of the buffer.
pub fn take_bytes(b: &[u8], at: usize, n: usize) -> (r: Option<(Vec<u8>, usize)>)
    ensures
        r is Some <==> bytes_at(b@, at as int, n as int) is Some,
        r matches Some((v, next)) ==> bytes_at(b@, at as int, n as int) == Some(
            (v@, next as int),
        ),
{
    if at <= b.len() && n <= b.len() - at {
        let field = slice_subrange(b, at, at + n);
        Some((slice_to_vec(field), at + n))
    } else {
        None
    }
}

/// Reads a little-endian `u16`.
pub fn take_u16(b: &[u8], at: usize) -> (r: Option<(u16, usize)>)
    ensures
        r is Some <==> u16_at(b@, at as int) is Some,
        r matches Some((v, next)) ==> u16_at(b@, at as int) == Some((v as int, next as int)),
{
    if at <= b.len() && 2 <= b.len() - at {
        let field = slice_subrange(b, at, at + 2);
        Some((le_read_u16(field), at + 2))
    } else {
        None
    }
}

/// Reads a little-endian `u32`.
pub fn take_u32(b: &[u8], at: usize) -> (r: Option<(u32, usize)>)
    ensures
        r is Some <==> u32_at(b@, at as int) is Some,
        r matches Some((v, next)) ==> u32_at(b@, at as int) == Some((v as int, next as int)),
{
    if at <= b.len() && 4 <= b.len() - at {
        let field = slice_subrange(b, at, at + 4);
        Some((le_read_u32(field), at + 4))
    } else {
        None
    }
}

/// Reads a little-endian `i32`.
pub fn take_i32(b: &[u8], at: usize) -> (r: Option<(i32, usize)>)
    ensures
        r is Some <==> i32_at(b@, at as int) is Some,
        r matches Some((v, next)) ==> i32_at(b@, at as int) == Some((v as int, next as int)),
{
    if at <= b.len() && 4 <= b.len() - at {
        let field = slice_subrange(b, at, at + 4);
        Some((le_read_i32(field), at + 4))
    } else {
        None
    }
}

/// Reads a byte string with a one-byte length in front.
pub fn take_short_text(b: &[u8], at: usize) -> (r: Option<(Vec<u8>, usize)>)
    ensures
        r is Some <==> short_text_at(b@, at as int) is Some,
        r matches Some((v, next)) ==> short_text_at(b@, at as int) == Some((v@, next as int)),
{
    match take_byte(b, at) {
        Some((n, body)) => take_bytes(b, body, n as usize),
        None => None,
    }
}

/// Reads a byte string with a little-endian `u32` length in front.
pub fn take_long_text(b: &[u8], at: usize) -> (r: Option<(Vec<u8>, usize)>)
    ensures
        r is Some <==> long_text_at(b@, at as int) is Some,
        r matches Some((v, next)) ==> long_text_at(b@, at as int) == Some((v@, next as int)),
{
    match take_u32(b, at) {
        Some((n, body)) => {
            if n as u64 <= usize::MAX as u64 {
                take_bytes(b, body, n as usize)
            } else {
                None
            }
        },
        None => None,
    }
}

} // verus!
