//! The values that an image holds: bytes, little-endian integers and text.
//!
//! Every function takes the whole image and a position counted from 1, and
//! fails with an I/O error where the value does not lie within the image.
use vstd::prelude::*;
use vstd::string::StringSliceAdditionalSpecFns;
use vstd::utf8::{decode_utf8, encode_utf8_decode_utf8, valid_utf8};
use crate::error::Error;
use crate::store::{read, read_after, spec_read};

verus! {

/// `core::str::Utf8Error`, of which nothing is looked at.
#[verifier::external_type_specification]
#[verifier::external_body]
pub struct ExUtf8Error(core::str::Utf8Error);

/// `core::str::from_utf8`. Trusted: it accepts exactly the byte sequences
/// that are valid UTF-8, and the bytes of the string that it returns are the
/// bytes that it was given.
pub assume_specification<'a>[ core::str::from_utf8 ](v: &'a [u8]) -> (r: Result<
    &'a str,
    core::str::Utf8Error,
>)
    ensures
        r is Ok <==> valid_utf8(v@),
        r matches Ok(s) ==> s.spec_bytes() == v@,
;

/// The text that bytes encode, or a decode error where they are not valid
/// UTF-8.
pub open spec fn spec_decode(bytes: Seq<u8>) -> Result<Seq<char>, Error> {
    if valid_utf8(bytes) {
        Ok(decode_utf8(bytes))
    } else {
        Err(Error::DecodeError)
    }
}

/// The number that four bytes hold, the least significant byte first.
pub open spec fn spec_le_u32(b: Seq<u8>) -> u32
    recommends
        b.len() == 4,
{
    (b[0] + b[1] * 0x100 + b[2] * 0x1_0000 + b[3] * 0x100_0000) as u32
}

/// The number that eight bytes hold, the least significant byte first.
pub open spec fn spec_le_u64(b: Seq<u8>) -> u64
    recommends
        b.len() == 8,
{
    (b[0] + b[1] * 0x100 + b[2] * 0x1_0000 + b[3] * 0x100_0000 + b[4] * 0x1_0000_0000 + b[5]
        * 0x100_0000_0000 + b[6] * 0x1_0000_0000_0000 + b[7] * 0x100_0000_0000_0000) as u64
}

/// The number that sixteen bytes hold, the least significant byte first. Read
/// as an IPv6 address, the last byte is the address's first octet.
pub open spec fn spec_le_u128(b: Seq<u8>) -> u128
    recommends
        b.len() == 16,
{
    (spec_le_u64(b.subrange(0, 8)) + spec_le_u64(b.subrange(8, 16))
        * 0x1_0000_0000_0000_0000) as u128
}

/// The byte at position `offset`.
pub open spec fn spec_read_u8(data: Seq<u8>, offset: int) -> Result<u8, Error> {
    match spec_read(data, offset, 1) {
        Ok(b) => Ok(b[0]),
        Err(e) => Err(e),
    }
}

/// The 32-bit number whose four bytes start at position `offset`.
pub open spec fn spec_read_u32(data: Seq<u8>, offset: int) -> Result<u32, Error> {
    match spec_read(data, offset, 4) {
        Ok(b) => Ok(spec_le_u32(b)),
        Err(e) => Err(e),
    }
}

/// The 128-bit number whose sixteen bytes start at position `offset`.
pub open spec fn spec_read_ipv6(data: Seq<u8>, offset: int) -> Result<u128, Error> {
    match spec_read(data, offset, 16) {
        Ok(b) => Ok(spec_le_u128(b)),
        Err(e) => Err(e),
    }
}

/// The text that the pointer `offset` leads to: the byte at position
/// `offset + 1` is its length in bytes, and the bytes from position
/// `offset + 2` are its UTF-8 encoding.
pub open spec fn spec_read_str(data: Seq<u8>, offset: int) -> Result<Seq<char>, Error> {
    match spec_read_u8(data, offset + 1) {
        Err(e) => Err(e),
        Ok(len) => match spec_read(data, offset + 2, len as int) {
            Err(e) => Err(e),
            Ok(b) => spec_decode(b),
        },
    }
}

/// What a result that carries a string says in terms of characters.
pub open spec fn text_view(r: Result<String, Error>) -> Result<Seq<char>, Error> {
    match r {
        Ok(s) => Ok(s@),
        Err(e) => Err(e),
    }
}

/// Decodes four bytes, the least significant first.
pub(crate) fn le_u32(b: &[u8]) -> (v: u32)
    requires
        b@.len() == 4,
    ensures
        v == spec_le_u32(b@),
{
    (b[0] as u32) + (b[1] as u32) * 0x100 + (b[2] as u32) * 0x1_0000 + (b[3] as u32) * 0x100_0000
}

/// Decodes the eight bytes of `b` from index `at`, the least significant first.
fn le_u64(b: &[u8], at: usize) -> (v: u64)
    requires
        at + 8 <= b@.len(),
    ensures
        v == spec_le_u64(b@.subrange(at as int, at + 8)),
{
    (b[at] as u64) + (b[at + 1] as u64) * 0x100 + (b[at + 2] as u64) * 0x1_0000 + (b[at
        + 3] as u64) * 0x100_0000 + (b[at + 4] as u64) * 0x1_0000_0000 + (b[at + 5] as u64)
        * 0x100_0000_0000 + (b[at + 6] as u64) * 0x1_0000_0000_0000 + (b[at + 7] as u64)
        * 0x100_0000_0000_0000
}

/// Decodes sixteen bytes, the least significant first.
pub(crate) fn le_u128(b: &[u8]) -> (v: u128)
    requires
        b@.len() == 16,
    ensures
        v == spec_le_u128(b@),
{
    let low: u64 = le_u64(b, 0);
    let high: u64 = le_u64(b, 8);
    (low as u128) + (high as u128) * 0x1_0000_0000_0000_0000
}

/// Reads the byte at position `offset`.
pub fn read_u8(data: &[u8], offset: u64) -> (r: Result<u8, Error>)
    ensures
        r == spec_read_u8(data@, offset as int),
{
    let b = read(data, offset, 1)?;
    Ok(b[0])
}

/// Reads the little-endian 32-bit number at position `offset`.
pub fn read_u32(data: &[u8], offset: u64) -> (r: Result<u32, Error>)
    ensures
        r == spec_read_u32(data@, offset as int),
{
    let b = read(data, offset, 4)?;
    Ok(le_u32(b))
}

/// Reads the 128-bit number at position `offset`, whose bytes are stored in
/// reverse: the byte at `offset + 15` is the most significant.
pub fn read_ipv6(data: &[u8], offset: u64) -> (r: Result<u128, Error>)
    ensures
        r == spec_read_ipv6(data@, offset as int),
{
    let b = read(data, offset, 16)?;
    Ok(le_u128(b))
}

/// Decodes text from its UTF-8 encoding.
pub fn decode(bytes: &[u8]) -> (r: Result<String, Error>)
    ensures
        text_view(r) == spec_decode(bytes@),
{
    match core::str::from_utf8(bytes) {
        Ok(s) => {
            proof {
                encode_utf8_decode_utf8(s@);
            }
            Ok(s.to_owned())
        },
        Err(_) => Err(Error::DecodeError),
    }
}

/// Reads the length-prefixed text that the pointer `offset` leads to.
///
/// Fails with `IoError` where the length byte or the text lies outside the
/// image, and with `DecodeError` where the bytes are not valid UTF-8.
pub fn read_str(data: &[u8], offset: u64) -> (r: Result<String, Error>)
    ensures
        text_view(r) == spec_read_str(data@, offset as int),
{
    let head = read_after(data, offset, 1)?;
    let len: usize = head[0] as usize;
    assert(offset < data.len());
    let body = read_after(data, offset + 1, len)?;
    decode(body)
}

} // verus!
