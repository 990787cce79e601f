//! The preamble of an image: what kind of database it is and where its
//! tables lie.
use vstd::prelude::*;
use crate::codec::{read_u32, read_u8, spec_le_u32};
use crate::error::Error;

verus! {

/// The number of bytes that the preamble takes.
pub const HEADER_LEN: usize = 32;

/// What the preamble of an image says.
#[derive(Debug, Clone, Copy, PartialEq, Eq, Structural)]
pub struct Header {
    /// The type of the database, which decides the columns of a row.
    pub db_type: u8,
    /// The number of 4-byte columns in a row.
    pub db_column: u8,
    pub db_year: u8,
    pub db_month: u8,
    pub db_day: u8,
    /// The number of rows of the IPv4 table.
    pub ipv4_db_count: u32,
    /// The position of the IPv4 table.
    pub ipv4_db_addr: u32,
    /// The number of rows of the IPv6 table.
    pub ipv6_db_count: u32,
    /// The position of the IPv6 table.
    pub ipv6_db_addr: u32,
    /// The position of the index of the IPv4 table; 0 where it has none.
    pub ipv4_index_base_addr: u32,
    /// The position of the index of the IPv6 table; 0 where it has none.
    pub ipv6_index_base_addr: u32,
    pub product_code: u8,
    pub license_code: u8,
    pub database_size: u32,
}

/// The byte of `data` at the 1-based position `offset`.
pub open spec fn byte_at(data: Seq<u8>, offset: int) -> u8
    recommends
        1 <= offset <= data.len(),
{
    data[offset - 1]
}

/// The little-endian 32-bit number of `data` at the 1-based position `offset`.
pub open spec fn u32_at(data: Seq<u8>, offset: int) -> u32
    recommends
        1 <= offset,
        offset + 3 <= data.len(),
{
    spec_le_u32(data.subrange(offset - 1, offset + 3))
}

impl Header {
    /// The preamble of which nothing was read.
    pub open spec fn spec_empty() -> Header {
        Header {
            db_type: 0,
            db_column: 0,
            db_year: 0,
            db_month: 0,
            db_day: 0,
            ipv4_db_count: 0,
            ipv4_db_addr: 0,
            ipv6_db_count: 0,
            ipv6_db_addr: 0,
            ipv4_index_base_addr: 0,
            ipv6_index_base_addr: 0,
            product_code: 0,
            license_code: 0,
            database_size: 0,
        }
    }

    /// The fields of the preamble, each at its fixed position.
    pub open spec fn spec_fields(data: Seq<u8>) -> Header
        recommends
            data.len() >= HEADER_LEN,
    {
        Header {
            db_type: byte_at(data, 1),
            db_column: byte_at(data, 2),
            db_year: byte_at(data, 3),
            db_month: byte_at(data, 4),
            db_day: byte_at(data, 5),
            ipv4_db_count: u32_at(data, 6),
            ipv4_db_addr: u32_at(data, 10),
            ipv6_db_count: u32_at(data, 14),
            ipv6_db_addr: u32_at(data, 18),
            ipv4_index_base_addr: u32_at(data, 22),
            ipv6_index_base_addr: u32_at(data, 26),
            product_code: byte_at(data, 27),
            license_code: byte_at(data, 28),
            database_size: u32_at(data, 29),
        }
    }

    /// Whether this library can read a file with this preamble. A file is
    /// refused when all of these hold: its product code is not 2, its year is
    /// after 20, and its product code is not 0.
    pub open spec fn compatible(self) -> bool {
        !(self.product_code != 2 && self.db_year > 20 && self.product_code != 0)
    }

    /// What reading the preamble of `data` gives: an I/O error where the
    /// image is shorter than the preamble, a format error where the preamble
    /// is of an incompatible file, else its fields.
    pub open spec fn spec_read(data: Seq<u8>) -> Result<Header, Error> {
        if data.len() < HEADER_LEN {
            Err(Error::IoError)
        } else if !Header::spec_fields(data).compatible() {
            Err(Error::IncompatibleFormat)
        } else {
            Ok(Header::spec_fields(data))
        }
    }

    /// The preamble of which nothing was read: every field 0.
    pub fn empty() -> (header: Header)
        ensures
            header == Header::spec_empty(),
    {
        Header {
            db_type: 0,
            db_column: 0,
            db_year: 0,
            db_month: 0,
            db_day: 0,
            ipv4_db_count: 0,
            ipv4_db_addr: 0,
            ipv6_db_count: 0,
            ipv6_db_addr: 0,
            ipv4_index_base_addr: 0,
            ipv6_index_base_addr: 0,
            product_code: 0,
            license_code: 0,
            database_size: 0,
        }
    }

    /// Whether this library can read a file with this preamble.
    pub fn is_compatible(&self) -> (ok: bool)
        ensures
            ok == self.compatible(),
    {
        !(self.product_code != 2 && self.db_year > 20 && self.product_code != 0)
    }
}

/// The preamble of an image is read from its first bytes alone.
pub proof fn lemma_preamble_suffices(data: Seq<u8>)
    requires
        data.len() >= HEADER_LEN,
    ensures
        Header::spec_read(data.subrange(0, HEADER_LEN as int)) == Header::spec_read(data),
{
    let head = data.subrange(0, HEADER_LEN as int);
    assert forall|offset: int| 1 <= offset <= HEADER_LEN - 3 implies #[trigger] u32_at(
        head,
        offset,
    ) == u32_at(data, offset) by {
        assert(head.subrange(offset - 1, offset + 3) =~= data.subrange(offset - 1, offset + 3));
    }
    assert(u32_at(head, 6) == u32_at(data, 6));
    assert(u32_at(head, 10) == u32_at(data, 10));
    assert(u32_at(head, 14) == u32_at(data, 14));
    assert(u32_at(head, 18) == u32_at(data, 18));
    assert(u32_at(head, 22) == u32_at(data, 22));
    assert(u32_at(head, 26) == u32_at(data, 26));
    assert(u32_at(head, 29) == u32_at(data, 29));
}

/// Reads and checks the preamble of an image.
pub fn read_header(data: &[u8]) -> (r: Result<Header, Error>)
    ensures
        r == Header::spec_read(data@),
{
    let header = Header {
        db_type: read_u8(data, 1)?,
        db_column: read_u8(data, 2)?,
        db_year: read_u8(data, 3)?,
        db_month: read_u8(data, 4)?,
        db_day: read_u8(data, 5)?,
        ipv4_db_count: read_u32(data, 6)?,
        ipv4_db_addr: read_u32(data, 10)?,
        ipv6_db_count: read_u32(data, 14)?,
        ipv6_db_addr: read_u32(data, 18)?,
        ipv4_index_base_addr: read_u32(data, 22)?,
        ipv6_index_base_addr: read_u32(data, 26)?,
        product_code: read_u8(data, 27)?,
        license_code: read_u8(data, 28)?,
        database_size: read_u32(data, 29)?,
    };
    if header.is_compatible() {
        Ok(header)
    } else {
        Err(Error::IncompatibleFormat)
    }
}

} // verus!
