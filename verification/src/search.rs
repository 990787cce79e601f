//! Finding the row whose range holds an address.
//!
//! A table is a run of rows of equal width. A row starts with the first
//! address of its range; the range ends before the first address of the next
//! row. An IPv4 table stores that address in 4 bytes, an IPv6 table in 16,
//! the least significant byte first. Rows are numbered from 0, and the row
//! that follows the last one only closes the last range.
//!
//! The search is a binary search between two row numbers, both included. By
//! default they are 0 and the table's row count; an index, where the table has
//! one, gives narrower bounds for each value of the address's first 16 bits.
use vstd::prelude::*;
use crate::codec::{
    le_u128, le_u32, read_ipv6, read_u32, spec_le_u128, spec_le_u32, spec_read_ipv6, spec_read_u32,
};
use crate::error::Error;
use crate::header::Header;

verus! {

/// The two kinds of address.
#[derive(Debug, Clone, Copy, PartialEq, Eq, Structural)]
pub enum Family {
    V4,
    V6,
}

/// A validated address.
#[derive(Debug, Clone, Copy, PartialEq, Eq, Structural)]
pub enum Address {
    /// An IPv4 address as a 32-bit number, the first octet the most
    /// significant.
    V4(u32),
    /// An IPv6 address as a 128-bit number, the first octet the most
    /// significant.
    V6(u128),
}

impl Address {
    pub open spec fn spec_family(self) -> Family {
        match self {
            Address::V4(_) => Family::V4,
            Address::V6(_) => Family::V6,
        }
    }

    /// The address as the number by which rows are ordered.
    pub open spec fn spec_key(self) -> u128 {
        match self {
            Address::V4(a) => a as u128,
            Address::V6(a) => a,
        }
    }

    /// The first 16 bits of the address.
    pub open spec fn spec_prefix(self) -> u16 {
        match self {
            Address::V4(a) => (a / 0x1_0000) as u16,
            Address::V6(a) => (a / 0x1_0000_0000_0000_0000_0000_0000_0000) as u16,
        }
    }

    /// The kind of the address.
    pub fn family(&self) -> (f: Family)
        ensures
            f == self.spec_family(),
    {
        match self {
            Address::V4(_) => Family::V4,
            Address::V6(_) => Family::V6,
        }
    }

    /// The address as the number by which rows are ordered.
    pub fn key(&self) -> (k: u128)
        ensures
            k == self.spec_key(),
    {
        match self {
            Address::V4(a) => *a as u128,
            Address::V6(a) => *a,
        }
    }

    /// The first 16 bits of the address: of an IPv4 address its first two
    /// octets, and of an IPv6 address likewise.
    pub fn prefix(&self) -> (p: u16)
        ensures
            p == self.spec_prefix(),
    {
        match self {
            Address::V4(a) => (*a / 0x1_0000) as u16,
            Address::V6(a) => (*a / 0x1_0000_0000_0000_0000_0000_0000_0000) as u16,
        }
    }
}

/// One of the two tables of a database.
#[derive(Debug, Clone, Copy, PartialEq, Eq, Structural)]
pub struct Table {
    pub family: Family,
    /// The number of 4-byte columns in a row.
    pub columns: u8,
    /// The number of rows.
    pub count: u32,
    /// The position of row 0.
    pub base: u32,
    /// The position of the index; 0 where the table has none.
    pub index: u32,
}

impl Header {
    /// The table of the given family.
    pub open spec fn spec_table(self, family: Family) -> Table {
        match family {
            Family::V4 => Table {
                family,
                columns: self.db_column,
                count: self.ipv4_db_count,
                base: self.ipv4_db_addr,
                index: self.ipv4_index_base_addr,
            },
            Family::V6 => Table {
                family,
                columns: self.db_column,
                count: self.ipv6_db_count,
                base: self.ipv6_db_addr,
                index: self.ipv6_index_base_addr,
            },
        }
    }

    /// The table of the given family.
    pub fn table(&self, family: Family) -> (t: Table)
        ensures
            t == self.spec_table(family),
    {
        match family {
            Family::V4 => Table {
                family,
                columns: self.db_column,
                count: self.ipv4_db_count,
                base: self.ipv4_db_addr,
                index: self.ipv4_index_base_addr,
            },
            Family::V6 => Table {
                family,
                columns: self.db_column,
                count: self.ipv6_db_count,
                base: self.ipv6_db_addr,
                index: self.ipv6_index_base_addr,
            },
        }
    }
}

impl Table {
    /// The number of bytes in a row: 4 for each column, and in an IPv6 table
    /// 12 more, since there the first column is 16 bytes wide.
    pub open spec fn spec_width(self) -> int {
        match self.family {
            Family::V4 => self.columns * 4,
            Family::V6 => self.columns * 4 + 12,
        }
    }

    /// The position of a row.
    pub open spec fn spec_row(self, row: int) -> int {
        self.base + row * self.spec_width()
    }

    /// The position that stands for a row when its fields are decoded:
    /// column `p` is found `4 * (p - 1)` bytes behind it. In an IPv6 table
    /// that is 12 bytes behind the row's start.
    pub open spec fn spec_record(self, row: int) -> int {
        match self.family {
            Family::V4 => self.spec_row(row),
            Family::V6 => self.spec_row(row) + 12,
        }
    }

    /// The number of bytes that hold the first address of a row.
    pub open spec fn spec_key_len(self) -> usize {
        match self.family {
            Family::V4 => 4,
            Family::V6 => 16,
        }
    }

    /// The address that the first bytes of a row hold.
    pub open spec fn spec_key_of(self, bytes: Seq<u8>) -> u128 {
        match self.family {
            Family::V4 => spec_le_u32(bytes) as u128,
            Family::V6 => spec_le_u128(bytes),
        }
    }

    /// The first address of the range of a row.
    pub open spec fn spec_ip_from(self, data: Seq<u8>, row: int) -> Result<u128, Error> {
        match self.family {
            Family::V4 => match spec_read_u32(data, self.spec_row(row)) {
                Ok(a) => Ok(a as u128),
                Err(e) => Err(e),
            },
            Family::V6 => spec_read_ipv6(data, self.spec_row(row)),
        }
    }

    /// The address at which the range of a row ends: the first address of
    /// the next row.
    pub open spec fn spec_ip_to(self, data: Seq<u8>, row: int) -> Result<u128, Error> {
        self.spec_ip_from(data, row + 1)
    }

    /// Whether the range of a row holds `key`: its first address included,
    /// its end excluded.
    pub open spec fn holds(self, data: Seq<u8>, row: int, key: u128) -> bool {
        &&& self.spec_ip_from(data, row) matches Ok(from)
        &&& self.spec_ip_to(data, row) matches Ok(to)
        &&& from <= key < to
    }

    /// The first address of the range of a row that can be read.
    pub open spec fn spec_start(self, data: Seq<u8>, row: int) -> u128 {
        match self.spec_ip_from(data, row) {
            Ok(from) => from,
            Err(_) => 0,
        }
    }

    /// The rows from `low` to `high`, and the row behind them that closes
    /// the last range, lie within the image and are in the order of their
    /// first addresses. Ranges of such rows do not overlap.
    pub open spec fn sorted(self, data: Seq<u8>, low: int, high: int) -> bool {
        &&& forall|i: int| low <= i <= high + 1 ==> (#[trigger] self.spec_ip_from(data, i)) is Ok
        &&& forall|i: int, j: int|
            low <= i <= j <= high + 1 ==> #[trigger] self.spec_start(data, i)
                <= #[trigger] self.spec_start(data, j)
    }

    /// The position of the index entry for addresses that start with
    /// `prefix`: entries are 8 bytes each.
    pub open spec fn spec_slot(self, prefix: u16) -> int {
        prefix * 8 + self.index
    }

    /// The bounds between which an address that starts with `prefix` is
    /// searched for: the two numbers of its index entry, or, without an
    /// index, 0 and the row count.
    pub open spec fn spec_window(self, data: Seq<u8>, prefix: u16) -> Result<(u32, u32), Error> {
        if self.index > 0 {
            match spec_read_u32(data, self.spec_slot(prefix)) {
                Err(e) => Err(e),
                Ok(low) => match spec_read_u32(data, self.spec_slot(prefix) + 4) {
                    Err(e) => Err(e),
                    Ok(high) => Ok((low, high)),
                },
            }
        } else {
            Ok((0u32, self.count))
        }
    }

    /// The index leaves out no row: the bounds that it gives for an address
    /// lie within the table and include the row whose range holds the
    /// address, if there is one. Without an index this is true of every table.
    pub open spec fn index_covers(self, data: Seq<u8>) -> bool {
        forall|address: Address, row: int|
            address.spec_family() == self.family && 0 <= row <= self.count && #[trigger] self.holds(
                data,
                row,
                address.spec_key(),
            ) ==> (self.spec_window(data, address.spec_prefix()) matches Ok(bounds) && bounds.0
                <= row <= bounds.1 <= self.count)
    }

    /// What a lookup expects of a table: its rows are sorted, and its index
    /// leaves out none of them.
    pub open spec fn valid(self, data: Seq<u8>) -> bool {
        &&& self.sorted(data, 0, self.count as int)
        &&& self.index_covers(data)
    }

    /// The binary search for the row between `low` and `high`, both
    /// included, whose range holds `key`.
    ///
    /// The row in the middle, `(low + high) / 2`, is read together with the
    /// end of its range. The search ends there if that range holds `key`,
    /// goes on below the row if `key` lies before the range, and above it
    /// otherwise. It fails with `NotFound` once `low` exceeds `high`, and with
    /// an I/O error as soon as a row cannot be read.
    pub open spec fn spec_search(self, data: Seq<u8>, key: u128, low: int, high: int) -> Result<
        int,
        Error,
    >
        decreases high - low + 1,
    {
        if low > high {
            Err(Error::NotFound)
        } else {
            let mid = (low + high) / 2;
            match self.spec_ip_from(data, mid) {
                Err(e) => Err(e),
                Ok(from) => match self.spec_ip_to(data, mid) {
                    Err(e) => Err(e),
                    Ok(to) => if from <= key && key < to {
                        Ok(mid)
                    } else if key < from {
                        self.spec_search(data, key, low, mid - 1)
                    } else {
                        self.spec_search(data, key, mid + 1, high)
                    },
                },
            }
        }
    }

    /// The row whose range holds `address`, searched for within the bounds
    /// that the table gives for it.
    pub open spec fn spec_locate(self, data: Seq<u8>, address: Address) -> Result<int, Error> {
        match self.spec_window(data, address.spec_prefix()) {
            Err(e) => Err(e),
            Ok((low, high)) => self.spec_search(data, address.spec_key(), low as int, high as int),
        }
    }

    /// Whatever the rows hold, sorted or not, the search returns only a row
    /// between its bounds whose range holds the key, and fails only with
    /// `NotFound` or with an I/O error.
    pub proof fn lemma_search_returns_a_match(self, data: Seq<u8>, key: u128, low: int, high: int)
        ensures
            self.spec_search(data, key, low, high) matches Ok(row) ==> low <= row <= high
                && self.holds(data, row, key),
            self.spec_search(data, key, low, high) matches Err(e) ==> e == Error::NotFound || e
                == Error::IoError,
        decreases high - low + 1,
    {
        if low <= high {
            let mid = (low + high) / 2;
            self.lemma_search_returns_a_match(data, key, low, mid - 1);
            self.lemma_search_returns_a_match(data, key, mid + 1, high);
        }
    }

    /// A row whose number fits the table lies at a position that fits 64
    /// bits.
    pub proof fn lemma_row_bound(self, row: int)
        requires
            0 <= row <= 0x1_0000_0000,
        ensures
            0 <= self.spec_row(row) <= 0xFFFF_FFFF + 0x1_0000_0000 * 1032,
    {
        let width = self.spec_width();
        assert(0 <= row * width <= 0x1_0000_0000 * 1032) by (nonlinear_arith)
            requires
                0 <= row <= 0x1_0000_0000,
                0 <= width <= 1032,
        ;
    }

    /// The first address of a row is what the bytes at the row's position
    /// hold.
    pub proof fn lemma_ip_from(self, data: Seq<u8>, row: int)
        ensures
            self.spec_ip_from(data, row) == (match crate::store::spec_read(
                data,
                self.spec_row(row),
                self.spec_key_len() as int,
            ) {
                Ok(bytes) => Ok(self.spec_key_of(bytes)),
                Err(e) => Err(e),
            }),
    {
    }

    /// The number of bytes in a row.
    pub fn width(&self) -> (w: u64)
        ensures
            w == self.spec_width(),
            w <= 1032,
    {
        match self.family {
            Family::V4 => self.columns as u64 * 4,
            Family::V6 => self.columns as u64 * 4 + 12,
        }
    }

    /// The number of bytes that hold the first address of a row.
    pub fn key_len(&self) -> (len: usize)
        ensures
            len == self.spec_key_len(),
    {
        match self.family {
            Family::V4 => 4,
            Family::V6 => 16,
        }
    }

    /// Decodes the first address of a row from the bytes that hold it.
    pub(crate) fn key_of(&self, bytes: &[u8]) -> (key: u128)
        requires
            bytes@.len() == self.spec_key_len(),
        ensures
            key == self.spec_key_of(bytes@),
    {
        match self.family {
            Family::V4 => le_u32(bytes) as u128,
            Family::V6 => le_u128(bytes),
        }
    }

    /// The position of a row.
    pub(crate) fn row(&self, row: u64) -> (offset: u64)
        requires
            row <= 0x1_0000_0000,
        ensures
            offset == self.spec_row(row as int),
            offset <= 0xFFFF_FFFF + 0x1_0000_0000 * 1032,
    {
        let width: u64 = self.width();
        assert(row * width <= 0x1_0000_0000 * 1032) by (nonlinear_arith)
            requires
                row <= 0x1_0000_0000,
                width <= 1032,
        ;
        self.base as u64 + row * width
    }

    /// The position that stands for a row when its fields are decoded.
    pub fn record(&self, row: u32) -> (offset: u64)
        ensures
            offset == self.spec_record(row as int),
            offset <= 0xFFFF_FFFF + 0x1_0000_0000 * 1032 + 12,
    {
        match self.family {
            Family::V4 => self.row(row as u64),
            Family::V6 => self.row(row as u64) + 12,
        }
    }

    /// Reads the first address of the range of a row.
    fn key_at(&self, data: &[u8], row: u64) -> (r: Result<u128, Error>)
        requires
            row <= 0x1_0000_0000,
        ensures
            r == self.spec_ip_from(data@, row as int),
    {
        let offset: u64 = self.row(row);
        match self.family {
            Family::V4 => match read_u32(data, offset) {
                Ok(a) => Ok(a as u128),
                Err(e) => Err(e),
            },
            Family::V6 => read_ipv6(data, offset),
        }
    }

    /// Reads the first address of the range of a row.
    pub fn ip_from(&self, data: &[u8], row: u32) -> (r: Result<u128, Error>)
        ensures
            r == self.spec_ip_from(data@, row as int),
    {
        self.key_at(data, row as u64)
    }

    /// Reads the address at which the range of a row ends.
    pub fn ip_to(&self, data: &[u8], row: u32) -> (r: Result<u128, Error>)
        ensures
            r == self.spec_ip_to(data@, row as int),
    {
        self.key_at(data, row as u64 + 1)
    }

    /// Reads the bounds between which an address that starts with `prefix`
    /// is searched for.
    pub fn window(&self, data: &[u8], prefix: u16) -> (r: Result<(u32, u32), Error>)
        ensures
            r == self.spec_window(data@, prefix),
    {
        if self.index > 0 {
            let slot: u64 = prefix as u64 * 8 + self.index as u64;
            let low: u32 = read_u32(data, slot)?;
            let high: u32 = read_u32(data, slot + 4)?;
            Ok((low, high))
        } else {
            Ok((0, self.count))
        }
    }

    /// Searches the rows from `low` to `high`, both included, for the one
    /// whose range holds `key`.
    ///
    /// The rows need not be sorted for the search to end, nor for a row that
    /// it returns to hold `key`: it reads at most two rows for each halving of
    /// the bounds, and returns only a row that it has compared with `key`.
    pub fn search(&self, data: &[u8], key: u128, low: u32, high: u32) -> (r: Result<u32, Error>)
        ensures
            r matches Ok(row) ==> self.spec_search(data@, key, low as int, high as int) == Ok::<
                int,
                Error,
            >(row as int),
            r matches Err(e) ==> self.spec_search(data@, key, low as int, high as int) == Err::<
                int,
                Error,
            >(e),
            r matches Ok(row) ==> low <= row <= high && self.holds(data@, row as int, key),
            r matches Err(e) ==> e == Error::NotFound || e == Error::IoError,
    {
        proof {
            self.lemma_search_returns_a_match(data@, key, low as int, high as int);
        }
        let mut lo: u64 = low as u64;
        let mut hi: u64 = high as u64;
        while lo <= hi
            invariant
                lo <= 0x1_0000_0000,
                hi <= 0xFFFF_FFFF,
                self.spec_search(data@, key, lo as int, hi as int) == self.spec_search(
                    data@,
                    key,
                    low as int,
                    high as int,
                ),
            decreases hi + 1 - lo,
        {
            let mid: u64 = (lo + hi) / 2;
            let from: u128 = self.key_at(data, mid)?;
            let to: u128 = self.key_at(data, mid + 1)?;
            if from <= key && key < to {
                proof {
                    self.lemma_search_returns_a_match(data@, key, low as int, high as int);
                }
                return Ok(mid as u32);
            }
            if key < from {
                if mid == 0 {
                    assert(self.spec_search(data@, key, lo as int, -1) == Err::<int, Error>(
                        Error::NotFound,
                    ));
                    return Err(Error::NotFound);
                }
                hi = mid - 1;
            } else {
                lo = mid + 1;
            }
        }
        Err(Error::NotFound)
    }

    /// Finds the row whose range holds `address`.
    pub fn locate(&self, data: &[u8], address: &Address) -> (r: Result<u32, Error>)
        ensures
            r matches Ok(row) ==> self.spec_locate(data@, *address) == Ok::<int, Error>(row as int),
            r matches Err(e) ==> self.spec_locate(data@, *address) == Err::<int, Error>(e),
            r matches Ok(row) ==> self.holds(data@, row as int, address.spec_key()),
    {
        let (low, high) = self.window(data, address.prefix())?;
        self.search(data, address.key(), low, high)
    }
}

} // verus!
