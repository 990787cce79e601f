//! From an address to its record.
use vstd::prelude::*;
use crate::decode::{read_record, record_view, spec_read_record};
use crate::error::Error;
use crate::header::Header;
use crate::record::{Record, RecordView};
use crate::search::{Address, Table};

verus! {

/// The record of the row between `low` and `high` whose range holds `key`.
pub open spec fn spec_found(
    data: Seq<u8>,
    table: Table,
    db_type: u8,
    key: u128,
    low: int,
    high: int,
) -> Result<RecordView, Error> {
    match table.spec_search(data, key, low, high) {
        Err(e) => Err(e),
        Ok(row) => spec_read_record(data, db_type, table.spec_record(row)),
    }
}

/// One step of the search: the row in the middle of the bounds is read and
/// compared, and the search ends there or goes on to one side of it.
pub proof fn lemma_found_step(
    data: Seq<u8>,
    table: Table,
    db_type: u8,
    key: u128,
    low: int,
    high: int,
)
    requires
        low <= high,
    ensures
        spec_found(data, table, db_type, key, low, high) == (match table.spec_ip_from(
            data,
            (low + high) / 2,
        ) {
            Err(e) => Err(e),
            Ok(from) => match table.spec_ip_to(data, (low + high) / 2) {
                Err(e) => Err(e),
                Ok(to) => if from <= key && key < to {
                    spec_read_record(data, db_type, table.spec_record((low + high) / 2))
                } else if key < from {
                    spec_found(data, table, db_type, key, low, (low + high) / 2 - 1)
                } else {
                    spec_found(data, table, db_type, key, (low + high) / 2 + 1, high)
                },
            },
        }),
{
}

/// The record of the row whose range holds `address`, in the table of the
/// address's family.
pub open spec fn spec_lookup(data: Seq<u8>, header: Header, address: Address) -> Result<
    RecordView,
    Error,
> {
    let table = header.spec_table(address.spec_family());
    match table.spec_window(data, address.spec_prefix()) {
        Err(e) => Err(e),
        Ok((low, high)) => spec_found(
            data,
            table,
            header.db_type,
            address.spec_key(),
            low as int,
            high as int,
        ),
    }
}

/// The IPv4 address that is searched for in place of `ip_number`: the
/// address itself, but for 255.255.255.255, which no range holds and which is
/// looked up as 255.255.255.254.
pub open spec fn spec_ipv4_key(ip_number: u32) -> u32 {
    if ip_number == u32::MAX {
        (ip_number - 1) as u32
    } else {
        ip_number
    }
}

/// The record of an IPv4 address.
pub open spec fn spec_ipv4_lookup(data: Seq<u8>, header: Header, ip_number: u32) -> Result<
    RecordView,
    Error,
> {
    spec_lookup(data, header, Address::V4(spec_ipv4_key(ip_number)))
}

/// The record of an IPv6 address.
pub open spec fn spec_ipv6_lookup(data: Seq<u8>, header: Header, ipv6: u128) -> Result<
    RecordView,
    Error,
> {
    spec_lookup(data, header, Address::V6(ipv6))
}

/// The record of an address of either family.
pub open spec fn spec_ip_lookup(data: Seq<u8>, header: Header, address: Address) -> Result<
    RecordView,
    Error,
> {
    match address {
        Address::V4(ip_number) => spec_ipv4_lookup(data, header, ip_number),
        Address::V6(ipv6) => spec_ipv6_lookup(data, header, ipv6),
    }
}

/// Finds the row of `address` and decodes it.
fn lookup(data: &[u8], header: &Header, address: Address) -> (r: Result<Record, Error>)
    ensures
        record_view(r) == spec_lookup(data@, *header, address),
        r matches Ok(record) ==> record@.keeps_placeholders(header.db_type),
{
    let table = header.table(address.family());
    let row: u32 = table.locate(data, &address)?;
    read_record(data, header.db_type, table.record(row))
}

/// Looks an IPv4 address up in the image `data` of a database with the
/// preamble `header`.
///
/// Fails with `NotFound` where the search ends without a range that holds
/// the address, with `IoError` where it is led outside the image, and with
/// `DecodeError` where a string of the row found is not valid UTF-8.
pub fn ipv4_lookup(data: &[u8], header: &Header, ip_number: u32) -> (r: Result<Record, Error>)
    ensures
        record_view(r) == spec_ipv4_lookup(data@, *header, ip_number),
        r matches Ok(record) ==> record@.keeps_placeholders(header.db_type),
{
    let key: u32 = if ip_number == u32::MAX {
        ip_number - 1
    } else {
        ip_number
    };
    lookup(data, header, Address::V4(key))
}

/// Looks an IPv6 address up in the image `data` of a database with the
/// preamble `header`. It fails as `ipv4_lookup` does.
pub fn ipv6_lookup(data: &[u8], header: &Header, ipv6: u128) -> (r: Result<Record, Error>)
    ensures
        record_view(r) == spec_ipv6_lookup(data@, *header, ipv6),
        r matches Ok(record) ==> record@.keeps_placeholders(header.db_type),
{
    lookup(data, header, Address::V6(ipv6))
}

} // verus!
