//! What holds of every lookup.
use vstd::prelude::*;
use crate::db::DBView;
use crate::decode::{spec_first_error, spec_read_field, spec_read_record, spec_record};
use crate::error::Error;
use crate::header::Header;
use crate::lookup::{spec_ip_lookup, spec_lookup};
use crate::record::PLACEHOLDER;
use crate::schema::Field;
use crate::search::{Address, Family, Table};

verus! {

/// In rows that are sorted, at most one range holds a key.
pub proof fn lemma_one_range_holds(
    table: Table,
    data: Seq<u8>,
    key: u128,
    low: int,
    high: int,
    a: int,
    b: int,
)
    requires
        table.sorted(data, low, high),
        low <= a <= high,
        low <= b <= high,
        table.holds(data, a, key),
        table.holds(data, b, key),
    ensures
        a == b,
{
    if a < b {
        assert(table.spec_start(data, a + 1) <= table.spec_start(data, b));
    } else if b < a {
        assert(table.spec_start(data, b + 1) <= table.spec_start(data, a));
    }
}

/// In rows that are sorted, the search finds the row whose range holds the
/// key.
pub proof fn lemma_search_finds_the_row(
    table: Table,
    data: Seq<u8>,
    key: u128,
    low: int,
    high: int,
    row: int,
)
    requires
        table.sorted(data, low, high),
        low <= row <= high,
        table.holds(data, row, key),
    ensures
        table.spec_search(data, key, low, high) == Ok::<int, Error>(row),
    decreases high - low + 1,
{
    let mid = (low + high) / 2;
    assert(table.spec_ip_from(data, mid) is Ok);
    assert(table.spec_ip_from(data, mid + 1) is Ok);
    let from = table.spec_start(data, mid);
    let to = table.spec_start(data, mid + 1);
    if from <= key && key < to {
        lemma_one_range_holds(table, data, key, low, high, mid, row);
    } else if key < from {
        if row >= mid {
            assert(table.spec_start(data, mid) <= table.spec_start(data, row));
        }
        lemma_search_finds_the_row(table, data, key, low, mid - 1, row);
    } else {
        if row < mid {
            assert(table.spec_start(data, row + 1) <= table.spec_start(data, mid));
        }
        lemma_search_finds_the_row(table, data, key, mid + 1, high, row);
    }
}

/// No range of an IPv4 table holds 255.255.255.255: a range ends before a
/// 32-bit number.
pub proof fn lemma_no_range_holds_the_last_ipv4_address(table: Table, data: Seq<u8>, row: int)
    requires
        table.family == Family::V4,
    ensures
        !table.holds(data, row, 0xFFFF_FFFF),
{
}

/// For every address inside the range of a row, the first address of the
/// range included and its end excluded, the lookup returns the record of that
/// row, given that the rows between the bounds of the search are sorted and
/// the row is one of them.
pub proof fn lemma_lookup_returns_the_row(
    data: Seq<u8>,
    header: Header,
    address: Address,
    row: int,
)
    requires
        ({
            let table = header.spec_table(address.spec_family());
            &&& table.spec_window(data, address.spec_prefix()) matches Ok(bounds)
            &&& table.sorted(data, bounds.0 as int, bounds.1 as int)
            &&& bounds.0 <= row <= bounds.1
            &&& table.holds(data, row, address.spec_key())
        }),
    ensures
        spec_ip_lookup(data, header, address) == spec_read_record(
            data,
            header.db_type,
            header.spec_table(address.spec_family()).spec_record(row),
        ),
{
    let table = header.spec_table(address.spec_family());
    let bounds = table.spec_window(data, address.spec_prefix())->Ok_0;
    lemma_search_finds_the_row(
        table,
        data,
        address.spec_key(),
        bounds.0 as int,
        bounds.1 as int,
        row,
    );
    match address {
        Address::V4(ip_number) => {
            lemma_no_range_holds_the_last_ipv4_address(table, data, row);
        },
        Address::V6(_) => {},
    }
}

/// In a table that is valid, the lookup of every address inside the range of
/// a row returns the record of that row.
pub proof fn lemma_lookup_in_valid_table(
    data: Seq<u8>,
    header: Header,
    address: Address,
    row: int,
)
    requires
        ({
            let table = header.spec_table(address.spec_family());
            &&& table.valid(data)
            &&& 0 <= row <= table.count
            &&& table.holds(data, row, address.spec_key())
        }),
    ensures
        spec_ip_lookup(data, header, address) == spec_read_record(
            data,
            header.db_type,
            header.spec_table(address.spec_family()).spec_record(row),
        ),
{
    let table = header.spec_table(address.spec_family());
    let bounds = table.spec_window(data, address.spec_prefix())->Ok_0;
    assert forall|i: int, j: int| bounds.0 <= i <= j <= bounds.1 + 1 implies #[trigger]
        table.spec_start(data, i) <= #[trigger] table.spec_start(data, j) by {
        assert(0 <= i <= j <= table.count + 1);
    }
    assert forall|i: int| bounds.0 <= i <= bounds.1 + 1 implies (#[trigger] table.spec_ip_from(
        data,
        i,
    )) is Ok by {
        assert(0 <= i <= table.count + 1);
    }
    lemma_lookup_returns_the_row(data, header, address, row);
}

/// A table without an index is valid as soon as its rows are sorted.
pub proof fn lemma_table_without_index_is_valid(table: Table, data: Seq<u8>)
    requires
        table.index == 0,
        table.sorted(data, 0, table.count as int),
    ensures
        table.valid(data),
{
}

/// The first address of a range that is not empty belongs to it: looked up,
/// it gives the record of the range's row.
pub proof fn lemma_lookup_of_range_start(
    data: Seq<u8>,
    header: Header,
    address: Address,
    row: int,
)
    requires
        ({
            let table = header.spec_table(address.spec_family());
            &&& table.spec_window(data, address.spec_prefix()) matches Ok(bounds)
            &&& table.sorted(data, bounds.0 as int, bounds.1 as int)
            &&& bounds.0 <= row <= bounds.1
            &&& table.spec_ip_from(data, row) == Ok::<u128, Error>(address.spec_key())
            &&& table.spec_start(data, row) < table.spec_start(data, row + 1)
        }),
    ensures
        spec_ip_lookup(data, header, address) == spec_read_record(
            data,
            header.db_type,
            header.spec_table(address.spec_family()).spec_record(row),
        ),
{
    let table = header.spec_table(address.spec_family());
    assert(table.spec_ip_from(data, row + 1) is Ok);
    lemma_lookup_returns_the_row(data, header, address, row);
}

/// The end of a range does not belong to it: looked up, it gives the record
/// of the next row, given that the next range is not empty.
pub proof fn lemma_lookup_of_range_end(
    data: Seq<u8>,
    header: Header,
    address: Address,
    row: int,
)
    requires
        ({
            let table = header.spec_table(address.spec_family());
            &&& table.spec_window(data, address.spec_prefix()) matches Ok(bounds)
            &&& table.sorted(data, bounds.0 as int, bounds.1 as int)
            &&& bounds.0 <= row < bounds.1
            &&& table.spec_ip_to(data, row) == Ok::<u128, Error>(address.spec_key())
            &&& table.spec_start(data, row + 1) < table.spec_start(data, row + 2)
        }),
    ensures
        !header.spec_table(address.spec_family()).holds(data, row, address.spec_key()),
        spec_ip_lookup(data, header, address) == spec_read_record(
            data,
            header.db_type,
            header.spec_table(address.spec_family()).spec_record(row + 1),
        ),
{
    let table = header.spec_table(address.spec_family());
    assert(table.spec_ip_from(data, row + 2) is Ok);
    lemma_lookup_returns_the_row(data, header, address, row + 1);
}

/// 255.255.255.255 and 255.255.255.254 give the same result in every
/// database.
pub proof fn lemma_last_ipv4_addresses_agree(data: Seq<u8>, header: Header)
    ensures
        spec_ip_lookup(data, header, Address::V4(0xFFFF_FFFF)) == spec_ip_lookup(
            data,
            header,
            Address::V4(0xFFFF_FFFE),
        ),
{
}

/// A record that a lookup returns is the record of a row whose range holds
/// the address that was searched for, whatever the image holds.
pub proof fn lemma_lookup_returns_a_match(data: Seq<u8>, header: Header, address: Address)
    requires
        spec_lookup(data, header, address) is Ok,
    ensures
        ({
            let table = header.spec_table(address.spec_family());
            &&& table.spec_locate(data, address) matches Ok(row)
            &&& table.holds(data, row, address.spec_key())
            &&& spec_lookup(data, header, address) == spec_read_record(
                data,
                header.db_type,
                table.spec_record(row),
            )
        }),
{
    let table = header.spec_table(address.spec_family());
    let bounds = table.spec_window(data, address.spec_prefix())->Ok_0;
    table.lemma_search_returns_a_match(data, address.spec_key(), bounds.0 as int, bounds.1 as int);
}

/// Where no field fails from the `k`-th on, each of them can be decoded.
proof fn lemma_no_error_from(data: Seq<u8>, db_type: u8, row: int, k: int, j: int)
    requires
        0 <= k <= j < 13,
        spec_first_error(data, db_type, row, k) is None,
    ensures
        spec_read_field(data, db_type, row, Field::spec_nth(j)) is Ok,
    decreases j - k,
{
    if k < j {
        lemma_no_error_from(data, db_type, row, k + 1, j);
    }
}

/// A record that was decoded holds, for each field, exactly the text that
/// the row gives for that field.
pub proof fn lemma_record_holds_each_field(data: Seq<u8>, db_type: u8, row: int, field: Field)
    requires
        spec_read_record(data, db_type, row) is Ok,
    ensures
        spec_read_record(data, db_type, row) matches Ok(record) && spec_read_field(
            data,
            db_type,
            row,
            field,
        ) == Ok::<Seq<char>, Error>(record.field(field)),
{
    lemma_no_error_from(data, db_type, row, 0, field.spec_rank());
    assert(Field::spec_nth(field.spec_rank()) == field);
}

/// A field that databases of the type at hand do not carry is the
/// placeholder in every record, whatever the row holds.
pub proof fn lemma_absent_field_is_placeholder(
    data: Seq<u8>,
    db_type: u8,
    row: int,
    field: Field,
)
    requires
        field.spec_position(db_type) == 0,
    ensures
        spec_read_record(data, db_type, row) matches Ok(record) ==> record.field(field)
            == PLACEHOLDER@,
{
    if spec_read_record(data, db_type, row) is Ok {
        lemma_record_holds_each_field(data, db_type, row, field);
    }
}

/// A field that the database does not carry is the placeholder in every
/// record that a lookup returns.
pub proof fn lemma_lookup_gives_placeholder(
    data: Seq<u8>,
    header: Header,
    address: Address,
    field: Field,
)
    requires
        field.spec_position(header.db_type) == 0,
    ensures
        spec_ip_lookup(data, header, address) matches Ok(record) ==> record.field(field)
            == PLACEHOLDER@,
{
    let searched = match address {
        Address::V4(ip_number) => Address::V4(crate::lookup::spec_ipv4_key(ip_number)),
        Address::V6(_) => address,
    };
    let table = header.spec_table(searched.spec_family());
    match table.spec_locate(data, searched) {
        Ok(row) => {
            lemma_absent_field_is_placeholder(data, header.db_type, table.spec_record(row), field);
        },
        Err(_) => {},
    }
}

/// Two handles on the same image give the same preamble and the same answer
/// to every lookup, whether the image is held in a buffer or seen through a
/// memory map.
pub proof fn lemma_stores_agree(a: DBView, b: DBView, address: Address)
    requires
        a.wf(),
        b.wf(),
        a.image == b.image,
    ensures
        a.header == b.header,
        a.lookup(address) == b.lookup(address),
{
}

} // verus!
