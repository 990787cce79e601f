use ip2proxy::db::DB;
use ip2proxy::decode::{read_field, read_record};
use ip2proxy::error::Error;
use ip2proxy::header::read_header;
use ip2proxy::lookup::{ipv4_lookup, ipv6_lookup};
use ip2proxy::record::{Record, PLACEHOLDER};
use ip2proxy::schema::Field;
use ip2proxy::search::{Address, Family, Table};
use ip2proxy::stepwise::run;
use ip2proxy::store::Store;

/// An image under construction. Strings are laid down first, then tables.
struct Image {
    bytes: Vec<u8>,
    db_type: u8,
    columns: u8,
    year: u8,
    v4: (u32, u32, u32),
    v6: (u32, u32, u32),
}

impl Image {
    fn new(db_type: u8, columns: u8) -> Image {
        Image { bytes: vec![0u8; 64], db_type, columns, year: 20, v4: (0, 0, 0), v6: (0, 0, 0) }
    }

    /// Lays down a length-prefixed string and returns the pointer to it.
    fn raw(&mut self, text: &[u8]) -> u32 {
        let pointer = self.bytes.len() as u32;
        self.bytes.push(text.len() as u8);
        self.bytes.extend_from_slice(text);
        pointer
    }

    fn text(&mut self, text: &str) -> u32 {
        self.raw(text.as_bytes())
    }

    /// Lays down a country: the short name in a slot of three bytes, then
    /// the long name.
    fn country(&mut self, short: &str, long: &str) -> u32 {
        assert!(short.len() <= 2);
        let pointer = self.bytes.len() as u32;
        self.bytes.push(short.len() as u8);
        self.bytes.extend_from_slice(short.as_bytes());
        while self.bytes.len() < pointer as usize + 3 {
            self.bytes.push(0);
        }
        self.raw(long.as_bytes());
        pointer
    }

    fn row(&mut self, pointers: &[u32]) {
        assert!(pointers.len() < self.columns.max(1) as usize);
        for column in 0..self.columns.saturating_sub(1) as usize {
            let pointer = pointers.get(column).copied().unwrap_or(0);
            self.bytes.extend_from_slice(&pointer.to_le_bytes());
        }
    }

    /// Lays down the IPv4 table. `count` goes into the preamble.
    fn table_v4(&mut self, count: u32, rows: &[(u32, Vec<u32>)]) {
        self.v4.0 = count;
        self.v4.1 = self.bytes.len() as u32 + 1;
        for (from, pointers) in rows {
            self.bytes.extend_from_slice(&from.to_le_bytes());
            self.row(pointers);
        }
    }

    fn table_v6(&mut self, count: u32, rows: &[(u128, Vec<u32>)]) {
        self.v6.0 = count;
        self.v6.1 = self.bytes.len() as u32 + 1;
        for (from, pointers) in rows {
            self.bytes.extend_from_slice(&from.to_le_bytes());
            self.row(pointers);
        }
    }

    /// Lays down an index with the same bounds for every prefix but those
    /// listed.
    fn index(&mut self, family: Family, all: (u32, u32), some: &[(u16, (u32, u32))]) {
        // keep the second byte of the index position, which is also read as
        // the product code, at 0
        while (self.bytes.len() + 1) & 0xFF00 != 0 {
            self.bytes.push(0);
        }
        let base = self.bytes.len() as u32 + 1;
        for prefix in 0..=0xFFFFu16 {
            let (low, high) =
                some.iter().find(|(p, _)| *p == prefix).map(|(_, b)| *b).unwrap_or(all);
            self.bytes.extend_from_slice(&low.to_le_bytes());
            self.bytes.extend_from_slice(&high.to_le_bytes());
        }
        match family {
            Family::V4 => self.v4.2 = base,
            Family::V6 => self.v6.2 = base,
        }
    }

    fn finish(mut self) -> Vec<u8> {
        self.bytes[0] = self.db_type;
        self.bytes[1] = self.columns;
        self.bytes[2] = self.year;
        self.bytes[3] = 6;
        self.bytes[4] = 30;
        self.bytes[5..9].copy_from_slice(&self.v4.0.to_le_bytes());
        self.bytes[9..13].copy_from_slice(&self.v4.1.to_le_bytes());
        self.bytes[13..17].copy_from_slice(&self.v6.0.to_le_bytes());
        self.bytes[17..21].copy_from_slice(&self.v6.1.to_le_bytes());
        self.bytes[21..25].copy_from_slice(&self.v4.2.to_le_bytes());
        self.bytes[25..29].copy_from_slice(&self.v6.2.to_le_bytes());
        self.bytes
    }
}

fn v4(a: u8, b: u8, c: u8, d: u8) -> u32 {
    u32::from_be_bytes([a, b, c, d])
}

fn open(image: &[u8]) -> DB {
    DB::from_file("test.bin", image.to_vec()).unwrap()
}

fn mapped(bytes: &[u8]) -> memmap::Mmap {
    let mut map = memmap::MmapMut::map_anon(bytes.len()).unwrap();
    map.copy_from_slice(bytes);
    map.make_read_only().unwrap()
}

fn record(ip: &str, is_proxy: i8, fields: &[(Field, &str)]) -> Record {
    let mut r = Record::new_empty();
    r.ip = ip.to_string();
    r.is_proxy = is_proxy;
    for (field, text) in fields {
        r = r.with_field(*field, text.to_string());
    }
    r
}

/// One IPv4 row, 10.0.0.0 up to 10.0.0.1, in a database of type 1.
fn one_row(short: &str, long: &str) -> Vec<u8> {
    let mut image = Image::new(1, 2);
    let country = image.country(short, long);
    image.table_v4(
        1,
        &[
            (v4(10, 0, 0, 0), vec![country]),
            (v4(10, 0, 0, 1), vec![country]),
            (v4(10, 0, 0, 1), vec![country]),
            (v4(10, 0, 0, 1), vec![country]),
        ],
    );
    image.finish()
}

#[test]
fn type_1_row_without_country_is_no_proxy() {
    let db = open(&one_row("-", "-"));
    let found = db.ip_lookup("10.0.0.0", Address::V4(v4(10, 0, 0, 0))).unwrap();
    assert_eq!(found.is_proxy, 0);
    assert_eq!(
        found,
        record("10.0.0.0", 0, &[(Field::CountryShort, "-"), (Field::CountryLong, "-")])
    );
    assert_eq!(found.proxy_type, PLACEHOLDER);
}

#[test]
fn type_1_row_with_country_is_a_proxy() {
    // a database of type 1 has no column for the proxy type, which stays the
    // placeholder: the class is 1
    let db = open(&one_row("US", "United States of America"));
    let found = db.ip_lookup("10.0.0.0", Address::V4(v4(10, 0, 0, 0))).unwrap();
    assert_eq!(
        found,
        record(
            "10.0.0.0",
            1,
            &[(Field::CountryShort, "US"), (Field::CountryLong, "United States of America")]
        )
    );
}

#[test]
fn data_centre_row_is_class_2() {
    // type 2: the proxy type in column 2, the country in column 3
    let mut image = Image::new(2, 3);
    let us = image.country("US", "United States of America");
    let none = image.country("-", "-");
    let dch = image.text("DCH");
    let ses = image.text("SES");
    let vpn = image.text("VPN");
    let dash = image.text("-");
    image.table_v4(
        4,
        &[
            (v4(10, 0, 0, 0), vec![dch, us]),
            (v4(10, 0, 0, 1), vec![ses, none]),
            (v4(10, 0, 0, 2), vec![vpn, us]),
            (v4(10, 0, 0, 3), vec![dash, us]),
            (v4(10, 0, 0, 4), vec![dash, none]),
            (v4(10, 0, 0, 4), vec![dash, none]),
        ],
    );
    let db = open(&image.finish());
    let class = |d: u8| db.ip_lookup("x", Address::V4(v4(10, 0, 0, d))).unwrap();
    assert_eq!(
        class(0),
        record(
            "x",
            2,
            &[
                (Field::CountryShort, "US"),
                (Field::CountryLong, "United States of America"),
                (Field::ProxyType, "DCH")
            ]
        )
    );
    // the country "-" decides nothing in a database of another type than 1
    assert_eq!(class(1).is_proxy, 2);
    assert_eq!(class(1).country_short, "-");
    assert_eq!(class(2).is_proxy, 1);
    assert_eq!(class(3).is_proxy, 0);
    assert_eq!(class(3).country_short, "US");
}

#[test]
fn lookup_outside_the_only_row_finds_nothing() {
    let db = open(&one_row("-", "-"));
    for address in [v4(9, 255, 255, 255), v4(10, 0, 0, 1), v4(10, 0, 0, 2), 0, u32::MAX] {
        assert_eq!(db.ip_lookup("a", Address::V4(address)), Err(Error::NotFound));
    }
    // the preamble gives the IPv6 table the position 0, which is no position
    assert_eq!(db.ip_lookup("a", Address::V6(1)), Err(Error::IoError));
}

const TEXTS: [&str; 5] = ["zero", "one", "two", "three", "four"];

/// A database of type 11 with five IPv4 and three IPv6 ranges. Every field of
/// row `i` is `"<field><i>"`, so that each value names its row and column.
fn full(index: bool) -> Vec<u8> {
    let mut image = Image::new(11, 13);
    let mut rows: Vec<Vec<u32>> = Vec::new();
    for i in 0..5 {
        let country = image.country(&format!("C{}", i), &format!("Country {}", TEXTS[i]));
        let mut pointers = vec![image.text(if i == 0 { "-" } else { "PUB" }), country];
        for name in [
            "region", "city", "isp", "domain", "usage", "asname", "asn", "seen", "threat",
            "provider",
        ] {
            pointers.push(image.text(&format!("{}{}", name, i)));
        }
        rows.push(pointers);
    }
    let starts = [0, v4(1, 0, 0, 0), v4(1, 0, 1, 0), v4(8, 8, 8, 0), v4(8, 8, 9, 0)];
    let mut v4_rows: Vec<(u32, Vec<u32>)> =
        starts.iter().zip(rows.iter()).map(|(s, p)| (*s, p.clone())).collect();
    v4_rows.push((u32::MAX, vec![]));
    v4_rows.push((u32::MAX, vec![]));
    image.table_v4(5, &v4_rows);
    let starts6: [u128; 3] =
        [0, 0x2001_0db8 << 96, (0x2001_0db8 << 96) + (1 << 80)];
    let mut v6_rows: Vec<(u128, Vec<u32>)> =
        starts6.iter().zip(rows.iter()).map(|(s, p)| (*s, p.clone())).collect();
    v6_rows.push((u128::MAX, vec![]));
    v6_rows.push((u128::MAX, vec![]));
    image.table_v6(3, &v6_rows);
    if index {
        image.index(Family::V4, (0, 5), &[(0x0808, (2, 4)), (0x0100, (1, 2)), (0x0A0A, (5, 4))]);
        image.index(Family::V6, (0, 3), &[(0x2001, (0, 2)), (0x3000, (0, 1))]);
    }
    image.finish()
}

fn full_row(ip: &str, i: usize) -> Record {
    let n = |name: &str| format!("{}{}", name, i);
    Record {
        ip: ip.to_string(),
        is_proxy: if i == 0 { 0 } else { 1 },
        country_short: format!("C{}", i),
        country_long: format!("Country {}", TEXTS[i]),
        region: n("region"),
        city: n("city"),
        isp: n("isp"),
        proxy_type: if i == 0 { "-".to_string() } else { "PUB".to_string() },
        usage_type: n("usage"),
        as_name: n("asname"),
        asn: n("asn"),
        last_seen: n("seen"),
        domain: n("domain"),
        threat: n("threat"),
        provider: n("provider"),
    }
}

#[test]
fn address_inside_a_range_gives_the_row() {
    for index in [false, true] {
        let db = open(&full(index));
        let cases = [
            (v4(0, 0, 0, 1), 0),
            (v4(0, 255, 255, 255), 0),
            (v4(1, 0, 0, 77), 1),
            (v4(1, 0, 0, 255), 1),
            (v4(1, 2, 3, 4), 2),
            (v4(8, 8, 7, 255), 2),
            (v4(8, 8, 8, 8), 3),
            (v4(8, 8, 8, 255), 3),
            (v4(200, 1, 2, 3), 4),
            (v4(255, 255, 255, 254), 4),
        ];
        for (address, row) in cases {
            assert_eq!(db.ip_lookup("ip", Address::V4(address)), Ok(full_row("ip", row)));
        }
    }
}

#[test]
fn range_start_is_inside_and_range_end_outside() {
    for index in [false, true] {
        let db = open(&full(index));
        let starts = [0, v4(1, 0, 0, 0), v4(1, 0, 1, 0), v4(8, 8, 8, 0), v4(8, 8, 9, 0)];
        for (row, start) in starts.iter().enumerate() {
            assert_eq!(db.ip_lookup("s", Address::V4(*start)), Ok(full_row("s", row)));
            if row > 0 {
                // the address before the start is the last of the row before
                assert_eq!(
                    db.ip_lookup("s", Address::V4(start - 1)),
                    Ok(full_row("s", row - 1))
                );
            }
        }
    }
}

#[test]
fn last_ipv4_address_is_looked_up_as_the_one_before() {
    for index in [false, true] {
        let db = open(&full(index));
        let last = db.ip_lookup("255.255.255.255", Address::V4(u32::MAX));
        assert_eq!(last, Ok(full_row("255.255.255.255", 4)));
        let before = db.ip_lookup("255.255.255.255", Address::V4(u32::MAX - 1));
        assert_eq!(last, before);
    }
    // also where nothing is found
    let db = open(&one_row("-", "-"));
    assert_eq!(
        db.ip_lookup("a", Address::V4(u32::MAX)),
        db.ip_lookup("a", Address::V4(u32::MAX - 1))
    );
}

#[test]
fn ipv6_ranges_are_searched_alike() {
    for index in [false, true] {
        let db = open(&full(index));
        let base: u128 = 0x2001_0db8 << 96;
        let cases = [
            (0u128, 0usize),
            (1, 0),
            (base - 1, 0),
            (base, 1),
            (base + 5, 1),
            (base + (1 << 80) - 1, 1),
            (base + (1 << 80), 2),
            (0x2a00 << 112, 2),
            (u128::MAX - 1, 2),
        ];
        for (address, row) in cases {
            assert_eq!(db.ip_lookup("v6", Address::V6(address)), Ok(full_row("v6", row)));
        }
        assert_eq!(db.ip_lookup("v6", Address::V6(u128::MAX)), Err(Error::NotFound));
    }
}

#[test]
fn index_bounds_are_honoured() {
    let db = open(&full(true));
    // the entry of 10.10.x.x is (5, 4): nothing is searched
    assert_eq!(db.ip_lookup("i", Address::V4(v4(10, 10, 0, 1))), Err(Error::NotFound));
    // without the index the same address lies in row 4
    assert_eq!(
        open(&full(false)).ip_lookup("i", Address::V4(v4(10, 10, 0, 1))),
        Ok(full_row("i", 4))
    );
    // the entry of 3000::/16 is (0, 1), which leaves out row 2
    assert_eq!(db.ip_lookup("i", Address::V6(0x3000 << 112)), Err(Error::NotFound));
    assert_eq!(
        open(&full(false)).ip_lookup("i", Address::V6(0x3000 << 112)),
        Ok(full_row("i", 2))
    );
}

#[test]
fn window_reads_the_index_entry_of_the_prefix() {
    let image = full(true);
    let header = read_header(&image).unwrap();
    let table = header.table(Family::V4);
    assert_eq!(table.window(&image, 0x0808), Ok((2, 4)));
    assert_eq!(table.window(&image, 0x0100), Ok((1, 2)));
    assert_eq!(table.window(&image, 0x0001), Ok((0, 5)));
    assert_eq!(table.window(&image, 0xFFFF), Ok((0, 5)));
    let table6 = header.table(Family::V6);
    assert_eq!(table6.window(&image, 0x2001), Ok((0, 2)));
    // an index that ends before the entry
    let short = &image[..table6.index as usize + 8 * 0x2001 + 6];
    assert_eq!(table6.window(short, 0x2001), Err(Error::IoError));
    assert_eq!(table6.window(short, 0x2000), Ok((0, 3)));
    // no index: 0 and the row count
    let plain = full(false);
    let header = read_header(&plain).unwrap();
    assert_eq!(header.table(Family::V4).window(&plain, 0x0808), Ok((0, 5)));
    assert_eq!(header.table(Family::V6).window(&plain, 0x0808), Ok((0, 3)));
}

#[test]
fn rows_lie_at_base_plus_row_times_width() {
    let t4 = Table { family: Family::V4, columns: 6, count: 9, base: 65, index: 0 };
    assert_eq!(t4.width(), 24);
    assert_eq!(t4.record(0), 65);
    assert_eq!(t4.record(3), 65 + 3 * 24);
    assert_eq!(t4.key_len(), 4);
    let t6 = Table { family: Family::V6, columns: 6, count: 9, base: 65, index: 0 };
    assert_eq!(t6.width(), 36);
    assert_eq!(t6.record(0), 65 + 12);
    assert_eq!(t6.record(3), 65 + 3 * 36 + 12);
    assert_eq!(t6.key_len(), 16);
    let wide = Table { family: Family::V6, columns: 255, count: 0, base: u32::MAX, index: 0 };
    assert_eq!(wide.width(), 1032);
    assert_eq!(wide.record(u32::MAX), u32::MAX as u64 + u32::MAX as u64 * 1032 + 12);
}

#[test]
fn address_gives_key_prefix_and_family() {
    let a = Address::V4(0x0A0B_0C0D);
    assert_eq!(a.key(), 0x0A0B_0C0D);
    assert_eq!(a.prefix(), 0x0A0B);
    assert_eq!(a.family(), Family::V4);
    assert_eq!(Address::V4(u32::MAX).prefix(), 0xFFFF);
    assert_eq!(Address::V4(0xFFFF).prefix(), 0);
    let b = Address::V6(0x2001_0db8_0000_0000_0000_0000_0000_0001);
    assert_eq!(b.key(), 0x2001_0db8_0000_0000_0000_0000_0000_0001);
    assert_eq!(b.prefix(), 0x2001);
    assert_eq!(b.family(), Family::V6);
    assert_eq!(Address::V6(u128::MAX).prefix(), 0xFFFF);
    assert_eq!(Address::V6(u64::MAX as u128).prefix(), 0);
}

#[test]
fn ip_from_and_ip_to_read_neighbouring_rows() {
    let image = full(false);
    let header = read_header(&image).unwrap();
    let t4 = header.table(Family::V4);
    assert_eq!(t4.ip_from(&image, 0), Ok(0));
    assert_eq!(t4.ip_to(&image, 0), Ok(v4(1, 0, 0, 0) as u128));
    assert_eq!(t4.ip_from(&image, 3), Ok(v4(8, 8, 8, 0) as u128));
    assert_eq!(t4.ip_to(&image, 4), Ok(u32::MAX as u128));
    let t6 = header.table(Family::V6);
    assert_eq!(t6.ip_from(&image, 1), Ok(0x2001_0db8 << 96));
    assert_eq!(t6.ip_to(&image, 2), Ok(u128::MAX));
    assert_eq!(t6.ip_from(&image, 5), Err(Error::IoError));
    assert_eq!(t6.ip_to(&image, u32::MAX), Err(Error::IoError));
}

#[test]
fn search_and_locate_return_row_numbers() {
    let image = full(true);
    let header = read_header(&image).unwrap();
    let t4 = header.table(Family::V4);
    let key = v4(8, 8, 8, 8) as u128;
    assert_eq!(t4.search(&image, key, 0, 5), Ok(3));
    assert_eq!(t4.search(&image, key, 3, 3), Ok(3));
    assert_eq!(t4.search(&image, key, 0, 2), Err(Error::NotFound));
    assert_eq!(t4.search(&image, key, 4, 5), Err(Error::NotFound));
    assert_eq!(t4.search(&image, key, 4, 3), Err(Error::NotFound));
    assert_eq!(t4.search(&image, key, 0, 0), Err(Error::NotFound));
    // bounds that lead outside the image
    assert_eq!(t4.search(&image, key, 0, u32::MAX), Err(Error::IoError));
    assert_eq!(t4.search(&image, key, u32::MAX, u32::MAX), Err(Error::IoError));
    assert_eq!(t4.locate(&image, &Address::V4(v4(8, 8, 8, 8))), Ok(3));
    assert_eq!(t4.locate(&image, &Address::V4(v4(10, 10, 0, 1))), Err(Error::NotFound));
}

/// Whether `address` lies in the range of the row that `found` names.
fn holds(starts: &[u32], found: &Record, address: u32) -> bool {
    let row: usize = found.city.trim_start_matches("city").parse().unwrap();
    starts[row] <= address && address < starts[row + 1]
}

#[test]
fn unsorted_rows_give_a_match_or_nothing() {
    // the first addresses are out of order and the ranges overlap
    let starts =
        [v4(50, 0, 0, 0), v4(10, 0, 0, 0), v4(90, 0, 0, 0), v4(20, 0, 0, 0), v4(200, 0, 0, 0), v4(5, 0, 0, 0), v4(7, 0, 0, 0), 0];
    let mut image = Image::new(3, 5);
    let mut rows = Vec::new();
    for (i, start) in starts.iter().enumerate() {
        let country = image.country("XX", "Somewhere");
        let proxy = image.text("PUB");
        let region = image.text("r");
        let city = image.text(&format!("city{}", i));
        rows.push((*start, vec![proxy, country, region, city]));
    }
    image.table_v4(6, &rows);
    let image = image.finish();
    let db = open(&image);
    let mut found_some = 0;
    let mut found_none = 0;
    for a in 0..=255u32 {
        for low in [0u32, 1, 0x00FF_FFFF] {
            let address = (a << 24) | low;
            match db.ip_lookup("u", Address::V4(address)) {
                Ok(found) => {
                    assert!(holds(&starts, &found, address));
                    found_some += 1;
                },
                Err(e) => {
                    assert_eq!(e, Error::NotFound);
                    found_none += 1;
                },
            }
        }
    }
    assert!(found_some > 0 && found_none > 0);
    // the search compares the row in the middle first: row 3, from 20.0.0.0
    // to 200.0.0.0, is found though row 0 holds the address too
    assert_eq!(db.ip_lookup("u", Address::V4(v4(60, 0, 0, 0))).unwrap().city, "city3");
    assert_eq!(db.ip_lookup("u", Address::V4(v4(15, 0, 0, 0))).unwrap().city, "city1");
    // row 5, from 5.0.0.0 to 7.0.0.0, holds 6.0.0.0, but the search goes
    // down from row 3 to row 1 to row 0 and ends there
    assert_eq!(db.ip_lookup("u", Address::V4(v4(6, 0, 0, 0))), Err(Error::NotFound));
}

#[test]
fn truncated_image_gives_io_errors() {
    let image = full(true);
    let header = read_header(&image).unwrap();
    let address = u32::MAX - 1;
    let whole = ipv4_lookup(&image, &header, address);
    assert_eq!(whole, Ok(full_row("", 4)));
    let mut io = 0;
    for len in (32..image.len()).step_by(7).chain(32..2000) {
        match ipv4_lookup(&image[..len], &header, address) {
            Ok(found) => assert_eq!(found, full_row("", 4)),
            Err(e) => {
                assert_eq!(e, Error::IoError);
                io += 1;
            },
        }
    }
    assert!(io > 0);
    assert_eq!(ipv4_lookup(&[], &header, address), Err(Error::IoError));
    assert_eq!(ipv6_lookup(&image[..100], &header, 5), Err(Error::IoError));
}

#[test]
fn wild_preamble_never_reads_outside() {
    // counts, positions and pointers of all ones
    let mut image = vec![0xFFu8; 4096];
    image[0] = 11;
    image[2] = 20;
    let db = open(&image);
    for address in [0u32, 1, 0x8000_0000, u32::MAX] {
        assert_eq!(db.ip_lookup("w", Address::V4(address)), Err(Error::IoError));
    }
    assert_eq!(db.ip_lookup("w", Address::V6(u128::MAX)), Err(Error::IoError));
    // a table at position 1 with rows of width 0: every row is the preamble
    let mut image = vec![0u8; 64];
    image[0] = 1;
    image[5] = 200;
    image[9] = 1;
    let db = open(&image);
    assert_eq!(db.ip_lookup("w", Address::V4(7)), Err(Error::NotFound));
    assert_eq!(db.ip_lookup("w", Address::V4(0x0001_0000)), Err(Error::NotFound));
}

#[test]
fn absent_fields_are_placeholders() {
    // type 3 carries the proxy type, the country, the region and the city
    let mut image = Image::new(3, 5);
    let country = image.country("DE", "Germany");
    let proxy = image.text("VPN");
    let region = image.text("Hessen");
    let city = image.text("Frankfurt am Main");
    let row = vec![proxy, country, region, city];
    image.table_v4(1, &[(0, row.clone()), (u32::MAX, row.clone()), (u32::MAX, row.clone())]);
    image.table_v6(1, &[(0, row.clone()), (u128::MAX, row.clone()), (u128::MAX, row)]);
    let db = open(&image.finish());
    let expected = record(
        "1.2.3.4",
        1,
        &[
            (Field::CountryShort, "DE"),
            (Field::CountryLong, "Germany"),
            (Field::ProxyType, "VPN"),
            (Field::Region, "Hessen"),
            (Field::City, "Frankfurt am Main"),
        ],
    );
    let found = db.ip_lookup("1.2.3.4", Address::V4(v4(1, 2, 3, 4))).unwrap();
    assert_eq!(found, expected);
    for text in [
        &found.isp,
        &found.domain,
        &found.usage_type,
        &found.as_name,
        &found.asn,
        &found.last_seen,
        &found.threat,
        &found.provider,
    ] {
        assert_eq!(text, PLACEHOLDER);
    }
    let found6 = db.ip_lookup("1.2.3.4", Address::V6(77)).unwrap();
    assert_eq!(found6, expected);
}

#[test]
fn unknown_type_gives_only_placeholders() {
    for db_type in [0u8, 12, 13, 255] {
        let mut image = Image::new(db_type, 13);
        let text = image.text("-");
        let row = vec![text; 12];
        image.table_v4(1, &[(0, row.clone()), (u32::MAX, row.clone()), (u32::MAX, row)]);
        let db = open(&image.finish());
        // the proxy type is the placeholder, not "-": the class is 1
        assert_eq!(db.ip_lookup("", Address::V4(5)), Ok(record("", 1, &[])));
    }
}

#[test]
fn as_name_is_column_9_and_asn_column_10() {
    let image = full(false);
    let header = read_header(&image).unwrap();
    let row = header.table(Family::V4).record(2);
    assert_eq!(read_field(&image, 11, row, Field::AsName), Ok("asname2".to_string()));
    assert_eq!(read_field(&image, 11, row, Field::Asn), Ok("asn2".to_string()));
    assert_eq!(read_field(&image, 11, row, Field::CountryShort), Ok("C2".to_string()));
    assert_eq!(read_field(&image, 11, row, Field::CountryLong), Ok("Country two".to_string()));
    // a type that does not carry the field
    assert_eq!(read_field(&image, 6, row, Field::AsName), Ok(PLACEHOLDER.to_string()));
    // the same row read as a row of type 7: no last-seen, threat or provider
    let mut expected = full_row("", 2);
    expected.last_seen = PLACEHOLDER.to_string();
    expected.threat = PLACEHOLDER.to_string();
    expected.provider = PLACEHOLDER.to_string();
    assert_eq!(read_record(&image, 7, row), Ok(expected));
    assert_eq!(read_record(&image, 11, row), Ok(full_row("", 2)));
    assert_eq!(read_record(&image, 11, u64::MAX), Err(Error::IoError));
    assert_eq!(read_record(&image, 11, 0), Err(Error::IoError));
}

#[test]
fn first_field_that_fails_decides_the_error() {
    let mut image = Image::new(3, 5);
    let country = image.country("DE", "Germany");
    let proxy = image.text("VPN");
    let good = image.text("fine");
    let bad = image.raw(&[0xC3, 0x28]);
    let outside = 0x00FF_FFFF;
    image.table_v4(
        4,
        &[
            (0, vec![proxy, country, bad, outside]),
            (10, vec![proxy, country, outside, bad]),
            (20, vec![bad, country, good, good]),
            (30, vec![proxy, bad, good, good]),
            (40, vec![proxy, country, good, bad]),
            (50, vec![]),
            (50, vec![]),
        ],
    );
    let db = open(&image.finish());
    // decoding order: country, region, city, then proxy type
    assert_eq!(db.ip_lookup("e", Address::V4(5)), Err(Error::DecodeError));
    assert_eq!(db.ip_lookup("e", Address::V4(15)), Err(Error::IoError));
    assert_eq!(db.ip_lookup("e", Address::V4(25)), Err(Error::DecodeError));
    assert_eq!(db.ip_lookup("e", Address::V4(35)), Err(Error::DecodeError));
    assert_eq!(db.ip_lookup("e", Address::V4(45)), Err(Error::DecodeError));
    assert_eq!(db.ip_lookup("e", Address::V4(55)), Err(Error::NotFound));
}

#[test]
fn buffered_mapped_and_stepwise_agree() {
    for index in [false, true] {
        let image = full(index);
        let buffered = DB::from_file("a.bin", image.clone()).unwrap();
        let map = DB::from_file_mmap("a.bin", mapped(&image)).unwrap();
        assert_eq!(buffered.header(), map.header());
        let header = buffered.header();
        let mut addresses: Vec<Address> = Vec::new();
        for a in [0u32, 1, v4(1, 0, 0, 0), v4(1, 0, 0, 255), v4(8, 8, 8, 8), v4(10, 10, 3, 3), u32::MAX]
        {
            addresses.push(Address::V4(a));
        }
        for a in [0u128, 0x2001_0db8 << 96, 0x3000 << 112, u128::MAX - 1, u128::MAX] {
            addresses.push(Address::V6(a));
        }
        for address in addresses {
            let first = buffered.ip_lookup("", address);
            assert_eq!(first, buffered.ip_lookup("", address));
            assert_eq!(first, map.ip_lookup("", address));
            assert_eq!(first, run(&image, &header, address));
        }
    }
}

#[test]
fn handle_keeps_path_and_preamble() {
    let image = full(true);
    let db = DB::from_file("/data/PX11.BIN", image.clone()).unwrap();
    assert_eq!(db.path(), "/data/PX11.BIN");
    let h = db.header();
    assert_eq!(h, read_header(&image).unwrap());
    assert_eq!((h.db_type, h.db_column), (11, 13));
    assert_eq!((h.db_year, h.db_month, h.db_day), (20, 6, 30));
    assert_eq!((h.ipv4_db_count, h.ipv6_db_count), (5, 3));
    let map = DB::from_file_mmap("m", mapped(&image)).unwrap();
    assert_eq!(map.path(), "m");
    assert_eq!(map.header(), h);
}

#[test]
fn opening_fails_as_the_preamble_does() {
    assert_eq!(DB::from_file("p", vec![0u8; 31]).err(), Some(Error::IoError));
    assert_eq!(DB::from_file("p", Vec::new()).err(), Some(Error::IoError));
    assert_eq!(DB::from_file_mmap("p", mapped(&[0u8; 10])).err(), Some(Error::IoError));
    let mut image = vec![0u8; 32];
    image[2] = 21;
    image[26] = 1;
    assert_eq!(DB::from_file("p", image.clone()).err(), Some(Error::IncompatibleFormat));
    assert_eq!(DB::from_file_mmap("p", mapped(&image)).err(), Some(Error::IncompatibleFormat));
    assert_eq!(DB::open("p", Store::Buffered(image)).err(), Some(Error::IncompatibleFormat));
    assert_eq!(DB::open("p", Store::Closed).err(), Some(Error::InvalidState));
    assert!(DB::from_file("p", vec![0u8; 32]).is_ok());
}

#[test]
fn empty_handle_is_in_an_invalid_state() {
    let db = DB::empty();
    assert_eq!(db.path(), "");
    assert_eq!(db.header(), ip2proxy::header::Header::empty());
    assert_eq!(db.ip_lookup("1.1.1.1", Address::V4(v4(1, 1, 1, 1))), Err(Error::InvalidState));
    assert_eq!(db.ip_lookup("::1", Address::V6(1)), Err(Error::InvalidState));
}

#[test]
fn handle_reads_ranges_of_its_image() {
    let image = full(false);
    let buffered = DB::from_file("a", image.clone()).unwrap();
    let map = DB::from_file_mmap("a", mapped(&image)).unwrap();
    for db in [&buffered, &map] {
        assert_eq!(db.read(1, 2), Ok(vec![11, 13]));
        assert_eq!(db.read(image.len() as u64, 1), Ok(vec![image[image.len() - 1]]));
        assert_eq!(db.read(image.len() as u64, 2), Err(Error::IoError));
        assert_eq!(db.read(0, 1), Err(Error::IoError));
    }
    assert_eq!(DB::empty().read(1, 1), Err(Error::InvalidState));
}

#[test]
fn record_echoes_the_text_of_the_address() {
    let db = open(&full(false));
    let found = db.ip_lookup("  8.8.8.8 (as typed) ", Address::V4(v4(8, 8, 8, 8))).unwrap();
    assert_eq!(found.ip, "  8.8.8.8 (as typed) ");
    let header = db.header();
    assert_eq!(ipv4_lookup(&full(false), &header, v4(8, 8, 8, 8)).unwrap().ip, "");
}
