//! The handle of an open database.
use vstd::prelude::*;
use memmap::Mmap;
use crate::error::Error;
use crate::header::{read_header, Header};
use crate::lookup::{ipv4_lookup, ipv6_lookup, spec_ip_lookup};
use crate::record::{Record, RecordView};
use crate::search::Address;
use crate::store::{mapped_bytes, spec_read, Store};

verus! {

/// An IP2Proxy database: the path it was opened from, its preamble, read
/// once, and the store that holds its image. Nothing of it changes after it
/// is opened.
pub struct DB {
    path: String,
    header: Header,
    store: Store,
}

/// What a handle stands for.
pub ghost struct DBView {
    pub path: Seq<char>,
    pub header: Header,
    /// The image, or `None` where no store is attached.
    pub image: Option<Seq<u8>>,
}

impl DBView {
    /// The handle of which nothing was opened.
    pub open spec fn empty() -> DBView {
        DBView { path: Seq::empty(), header: Header::spec_empty(), image: None }
    }

    /// The preamble of a handle is the one that its image starts with.
    pub open spec fn wf(self) -> bool {
        match self.image {
            Some(data) => Header::spec_read(data) == Ok::<Header, Error>(self.header),
            None => self.header == Header::spec_empty(),
        }
    }

    /// What opening an image gives: `InvalidState` where there is none, the
    /// error of its preamble where that cannot be read or is incompatible,
    /// else a handle.
    pub open spec fn open(path: Seq<char>, image: Option<Seq<u8>>) -> Result<DBView, Error> {
        match image {
            None => Err(Error::InvalidState),
            Some(data) => match Header::spec_read(data) {
                Err(e) => Err(e),
                Ok(header) => Ok(DBView { path, header, image }),
            },
        }
    }

    /// What a lookup gives: `InvalidState` where no store is attached, else
    /// what the image holds for the address.
    pub open spec fn lookup(self, address: Address) -> Result<RecordView, Error> {
        match self.image {
            None => Err(Error::InvalidState),
            Some(data) => spec_ip_lookup(data, self.header, address),
        }
    }
}

impl View for DB {
    type V = DBView;

    closed spec fn view(&self) -> DBView {
        DBView { path: self.path@, header: self.header, image: self.store.image() }
    }
}

impl DB {
    /// The handle of which nothing was opened. Every lookup in it fails with
    /// `InvalidState`.
    pub fn empty() -> (db: DB)
        ensures
            db@ == DBView::empty(),
            db@.wf(),
    {
        DB { path: String::new(), header: Header::empty(), store: Store::Closed }
    }

    /// Opens the database whose image lies in `store`: reads the preamble
    /// and checks it.
    pub fn open(path: &str, store: Store) -> (r: Result<DB, Error>)
        ensures
            match DBView::open(path@, store.image()) {
                Ok(view) => r matches Ok(db) && db@ == view && db@.wf(),
                Err(e) => r matches Err(x) && x == e,
            },
    {
        let header = read_header(store.bytes()?)?;
        Ok(DB { path: path.to_owned(), header, store })
    }

    /// Opens the database whose file at `path` was read into `image`.
    pub fn from_file(path: &str, image: Vec<u8>) -> (r: Result<DB, Error>)
        ensures
            match DBView::open(path@, Some(image@)) {
                Ok(view) => r matches Ok(db) && db@ == view && db@.wf(),
                Err(e) => r matches Err(x) && x == e,
            },
    {
        DB::open(path, Store::Buffered(image))
    }

    /// Opens the database whose file at `path` is seen through `map`.
    pub fn from_file_mmap(path: &str, map: Mmap) -> (r: Result<DB, Error>)
        ensures
            match DBView::open(path@, Some(mapped_bytes(map))) {
                Ok(view) => r matches Ok(db) && db@ == view && db@.wf(),
                Err(e) => r matches Err(x) && x == e,
            },
    {
        DB::open(path, Store::Mapped(map))
    }

    /// The path that the database was opened from.
    pub fn path(&self) -> (path: &str)
        ensures
            path@ == self@.path,
    {
        self.path.as_str()
    }

    /// The preamble: the database's type, the date of its version, and
    /// where its tables lie.
    pub fn header(&self) -> (header: Header)
        ensures
            header == self@.header,
    {
        self.header
    }

    /// Reads `len` bytes of the image from the 1-based position `offset`.
    ///
    /// Fails with `InvalidState` where no store is attached, and with
    /// `IoError` where the range does not lie within the image.
    pub fn read(&self, offset: u64, len: usize) -> (r: Result<Vec<u8>, Error>)
        ensures
            match self@.image {
                None => r == Err::<Vec<u8>, Error>(Error::InvalidState),
                Some(data) => match spec_read(data, offset as int, len as int) {
                    Ok(bytes) => r matches Ok(given) && given@ == bytes,
                    Err(e) => r == Err::<Vec<u8>, Error>(e),
                },
            },
    {
        self.store.read(offset, len)
    }

    /// Looks up `address`, which the caller has parsed from the text `ip`,
    /// and returns its record with `ip` as the record's address.
    ///
    /// A field that databases of this type do not carry is the placeholder in
    /// the record.
    ///
    /// Fails with `InvalidState` where no store is attached, with `NotFound`
    /// where no range holds the address, with `IoError` where the search or
    /// the row leads outside the image, and with `DecodeError` where a string
    /// of the row is not valid UTF-8.
    pub fn ip_lookup(&self, ip: &str, address: Address) -> (r: Result<Record, Error>)
        ensures
            match self@.lookup(address) {
                Ok(found) => r matches Ok(record) && record@ == (RecordView { ip: ip@, ..found }),
                Err(e) => r matches Err(x) && x == e,
            },
            r matches Ok(record) ==> record@.keeps_placeholders(self@.header.db_type),
    {
        let data = self.store.bytes()?;
        let record = match address {
            Address::V4(ip_number) => ipv4_lookup(data, &self.header, ip_number)?,
            Address::V6(ipv6) => ipv6_lookup(data, &self.header, ipv6)?,
        };
        Ok(record.with_ip(ip.to_owned()))
    }
}

} // verus!
