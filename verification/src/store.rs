//! The backing store of a database: where its image lies.
//!
//! An image is either held in a buffer or seen through a read-only memory
//! map. Both answer the same request, "the `len` bytes from position
//! `offset`", with positions counted from 1, and both answer it alike.
//!
//! A buffer and a map are never written to after the store is made, so any
//! number of readers may share one store. A reader that instead keeps a file
//! open and seeks before each read moves a cursor that all its readers share:
//! such a handle must not be read from concurrently without a lock around
//! each seek and read.
use vstd::prelude::*;
use memmap::Mmap;
use std::ops::Deref;
use crate::error::Error;

verus! {

/// `memmap::Mmap`, a read-only memory map, known only by the bytes that it
/// shows.
#[verifier::external_type_specification]
#[verifier::external_body]
pub struct ExMmap(memmap::Mmap);

/// The bytes that a memory map shows, from its first to its last.
pub uninterp spec fn mapped_bytes(map: Mmap) -> Seq<u8>;

/// `memmap::Mmap`'s `deref`, which hands out the mapped region as one slice.
/// Trusted: the slice holds the bytes that the map shows. A map is
/// immutable, and whoever made it from a file answers for that file not being
/// changed while it is mapped.
#[verifier::external_body]
fn mapped_slice(map: &Mmap) -> (bytes: &[u8])
    ensures
        bytes@ == mapped_bytes(*map),
{
    map.deref()
}

/// The bytes of `data` from the 1-based position `offset`, `len` of them;
/// an I/O error where that range does not lie within `data`.
pub open spec fn spec_read(data: Seq<u8>, offset: int, len: int) -> Result<Seq<u8>, Error> {
    if 1 <= offset && 0 <= len && offset - 1 + len <= data.len() {
        Ok(data.subrange(offset - 1, offset - 1 + len))
    } else {
        Err(Error::IoError)
    }
}

/// Borrows `len` bytes of `data` that follow the first `start` bytes.
pub fn read_after(data: &[u8], start: u64, len: usize) -> (r: Result<&[u8], Error>)
    ensures
        r matches Ok(bytes) ==> spec_read(data@, start + 1, len as int) == Ok::<Seq<u8>, Error>(
            bytes@,
        ),
        r matches Err(e) ==> spec_read(data@, start + 1, len as int) == Err::<Seq<u8>, Error>(e),
{
    let n: usize = data.len();
    if start > n as u64 {
        return Err(Error::IoError);
    }
    let first: usize = start as usize;
    if len > n - first {
        return Err(Error::IoError);
    }
    Ok(&data[first..first + len])
}

/// Borrows the `len` bytes of `data` from the 1-based position `offset`.
pub fn read(data: &[u8], offset: u64, len: usize) -> (r: Result<&[u8], Error>)
    ensures
        r matches Ok(bytes) ==> spec_read(data@, offset as int, len as int) == Ok::<
            Seq<u8>,
            Error,
        >(bytes@),
        r matches Err(e) ==> spec_read(data@, offset as int, len as int) == Err::<Seq<u8>, Error>(
            e,
        ),
{
    if offset == 0 {
        Err(Error::IoError)
    } else {
        read_after(data, offset - 1, len)
    }
}

/// Where the image of a database lies.
pub enum Store {
    /// No image has been attached yet.
    Closed,
    /// The image is held in memory.
    Buffered(Vec<u8>),
    /// The image is seen through a read-only memory map.
    Mapped(Mmap),
}

impl Store {
    /// The image, where one is attached.
    pub open spec fn image(&self) -> Option<Seq<u8>> {
        match self {
            Store::Closed => None,
            Store::Buffered(bytes) => Some(bytes@),
            Store::Mapped(map) => Some(mapped_bytes(*map)),
        }
    }

    /// The whole image as one slice, or `InvalidState` for a closed store.
    pub fn bytes(&self) -> (r: Result<&[u8], Error>)
        ensures
            match self.image() {
                Some(data) => r matches Ok(bytes) && bytes@ == data,
                None => r == Err::<&[u8], Error>(Error::InvalidState),
            },
    {
        match self {
            Store::Closed => Err(Error::InvalidState),
            Store::Buffered(bytes) => Ok(bytes.as_slice()),
            Store::Mapped(map) => Ok(mapped_slice(map)),
        }
    }

    /// What a read of `len` bytes from position `offset` gives.
    pub open spec fn spec_read(&self, offset: int, len: int) -> Result<Seq<u8>, Error> {
        match self.image() {
            Some(data) => spec_read(data, offset, len),
            None => Err(Error::InvalidState),
        }
    }

    /// Reads `len` bytes from the 1-based position `offset`.
    ///
    /// Fails with `InvalidState` on a closed store, and with `IoError` where
    /// the range does not lie within the image.
    pub fn read(&self, offset: u64, len: usize) -> (r: Result<Vec<u8>, Error>)
        ensures
            r matches Ok(bytes) ==> self.spec_read(offset as int, len as int) == Ok::<
                Seq<u8>,
                Error,
            >(bytes@),
            r matches Err(e) ==> self.spec_read(offset as int, len as int) == Err::<
                Seq<u8>,
                Error,
            >(e),
    {
        let data = self.bytes()?;
        let range = read(data, offset, len)?;
        Ok(vstd::slice::slice_to_vec(range))
    }
}

} // verus!
