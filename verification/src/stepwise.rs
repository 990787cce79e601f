//! Lookups in an image that only the caller can read.
//!
//! Where the image stays in a file, the library cannot fetch its bytes. A
//! `Lookup` then does the deciding and leaves the reading to its caller: it
//! names the range that it needs next, is handed the bytes of that range,
//! and so on until it holds the result. Whoever answers every request from
//! one image gets what a lookup in that image gives.
//!
//! A caller that reads through a file handle moves the handle's cursor with
//! every request. Lookups that share one handle must therefore run one after
//! another, or each under a lock that spans a seek and its read.
use vstd::prelude::*;
use crate::codec::{decode, le_u32, spec_decode, spec_read_str};
use crate::decode::{
    lemma_resume_at_end, lemma_resume_at_start, lemma_resume_step, record_view, spec_read_record,
    spec_resume,
};
use crate::error::Error;
use crate::header::{lemma_preamble_suffices, read_header, Header, HEADER_LEN};
use crate::lookup::{lemma_found_step, spec_found, spec_ip_lookup};
use crate::record::{Record, RecordView, PLACEHOLDER};
use crate::schema::{lemma_position_range, Field, FIELDS};
use crate::search::{Address, Table};
use crate::store::{read, spec_read};

verus! {

/// A range of an image: `len` bytes from the 1-based position `offset`.
#[derive(Debug, Clone, Copy, PartialEq, Eq, Structural)]
pub struct Request {
    pub offset: u64,
    pub len: usize,
}

/// Whether `answer` is what reading the range `request` of the image `data`
/// gives: its bytes, or an I/O error where the range does not lie within the
/// image.
pub open spec fn answers(data: Seq<u8>, request: Request, answer: Result<&[u8], Error>) -> bool {
    match spec_read(data, request.offset as int, request.len as int) {
        Ok(bytes) => answer matches Ok(given) && given@ == bytes,
        Err(e) => answer matches Err(given) && given == e,
    }
}

/// The range that holds the preamble of an image.
pub open spec fn spec_preamble() -> Request {
    Request { offset: 1, len: HEADER_LEN }
}

/// What an answer to the request for the preamble gives: the error of a
/// failed read, an I/O error for an answer of another length than asked for,
/// else what reading the preamble from the bytes gives.
pub open spec fn spec_open(answer: Result<&[u8], Error>) -> Result<Header, Error> {
    match answer {
        Err(e) => Err(e),
        Ok(bytes) => if bytes@.len() == HEADER_LEN {
            Header::spec_read(bytes@)
        } else {
            Err(Error::IoError)
        },
    }
}

/// The range that holds the preamble of an image.
pub fn preamble() -> (request: Request)
    ensures
        request == spec_preamble(),
{
    Request { offset: 1, len: HEADER_LEN }
}

/// Reads and checks the preamble, given the answer to the request for it.
/// An answer of another length than asked for counts as a failed read.
///
/// If the answer is what an image gives for the request, the result is
/// what reading the preamble of that image gives.
pub fn open(answer: Result<&[u8], Error>) -> (r: Result<Header, Error>)
    ensures
        r == spec_open(answer),
        forall|data: Seq<u8>|
            answers(data, spec_preamble(), answer) ==> r == #[trigger] Header::spec_read(data),
{
    match answer {
        Err(e) => Err(e),
        Ok(bytes) => {
            if bytes.len() != HEADER_LEN {
                Err(Error::IoError)
            } else {
                let r = read_header(bytes);
                proof {
                    assert forall|data: Seq<u8>|
                        answers(data, spec_preamble(), answer) implies r
                        == #[trigger] Header::spec_read(data) by {
                        lemma_preamble_suffices(data);
                    }
                }
                r
            }
        },
    }
}

/// The error that an answer to `request` ends a lookup with, whatever the
/// lookup: the error of a failed read, and an I/O error for an answer of
/// another length than asked for.
pub open spec fn spec_refused(request: Request, answer: Result<&[u8], Error>) -> Option<Error> {
    match answer {
        Err(e) => Some(e),
        Ok(bytes) => if bytes@.len() == request.len {
            None
        } else {
            Some(Error::IoError)
        },
    }
}

/// What a lookup waits for.
#[derive(Debug, Clone, Copy, PartialEq, Eq, Structural)]
enum Phase {
    /// The lower bound of the index entry.
    IndexLow,
    /// The upper bound of the index entry.
    IndexHigh,
    /// The first address of the row in the middle of the bounds.
    RowFrom,
    /// The end of the range of that row.
    RowTo,
    /// The pointer of a field.
    Pointer,
    /// The length of a field's text.
    Length,
    /// The bytes of a field's text.
    Text,
    /// Nothing: the result is known.
    Done,
}

/// What a lookup was started with.
#[derive(Debug, Clone, Copy, PartialEq, Eq, Structural)]
struct Plan {
    table: Table,
    db_type: u8,
    /// The address that is searched for.
    key: u128,
    /// The position of the index entry of the address.
    slot: u64,
}

/// A lookup in progress.
pub struct Lookup {
    plan: Plan,
    phase: Phase,
    /// The bounds of the search.
    low: u64,
    high: u64,
    /// The first address of the row in the middle of the bounds.
    from: u128,
    /// The position that stands for the row found.
    row: u64,
    /// The number of the field that is being decoded.
    field: usize,
    /// The position before the length of that field's text.
    pointer: u64,
    /// The length of that text.
    length: u8,
    /// The fields decoded so far.
    record: Record,
    /// Why the lookup failed, if it did.
    error: Option<Error>,
}

impl Lookup {
    #[verifier::type_invariant]
    spec fn inv(self) -> bool {
        &&& self.plan.slot <= 0xFFFF * 8 + 0xFFFF_FFFF
        &&& self.low <= 0x1_0000_0000
        &&& self.high <= 0xFFFF_FFFF
        &&& self.phase == Phase::RowFrom || self.phase == Phase::RowTo ==> self.low <= self.high
        &&& self.row <= 0xFFFF_FFFF + 0x1_0000_0000 * 1032 + 12
        &&& self.pointer <= 0xFFFF_FFFF + 3
        &&& self.record@.ip == Seq::<char>::empty()
        &&& self.phase == Phase::Pointer || self.phase == Phase::Length || self.phase
            == Phase::Text ==> self.field < FIELDS && Field::spec_nth(
            self.field as int,
        ).spec_position(self.plan.db_type) != 0
    }

    /// The row in the middle of the bounds.
    spec fn spec_mid(self) -> int {
        (self.low + self.high) / 2
    }

    /// The field that is being decoded.
    spec fn spec_field(self) -> Field {
        Field::spec_nth(self.field as int)
    }

    /// The range that the lookup needs next; `None` once its result is
    /// known.
    pub closed spec fn spec_request(self) -> Option<Request> {
        match self.phase {
            Phase::IndexLow => Some(Request { offset: self.plan.slot, len: 4 }),
            Phase::IndexHigh => Some(Request { offset: (self.plan.slot + 4) as u64, len: 4 }),
            Phase::RowFrom => Some(
                Request {
                    offset: self.plan.table.spec_row(self.spec_mid()) as u64,
                    len: self.plan.table.spec_key_len(),
                },
            ),
            Phase::RowTo => Some(
                Request {
                    offset: self.plan.table.spec_row(self.spec_mid() + 1) as u64,
                    len: self.plan.table.spec_key_len(),
                },
            ),
            Phase::Pointer => Some(
                Request {
                    offset: (self.row + 4 * (self.spec_field().spec_position(self.plan.db_type)
                        - 1)) as u64,
                    len: 4,
                },
            ),
            Phase::Length => Some(Request { offset: (self.pointer + 1) as u64, len: 1 }),
            Phase::Text => Some(
                Request { offset: (self.pointer + 2) as u64, len: self.length as usize },
            ),
            Phase::Done => None,
        }
    }

    /// What the lookup ends with if every request from now on is answered
    /// from the image `data`.
    pub closed spec fn outcome(self, data: Seq<u8>) -> Result<RecordView, Error> {
        let plan = self.plan;
        let mid = self.spec_mid();
        match self.phase {
            Phase::IndexLow => match crate::codec::spec_read_u32(data, plan.slot as int) {
                Err(e) => Err(e),
                Ok(low) => match crate::codec::spec_read_u32(data, plan.slot + 4) {
                    Err(e) => Err(e),
                    Ok(high) => spec_found(
                        data,
                        plan.table,
                        plan.db_type,
                        plan.key,
                        low as int,
                        high as int,
                    ),
                },
            },
            Phase::IndexHigh => match crate::codec::spec_read_u32(data, plan.slot + 4) {
                Err(e) => Err(e),
                Ok(high) => spec_found(
                    data,
                    plan.table,
                    plan.db_type,
                    plan.key,
                    self.low as int,
                    high as int,
                ),
            },
            Phase::RowFrom => spec_found(
                data,
                plan.table,
                plan.db_type,
                plan.key,
                self.low as int,
                self.high as int,
            ),
            Phase::RowTo => match plan.table.spec_ip_to(data, mid) {
                Err(e) => Err(e),
                Ok(to) => if self.from <= plan.key && plan.key < to {
                    spec_read_record(data, plan.db_type, plan.table.spec_record(mid))
                } else if plan.key < self.from {
                    spec_found(data, plan.table, plan.db_type, plan.key, self.low as int, mid - 1)
                } else {
                    spec_found(data, plan.table, plan.db_type, plan.key, mid + 1, self.high as int)
                },
            },
            Phase::Pointer => spec_resume(
                data,
                plan.db_type,
                self.row as int,
                self.field as int,
                self.record@,
            ),
            Phase::Length => match spec_read_str(data, self.pointer as int) {
                Err(e) => Err(e),
                Ok(text) => spec_resume(
                    data,
                    plan.db_type,
                    self.row as int,
                    self.field + 1,
                    self.record@.with_field(self.spec_field(), text),
                ),
            },
            Phase::Text => match spec_read(data, self.pointer + 2, self.length as int) {
                Err(e) => Err(e),
                Ok(bytes) => match spec_decode(bytes) {
                    Err(e) => Err(e),
                    Ok(text) => spec_resume(
                        data,
                        plan.db_type,
                        self.row as int,
                        self.field + 1,
                        self.record@.with_field(self.spec_field(), text),
                    ),
                },
            },
            Phase::Done => match self.error {
                Some(e) => Err(e),
                None => Ok(self.record@),
            },
        }
    }

    /// A bound on the number of requests that the lookup still makes.
    pub closed spec fn budget(self) -> nat {
        match self.phase {
            Phase::IndexLow => 2 * 0x1_0000_0000 + 45,
            Phase::IndexHigh => 2 * 0x1_0000_0000 + 44,
            Phase::RowFrom => (2 * (self.high + 1 - self.low) + 41) as nat,
            Phase::RowTo => (2 * (self.high + 1 - self.low) + 40) as nat,
            Phase::Pointer => (3 * (FIELDS - self.field)) as nat,
            Phase::Length => (3 * (FIELDS - self.field) - 1) as nat,
            Phase::Text => (3 * (FIELDS - self.field) - 2) as nat,
            Phase::Done => 0,
        }
    }

    /// Ends the lookup with an error.
    fn end(self, e: Error) -> (next: Lookup)
        ensures
            forall|data: Seq<u8>| #[trigger] next.outcome(data) == Err::<RecordView, Error>(e),
            next.budget() == 0,
            next.spec_request() is None,
    {
        proof {
            use_type_invariant(&self);
        }
        Lookup { phase: Phase::Done, error: Some(e), ..self }
    }

    /// Goes on with the search between `low` and `high`.
    fn probe(self, low: u64, high: u64) -> (next: Lookup)
        requires
            low <= 0x1_0000_0000,
            high <= 0xFFFF_FFFF,
        ensures
            forall|data: Seq<u8>| #[trigger]
                next.outcome(data) == spec_found(
                    data,
                    self.plan.table,
                    self.plan.db_type,
                    self.plan.key,
                    low as int,
                    high as int,
                ),
            low <= high ==> next.budget() == 2 * (high + 1 - low) + 41,
            low > high ==> next.budget() == 0,
    {
        proof {
            use_type_invariant(&self);
        }
        if low > high {
            self.end(Error::NotFound)
        } else {
            Lookup { phase: Phase::RowFrom, low, high, ..self }
        }
    }

    /// Goes on with decoding at the field of number `field`: skips the
    /// fields that the database does not carry, and stops at the first that
    /// must be read, or with the record.
    fn settle(plan: Plan, row: u64, field: usize, record: Record) -> (next: Lookup)
        requires
            field <= FIELDS,
            row <= 0xFFFF_FFFF + 0x1_0000_0000 * 1032 + 12,
            plan.slot <= 0xFFFF * 8 + 0xFFFF_FFFF,
            record@.ip == Seq::<char>::empty(),
        ensures
            forall|data: Seq<u8>| #[trigger]
                next.outcome(data) == spec_resume(
                    data,
                    plan.db_type,
                    row as int,
                    field as int,
                    record@,
                ),
            next.budget() <= 3 * (FIELDS - field),
    {
        let ghost start = record@;
        let mut k: usize = field;
        let mut record = record;
        while k < FIELDS && Field::nth(k).position(plan.db_type) == 0
            invariant
                field <= k <= FIELDS,
                record@.ip == Seq::<char>::empty(),
                forall|data: Seq<u8>| #[trigger]
                    spec_resume(data, plan.db_type, row as int, k as int, record@) == spec_resume(
                        data,
                        plan.db_type,
                        row as int,
                        field as int,
                        start,
                    ),
            decreases FIELDS - k,
        {
            let ghost before = record@;
            record = record.with_field(Field::nth(k), PLACEHOLDER.to_owned());
            proof {
                assert forall|data: Seq<u8>| #[trigger]
                    spec_resume(data, plan.db_type, row as int, k + 1, record@) == spec_resume(
                        data,
                        plan.db_type,
                        row as int,
                        field as int,
                        start,
                    ) by {
                    lemma_resume_step(data, plan.db_type, row as int, k as int, before);
                    assert(spec_resume(data, plan.db_type, row as int, k as int, before)
                        == spec_resume(data, plan.db_type, row as int, field as int, start));
                }
            }
            k = k + 1;
        }
        if k == FIELDS {
            let ghost before = record@;
            let record = record.classified(plan.db_type);
            proof {
                assert forall|data: Seq<u8>|
                    Ok::<RecordView, Error>(record@) == #[trigger] spec_resume(
                        data,
                        plan.db_type,
                        row as int,
                        field as int,
                        start,
                    ) by {
                    lemma_resume_at_end(data, plan.db_type, row as int, before);
                    assert(spec_resume(data, plan.db_type, row as int, k as int, before)
                        == spec_resume(data, plan.db_type, row as int, field as int, start));
                }
            }
            Lookup {
                plan,
                phase: Phase::Done,
                low: 0,
                high: 0,
                from: 0,
                row,
                field: k,
                pointer: 0,
                length: 0,
                record,
                error: None,
            }
        } else {
            Lookup {
                plan,
                phase: Phase::Pointer,
                low: 0,
                high: 0,
                from: 0,
                row,
                field: k,
                pointer: 0,
                length: 0,
                record,
                error: None,
            }
        }
    }

    /// Starts the lookup of `address` in a database with the preamble
    /// `header`. Nothing is read yet.
    pub fn start(header: &Header, address: Address) -> (lookup: Lookup)
        ensures
            forall|data: Seq<u8>| #[trigger]
                lookup.outcome(data) == spec_ip_lookup(data, *header, address),
    {
        let searched = match address {
            Address::V4(ip_number) => Address::V4(
                if ip_number == u32::MAX {
                    ip_number - 1
                } else {
                    ip_number
                },
            ),
            Address::V6(_) => address,
        };
        let table = header.table(searched.family());
        let plan = Plan {
            table,
            db_type: header.db_type,
            key: searched.key(),
            slot: searched.prefix() as u64 * 8 + table.index as u64,
        };
        let lookup = Lookup {
            plan,
            phase: Phase::IndexLow,
            low: 0,
            high: 0,
            from: 0,
            row: 0,
            field: 0,
            pointer: 0,
            length: 0,
            record: Record::new_empty(),
            error: None,
        };
        if table.index > 0 {
            lookup
        } else {
            lookup.probe(0, table.count as u64)
        }
    }

    /// The range that the lookup needs next; `None` once its result is
    /// known.
    pub fn request(&self) -> (request: Option<Request>)
        ensures
            request == self.spec_request(),
            request matches Some(r) ==> r.len <= 255,
    {
        proof {
            use_type_invariant(self);
        }
        match self.phase {
            Phase::IndexLow => Some(Request { offset: self.plan.slot, len: 4 }),
            Phase::IndexHigh => Some(Request { offset: self.plan.slot + 4, len: 4 }),
            Phase::RowFrom => Some(
                Request {
                    offset: self.plan.table.row((self.low + self.high) / 2),
                    len: self.plan.table.key_len(),
                },
            ),
            Phase::RowTo => Some(
                Request {
                    offset: self.plan.table.row((self.low + self.high) / 2 + 1),
                    len: self.plan.table.key_len(),
                },
            ),
            Phase::Pointer => {
                let field = Field::nth(self.field);
                proof {
                    lemma_position_range(field, self.plan.db_type);
                }
                let position: u32 = field.position(self.plan.db_type);
                Some(Request { offset: self.row + 4 * (position as u64 - 1), len: 4 })
            },
            Phase::Length => Some(Request { offset: self.pointer + 1, len: 1 }),
            Phase::Text => Some(Request { offset: self.pointer + 2, len: self.length as usize }),
            Phase::Done => None,
        }
    }

    /// Whether `next` is what the lookup `self` becomes by `answer`, given
    /// that `self` waits for an answer.
    ///
    /// In every image that gives this answer to the request, `next` ends as
    /// `self` does. `next` is nearer to its end than `self`. And an answer
    /// that is a failed read, or of another length than asked for, ends the
    /// lookup with that error.
    pub open spec fn advanced(self, next: Lookup, answer: Result<&[u8], Error>) -> bool {
        &&& forall|data: Seq<u8>|
            self.spec_request() matches Some(request) && answers(data, request, answer)
                ==> #[trigger] next.outcome(data) == self.outcome(data)
        &&& next.budget() < self.budget()
        &&& forall|data: Seq<u8>|
            self.spec_request() matches Some(request) && spec_refused(request, answer) matches Some(
                e,
            ) ==> #[trigger] next.outcome(data) == Err::<RecordView, Error>(e)
        &&& (self.spec_request() matches Some(request) && spec_refused(request, answer).is_some())
            ==> next.spec_request().is_none()
    }

    /// The bytes of an answer, if they are as many as were asked for.
    fn taken<'a>(len: usize, answer: Result<&'a [u8], Error>) -> (r: Result<&'a [u8], Error>)
        ensures
            r matches Ok(bytes) ==> bytes@.len() == len && answer == Ok::<&[u8], Error>(bytes),
            forall|offset: u64|
                (match r {
                    Ok(_) => None,
                    Err(e) => Some(e),
                }) == #[trigger] spec_refused(Request { offset, len }, answer),
            r matches Err(e) ==> forall|data: Seq<u8>, offset: u64|
                answers(data, Request { offset, len }, answer) ==> #[trigger] spec_read(
                    data,
                    offset as int,
                    len as int,
                ) == Err::<Seq<u8>, Error>(e),
    {
        match answer {
            Err(e) => Err(e),
            Ok(bytes) => if bytes.len() == len {
                Ok(bytes)
            } else {
                Err(Error::IoError)
            },
        }
    }

    fn on_index_low(self, answer: Result<&[u8], Error>) -> (next: Lookup)
        requires
            self.phase == Phase::IndexLow,
        ensures
            self.advanced(next, answer),
    {
        proof {
            use_type_invariant(&self);
        }
        match Lookup::taken(4, answer) {
            Err(e) => self.end(e),
            Ok(bytes) => {
                let low: u32 = le_u32(bytes);
                Lookup { phase: Phase::IndexHigh, low: low as u64, ..self }
            },
        }
    }

    fn on_index_high(self, answer: Result<&[u8], Error>) -> (next: Lookup)
        requires
            self.phase == Phase::IndexHigh,
        ensures
            self.advanced(next, answer),
    {
        proof {
            use_type_invariant(&self);
        }
        match Lookup::taken(4, answer) {
            Err(e) => self.end(e),
            Ok(bytes) => {
                let high: u32 = le_u32(bytes);
                let low: u64 = self.low;
                self.probe(low, high as u64)
            },
        }
    }

    fn on_row_from(self, answer: Result<&[u8], Error>) -> (next: Lookup)
        requires
            self.phase == Phase::RowFrom,
        ensures
            self.advanced(next, answer),
    {
        proof {
            use_type_invariant(&self);
        }
        let plan = self.plan;
        let ghost mid = self.spec_mid();
        proof {
            plan.table.lemma_row_bound(mid);
            assert forall|data: Seq<u8>| #[trigger]
                self.outcome(data) == (match plan.table.spec_ip_from(data, mid) {
                    Err(e) => Err(e),
                    Ok(from) => (Lookup { phase: Phase::RowTo, from, ..self }).outcome(data),
                }) by {
                lemma_found_step(
                    data,
                    plan.table,
                    plan.db_type,
                    plan.key,
                    self.low as int,
                    self.high as int,
                );
            }
            assert forall|data: Seq<u8>|
                plan.table.spec_ip_from(data, mid) == (match #[trigger] spec_read(
                    data,
                    plan.table.spec_row(mid),
                    plan.table.spec_key_len() as int,
                ) {
                    Ok(bytes) => Ok(plan.table.spec_key_of(bytes)),
                    Err(e) => Err(e),
                }) by {
                plan.table.lemma_ip_from(data, mid);
            }
        }
        match Lookup::taken(plan.table.key_len(), answer) {
            Err(e) => self.end(e),
            Ok(bytes) => {
                let from: u128 = plan.table.key_of(bytes);
                Lookup { phase: Phase::RowTo, from, ..self }
            },
        }
    }

    /// What a lookup that waits for the end of a range ends with, given
    /// that end.
    spec fn decided(self, data: Seq<u8>, to: u128) -> Result<RecordView, Error> {
        let plan = self.plan;
        let mid = self.spec_mid();
        if self.from <= plan.key && plan.key < to {
            spec_read_record(data, plan.db_type, plan.table.spec_record(mid))
        } else if plan.key < self.from {
            spec_found(data, plan.table, plan.db_type, plan.key, self.low as int, mid - 1)
        } else {
            spec_found(data, plan.table, plan.db_type, plan.key, mid + 1, self.high as int)
        }
    }

    /// Decides on a row of which both ends of the range are known.
    fn decide(self, to: u128) -> (next: Lookup)
        requires
            self.phase == Phase::RowTo,
        ensures
            forall|data: Seq<u8>| #[trigger] next.outcome(data) == self.decided(data, to),
            next.budget() < self.budget(),
    {
        proof {
            use_type_invariant(&self);
        }
        let plan = self.plan;
        let mid: u64 = (self.low + self.high) / 2;
        if self.from <= plan.key && plan.key < to {
            let row: u64 = plan.table.record(mid as u32);
            proof {
                assert forall|data: Seq<u8>|
                    spec_read_record(data, plan.db_type, row as int) == #[trigger] spec_resume(
                        data,
                        plan.db_type,
                        row as int,
                        0,
                        RecordView::empty(),
                    ) by {
                    lemma_resume_at_start(data, plan.db_type, row as int, RecordView::empty());
                }
            }
            Lookup::settle(plan, row, 0, Record::new_empty())
        } else if plan.key < self.from {
            if mid == 0 {
                proof {
                    assert forall|data: Seq<u8>| #[trigger]
                        spec_found(data, plan.table, plan.db_type, plan.key, self.low as int, -1)
                            == Err::<RecordView, Error>(Error::NotFound) by {}
                }
                self.end(Error::NotFound)
            } else {
                let low: u64 = self.low;
                self.probe(low, mid - 1)
            }
        } else {
            let high: u64 = self.high;
            self.probe(mid + 1, high)
        }
    }

    fn on_row_to(self, answer: Result<&[u8], Error>) -> (next: Lookup)
        requires
            self.phase == Phase::RowTo,
        ensures
            self.advanced(next, answer),
    {
        proof {
            use_type_invariant(&self);
        }
        let plan = self.plan;
        let ghost mid = self.spec_mid();
        proof {
            plan.table.lemma_row_bound(mid + 1);
            assert forall|data: Seq<u8>| #[trigger]
                self.outcome(data) == (match plan.table.spec_ip_to(data, mid) {
                    Err(e) => Err(e),
                    Ok(to) => self.decided(data, to),
                }) by {}
            assert forall|data: Seq<u8>|
                plan.table.spec_ip_to(data, mid) == (match #[trigger] spec_read(
                    data,
                    plan.table.spec_row(mid + 1),
                    plan.table.spec_key_len() as int,
                ) {
                    Ok(bytes) => Ok(plan.table.spec_key_of(bytes)),
                    Err(e) => Err(e),
                }) by {
                plan.table.lemma_ip_from(data, mid + 1);
            }
        }
        match Lookup::taken(plan.table.key_len(), answer) {
            Err(e) => self.end(e),
            Ok(bytes) => {
                let to: u128 = plan.table.key_of(bytes);
                self.decide(to)
            },
        }
    }

    fn on_pointer(self, answer: Result<&[u8], Error>) -> (next: Lookup)
        requires
            self.phase == Phase::Pointer,
        ensures
            self.advanced(next, answer),
    {
        proof {
            use_type_invariant(&self);
        }
        let plan = self.plan;
        let field = Field::nth(self.field);
        proof {
            lemma_position_range(field, plan.db_type);
            assert forall|data: Seq<u8>| #[trigger]
                spec_resume(data, plan.db_type, self.row as int, self.field as int, self.record@)
                    == (match crate::decode::spec_read_field(
                    data,
                    plan.db_type,
                    self.row as int,
                    field,
                ) {
                    Err(e) => Err(e),
                    Ok(text) => spec_resume(
                        data,
                        plan.db_type,
                        self.row as int,
                        self.field + 1,
                        self.record@.with_field(field, text),
                    ),
                }) by {
                lemma_resume_step(
                    data,
                    plan.db_type,
                    self.row as int,
                    self.field as int,
                    self.record@,
                );
            }
        }
        match Lookup::taken(4, answer) {
            Err(e) => self.end(e),
            Ok(bytes) => {
                let pointer: u64 = le_u32(bytes) as u64 + field.shift();
                Lookup { phase: Phase::Length, pointer, ..self }
            },
        }
    }

    fn on_length(self, answer: Result<&[u8], Error>) -> (next: Lookup)
        requires
            self.phase == Phase::Length,
        ensures
            self.advanced(next, answer),
    {
        proof {
            use_type_invariant(&self);
        }
        match Lookup::taken(1, answer) {
            Err(e) => self.end(e),
            Ok(bytes) => {
                let length: u8 = bytes[0];
                Lookup { phase: Phase::Text, length, ..self }
            },
        }
    }

    fn on_text(self, answer: Result<&[u8], Error>) -> (next: Lookup)
        requires
            self.phase == Phase::Text,
        ensures
            self.advanced(next, answer),
    {
        proof {
            use_type_invariant(&self);
        }
        let plan = self.plan;
        let field = Field::nth(self.field);
        match Lookup::taken(self.length as usize, answer) {
            Err(e) => self.end(e),
            Ok(bytes) => match decode(bytes) {
                Ok(text) => {
                    let record = self.record.with_field(field, text);
                    Lookup::settle(plan, self.row, self.field + 1, record)
                },
                Err(e) => self.end(e),
            },
        }
    }

    /// Hands the lookup the answer to its request: the bytes of the range,
    /// or the error of the read. An answer of another length than asked for
    /// counts as a failed read.
    ///
    /// If the answer is what an image gives for the request, the lookup ends
    /// as it would have, had it read that image itself. Each answer brings
    /// the lookup nearer to its end. A lookup that has ended is left as it
    /// is.
    pub fn supply(self, answer: Result<&[u8], Error>) -> (next: Lookup)
        ensures
            self.spec_request() is Some ==> self.advanced(next, answer),
            self.spec_request() is None ==> next.spec_request() is None,
            forall|data: Seq<u8>|
                self.spec_request() is None ==> #[trigger] next.outcome(data) == self.outcome(
                    data,
                ),
    {
        match self.phase {
            Phase::IndexLow => self.on_index_low(answer),
            Phase::IndexHigh => self.on_index_high(answer),
            Phase::RowFrom => self.on_row_from(answer),
            Phase::RowTo => self.on_row_to(answer),
            Phase::Pointer => self.on_pointer(answer),
            Phase::Length => self.on_length(answer),
            Phase::Text => self.on_text(answer),
            Phase::Done => self,
        }
    }

    /// The result of the lookup, once it needs nothing more.
    pub fn result(self) -> (r: Option<Result<Record, Error>>)
        ensures
            r is Some <==> self.spec_request() is None,
            forall|data: Seq<u8>|
                r matches Some(result) ==> record_view(result) == #[trigger] self.outcome(data),
    {
        match self.phase {
            Phase::Done => match self.error {
                Some(e) => Some(Err(e)),
                None => Some(Ok(self.record)),
            },
            _ => None,
        }
    }
}

/// Looks `address` up in the image `data` by answering, from `data`, every
/// request of a lookup.
pub fn run(data: &[u8], header: &Header, address: Address) -> (r: Result<Record, Error>)
    ensures
        record_view(r) == spec_ip_lookup(data@, *header, address),
{
    let mut lookup = Lookup::start(header, address);
    loop
        invariant
            lookup.outcome(data@) == spec_ip_lookup(data@, *header, address),
        decreases lookup.budget(),
    {
        match lookup.request() {
            Some(request) => {
                let answer = read(data, request.offset, request.len);
                lookup = lookup.supply(answer);
            },
            None => {
                match lookup.result() {
                    Some(result) => {
                        return result;
                    },
                    None => {
                        return Err(Error::InvalidState);
                    },
                }
            },
        }
    }
}

} // verus!
