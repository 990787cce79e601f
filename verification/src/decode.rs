//! Decoding the fields of a row into a record.
//!
//! Each column of a row but the first holds a 4-byte pointer to a string. A
//! field that databases of the type at hand do not carry is given the
//! placeholder; for the others the pointer is read from the field's column
//! and the string from where it points.
use vstd::prelude::*;
use crate::codec::{read_str, read_u32, spec_read_str, spec_read_u32, text_view};
use crate::error::Error;
use crate::laws::lemma_absent_field_is_placeholder;
use crate::record::{classify, spec_classify, Record, RecordView, PLACEHOLDER};
use crate::schema::{Field, FIELDS};

verus! {

/// The text of one field of the row at `row`: the placeholder where its
/// position is 0, else the string that the pointer at
/// `row + 4 * (position - 1)` leads to.
pub open spec fn spec_read_field(data: Seq<u8>, db_type: u8, row: int, field: Field) -> Result<
    Seq<char>,
    Error,
> {
    let position = field.spec_position(db_type);
    if position == 0 {
        Ok(PLACEHOLDER@)
    } else {
        match spec_read_u32(data, row + 4 * (position - 1)) {
            Err(e) => Err(e),
            Ok(pointer) => spec_read_str(data, pointer + field.spec_shift()),
        }
    }
}

/// The error of the first field that cannot be decoded, among the fields
/// from the `k`-th on in decoding order.
pub open spec fn spec_first_error(data: Seq<u8>, db_type: u8, row: int, k: int) -> Option<Error>
    decreases FIELDS - k,
{
    if k < 0 || k >= FIELDS {
        None
    } else {
        match spec_read_field(data, db_type, row, Field::spec_nth(k)) {
            Err(e) => Some(e),
            Ok(_) => spec_first_error(data, db_type, row, k + 1),
        }
    }
}

/// The text of a field that can be decoded.
pub open spec fn spec_text(data: Seq<u8>, db_type: u8, row: int, field: Field) -> Seq<char> {
    match spec_read_field(data, db_type, row, field) {
        Ok(text) => text,
        Err(_) => Seq::empty(),
    }
}

/// The record of the row at `row`, given that each of its fields can be
/// decoded. The address is left empty.
pub open spec fn spec_record(data: Seq<u8>, db_type: u8, row: int) -> RecordView {
    RecordView {
        ip: Seq::empty(),
        is_proxy: spec_classify(
            db_type,
            spec_text(data, db_type, row, Field::CountryShort),
            spec_text(data, db_type, row, Field::ProxyType),
        ),
        country_short: spec_text(data, db_type, row, Field::CountryShort),
        country_long: spec_text(data, db_type, row, Field::CountryLong),
        region: spec_text(data, db_type, row, Field::Region),
        city: spec_text(data, db_type, row, Field::City),
        isp: spec_text(data, db_type, row, Field::Isp),
        proxy_type: spec_text(data, db_type, row, Field::ProxyType),
        usage_type: spec_text(data, db_type, row, Field::UsageType),
        as_name: spec_text(data, db_type, row, Field::AsName),
        asn: spec_text(data, db_type, row, Field::Asn),
        last_seen: spec_text(data, db_type, row, Field::LastSeen),
        domain: spec_text(data, db_type, row, Field::Domain),
        threat: spec_text(data, db_type, row, Field::Threat),
        provider: spec_text(data, db_type, row, Field::Provider),
    }
}

/// What decoding the row at `row` gives: the error of the first field, in
/// decoding order, that cannot be decoded, else the record.
pub open spec fn spec_read_record(data: Seq<u8>, db_type: u8, row: int) -> Result<
    RecordView,
    Error,
> {
    match spec_first_error(data, db_type, row, 0) {
        Some(e) => Err(e),
        None => Ok(spec_record(data, db_type, row)),
    }
}

/// The text of a field of a record that is decoded up to its `k`-th field:
/// the fields before the `k`-th are those of `partial`, the others are still
/// to be read from the row.
pub open spec fn spec_pick(
    data: Seq<u8>,
    db_type: u8,
    row: int,
    k: int,
    partial: RecordView,
    field: Field,
) -> Seq<char> {
    if field.spec_rank() < k {
        partial.field(field)
    } else {
        spec_text(data, db_type, row, field)
    }
}

/// The record that `partial` becomes once the fields from the `k`-th on are
/// decoded and the row is classified.
pub open spec fn spec_merge(data: Seq<u8>, db_type: u8, row: int, k: int, partial: RecordView)
    -> RecordView {
    RecordView {
        ip: Seq::empty(),
        is_proxy: spec_classify(
            db_type,
            spec_pick(data, db_type, row, k, partial, Field::CountryShort),
            spec_pick(data, db_type, row, k, partial, Field::ProxyType),
        ),
        country_short: spec_pick(data, db_type, row, k, partial, Field::CountryShort),
        country_long: spec_pick(data, db_type, row, k, partial, Field::CountryLong),
        region: spec_pick(data, db_type, row, k, partial, Field::Region),
        city: spec_pick(data, db_type, row, k, partial, Field::City),
        isp: spec_pick(data, db_type, row, k, partial, Field::Isp),
        proxy_type: spec_pick(data, db_type, row, k, partial, Field::ProxyType),
        usage_type: spec_pick(data, db_type, row, k, partial, Field::UsageType),
        as_name: spec_pick(data, db_type, row, k, partial, Field::AsName),
        asn: spec_pick(data, db_type, row, k, partial, Field::Asn),
        last_seen: spec_pick(data, db_type, row, k, partial, Field::LastSeen),
        domain: spec_pick(data, db_type, row, k, partial, Field::Domain),
        threat: spec_pick(data, db_type, row, k, partial, Field::Threat),
        provider: spec_pick(data, db_type, row, k, partial, Field::Provider),
    }
}

/// What decoding gives when it is taken up again at the `k`-th field, with
/// the fields before it in `partial`.
pub open spec fn spec_resume(data: Seq<u8>, db_type: u8, row: int, k: int, partial: RecordView)
    -> Result<RecordView, Error> {
    match spec_first_error(data, db_type, row, k) {
        Some(e) => Err(e),
        None => Ok(spec_merge(data, db_type, row, k, partial)),
    }
}

/// Decoding taken up at the first field is decoding.
pub proof fn lemma_resume_at_start(data: Seq<u8>, db_type: u8, row: int, partial: RecordView)
    ensures
        spec_resume(data, db_type, row, 0, partial) == spec_read_record(data, db_type, row),
{
}

/// Decoding taken up at the `k`-th field fails if that field fails, and
/// else goes on behind it with the field's text in the record.
pub proof fn lemma_resume_step(data: Seq<u8>, db_type: u8, row: int, k: int, partial: RecordView)
    requires
        0 <= k < FIELDS,
    ensures
        spec_resume(data, db_type, row, k, partial) == (match spec_read_field(
            data,
            db_type,
            row,
            Field::spec_nth(k),
        ) {
            Err(e) => Err(e),
            Ok(text) => spec_resume(
                data,
                db_type,
                row,
                k + 1,
                partial.with_field(Field::spec_nth(k), text),
            ),
        }),
{
    let field = Field::spec_nth(k);
    match spec_read_field(data, db_type, row, field) {
        Err(e) => {},
        Ok(text) => {
            let next = partial.with_field(field, text);
            assert(field.spec_rank() == k);
            assert(spec_merge(data, db_type, row, k, partial) == spec_merge(
                data,
                db_type,
                row,
                k + 1,
                next,
            ));
        },
    }
}

/// Decoding taken up behind the last field only classifies the record.
pub proof fn lemma_resume_at_end(data: Seq<u8>, db_type: u8, row: int, partial: RecordView)
    ensures
        spec_resume(data, db_type, row, FIELDS as int, partial) == Ok::<RecordView, Error>(
            RecordView {
                ip: Seq::empty(),
                is_proxy: spec_classify(db_type, partial.country_short, partial.proxy_type),
                ..partial
            },
        ),
{
}

/// What a result that carries a record says in terms of characters.
pub open spec fn record_view(r: Result<Record, Error>) -> Result<RecordView, Error> {
    match r {
        Ok(record) => Ok(record@),
        Err(e) => Err(e),
    }
}

/// Reads the number at position `offset + skip`.
fn read_u32_behind(data: &[u8], offset: u64, skip: u64) -> (r: Result<u32, Error>)
    ensures
        r == spec_read_u32(data@, offset + skip),
{
    if skip > u64::MAX - offset {
        assert(data.len() <= u64::MAX);
        Err(Error::IoError)
    } else {
        read_u32(data, offset + skip)
    }
}

/// Decodes one field of the row at `row`.
pub fn read_field(data: &[u8], db_type: u8, row: u64, field: Field) -> (r: Result<String, Error>)
    ensures
        text_view(r) == spec_read_field(data@, db_type, row as int, field),
{
    let position: u32 = field.position(db_type);
    if position == 0 {
        Ok(PLACEHOLDER.to_owned())
    } else {
        let pointer: u32 = read_u32_behind(data, row, 4 * (position as u64 - 1))?;
        read_str(data, pointer as u64 + field.shift())
    }
}

/// Decodes the row at `row` of a database of type `db_type`.
///
/// Fails with the error of the first field that cannot be decoded: an I/O
/// error where a pointer or a string lies outside the image, a decode error
/// where a string is not valid UTF-8.
pub fn read_record(data: &[u8], db_type: u8, row: u64) -> (r: Result<Record, Error>)
    ensures
        record_view(r) == spec_read_record(data@, db_type, row as int),
        r matches Ok(record) ==> record@.keeps_placeholders(db_type),
{
    proof {
        reveal_with_fuel(spec_first_error, 14);
        if spec_read_record(data@, db_type, row as int) is Ok {
            let record = spec_read_record(data@, db_type, row as int)->Ok_0;
            assert forall|field: Field| field.spec_position(db_type) == 0 implies #[trigger]
                record.field(field) == PLACEHOLDER@ by {
                lemma_absent_field_is_placeholder(data@, db_type, row as int, field);
            }
        }
    }
    let country_short: String = read_field(data, db_type, row, Field::CountryShort)?;
    let country_long: String = read_field(data, db_type, row, Field::CountryLong)?;
    let region: String = read_field(data, db_type, row, Field::Region)?;
    let city: String = read_field(data, db_type, row, Field::City)?;
    let isp: String = read_field(data, db_type, row, Field::Isp)?;
    let proxy_type: String = read_field(data, db_type, row, Field::ProxyType)?;
    let domain: String = read_field(data, db_type, row, Field::Domain)?;
    let usage_type: String = read_field(data, db_type, row, Field::UsageType)?;
    let as_name: String = read_field(data, db_type, row, Field::AsName)?;
    let asn: String = read_field(data, db_type, row, Field::Asn)?;
    let last_seen: String = read_field(data, db_type, row, Field::LastSeen)?;
    let threat: String = read_field(data, db_type, row, Field::Threat)?;
    let provider: String = read_field(data, db_type, row, Field::Provider)?;
    let is_proxy: i8 = classify(db_type, &country_short, &proxy_type);
    Ok(
        Record {
            ip: String::new(),
            is_proxy,
            country_short,
            country_long,
            region,
            city,
            isp,
            proxy_type,
            usage_type,
            as_name,
            asn,
            last_seen,
            domain,
            threat,
            provider,
        },
    )
}

} // verus!
