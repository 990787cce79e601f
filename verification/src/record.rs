//! The record that a lookup returns.
use vstd::prelude::*;
use crate::schema::Field;

verus! {

/// The text of every field that the database at hand does not carry.
pub const PLACEHOLDER: &'static str =
    "This parameter is unavailable for selected data file. Please upgrade the data file.";

/// What is known of one address.
#[derive(PartialEq, Debug, Clone)]
pub struct Record {
    /// The address that was looked up, as the caller wrote it.
    pub ip: String,
    /// -1: not determined; 0: no proxy; 1: a proxy; 2: a range of a data
    /// centre or of a search engine's robots.
    pub is_proxy: i8,
    pub country_short: String,
    pub country_long: String,
    pub region: String,
    pub city: String,
    pub isp: String,
    pub proxy_type: String,
    pub usage_type: String,
    pub as_name: String,
    pub asn: String,
    pub last_seen: String,
    pub domain: String,
    pub threat: String,
    pub provider: String,
}

/// A record with each text as a sequence of characters.
pub ghost struct RecordView {
    pub ip: Seq<char>,
    pub is_proxy: int,
    pub country_short: Seq<char>,
    pub country_long: Seq<char>,
    pub region: Seq<char>,
    pub city: Seq<char>,
    pub isp: Seq<char>,
    pub proxy_type: Seq<char>,
    pub usage_type: Seq<char>,
    pub as_name: Seq<char>,
    pub asn: Seq<char>,
    pub last_seen: Seq<char>,
    pub domain: Seq<char>,
    pub threat: Seq<char>,
    pub provider: Seq<char>,
}

impl View for Record {
    type V = RecordView;

    open spec fn view(&self) -> RecordView {
        RecordView {
            ip: self.ip@,
            is_proxy: self.is_proxy as int,
            country_short: self.country_short@,
            country_long: self.country_long@,
            region: self.region@,
            city: self.city@,
            isp: self.isp@,
            proxy_type: self.proxy_type@,
            usage_type: self.usage_type@,
            as_name: self.as_name@,
            asn: self.asn@,
            last_seen: self.last_seen@,
            domain: self.domain@,
            threat: self.threat@,
            provider: self.provider@,
        }
    }
}

impl RecordView {
    /// The text of a field.
    pub open spec fn field(self, field: Field) -> Seq<char> {
        match field {
            Field::CountryShort => self.country_short,
            Field::CountryLong => self.country_long,
            Field::Region => self.region,
            Field::City => self.city,
            Field::Isp => self.isp,
            Field::ProxyType => self.proxy_type,
            Field::Domain => self.domain,
            Field::UsageType => self.usage_type,
            Field::AsName => self.as_name,
            Field::Asn => self.asn,
            Field::LastSeen => self.last_seen,
            Field::Threat => self.threat,
            Field::Provider => self.provider,
        }
    }

    /// Every field that databases of type `db_type` do not carry is the
    /// placeholder.
    pub open spec fn keeps_placeholders(self, db_type: u8) -> bool {
        forall|field: Field|
            field.spec_position(db_type) == 0 ==> #[trigger] self.field(field) == PLACEHOLDER@
    }

    /// The record with the text of one field replaced.
    pub open spec fn with_field(self, field: Field, text: Seq<char>) -> RecordView {
        match field {
            Field::CountryShort => RecordView { country_short: text, ..self },
            Field::CountryLong => RecordView { country_long: text, ..self },
            Field::Region => RecordView { region: text, ..self },
            Field::City => RecordView { city: text, ..self },
            Field::Isp => RecordView { isp: text, ..self },
            Field::ProxyType => RecordView { proxy_type: text, ..self },
            Field::Domain => RecordView { domain: text, ..self },
            Field::UsageType => RecordView { usage_type: text, ..self },
            Field::AsName => RecordView { as_name: text, ..self },
            Field::Asn => RecordView { asn: text, ..self },
            Field::LastSeen => RecordView { last_seen: text, ..self },
            Field::Threat => RecordView { threat: text, ..self },
            Field::Provider => RecordView { provider: text, ..self },
        }
    }

    /// The record of which nothing is known: no address, the classification
    /// undetermined, every field the placeholder.
    pub open spec fn empty() -> RecordView {
        RecordView {
            ip: Seq::empty(),
            is_proxy: -1,
            country_short: PLACEHOLDER@,
            country_long: PLACEHOLDER@,
            region: PLACEHOLDER@,
            city: PLACEHOLDER@,
            isp: PLACEHOLDER@,
            proxy_type: PLACEHOLDER@,
            usage_type: PLACEHOLDER@,
            as_name: PLACEHOLDER@,
            asn: PLACEHOLDER@,
            last_seen: PLACEHOLDER@,
            domain: PLACEHOLDER@,
            threat: PLACEHOLDER@,
            provider: PLACEHOLDER@,
        }
    }
}

/// The classification that a database of type `db_type` gives to a row.
///
/// A database of type 1 marks a row that is no proxy by the country code
/// `"-"`; every other type marks it by the proxy type `"-"`. Of the rows that
/// are proxies, those of proxy type `"DCH"` or `"SES"` are class 2, the
/// others class 1.
pub open spec fn spec_classify(db_type: u8, country_short: Seq<char>, proxy_type: Seq<char>) -> int {
    let marker = if db_type == 1 {
        country_short
    } else {
        proxy_type
    };
    if marker == "-"@ {
        0
    } else if proxy_type == "DCH"@ || proxy_type == "SES"@ {
        2
    } else {
        1
    }
}

/// Classifies a row by its country code and its proxy type.
pub fn classify(db_type: u8, country_short: &String, proxy_type: &String) -> (class: i8)
    ensures
        class == spec_classify(db_type, country_short@, proxy_type@),
{
    let none: String = "-".to_owned();
    let marker: &String = if db_type == 1 {
        country_short
    } else {
        proxy_type
    };
    if *marker == none {
        0
    } else {
        let dch: String = "DCH".to_owned();
        let ses: String = "SES".to_owned();
        if *proxy_type == dch || *proxy_type == ses {
            2
        } else {
            1
        }
    }
}

impl Record {
    /// Replaces the text of one field.
    pub fn with_field(self, field: Field, text: String) -> (record: Record)
        ensures
            record@ == self@.with_field(field, text@),
    {
        let mut record = self;
        match field {
            Field::CountryShort => {
                record.country_short = text;
            },
            Field::CountryLong => {
                record.country_long = text;
            },
            Field::Region => {
                record.region = text;
            },
            Field::City => {
                record.city = text;
            },
            Field::Isp => {
                record.isp = text;
            },
            Field::ProxyType => {
                record.proxy_type = text;
            },
            Field::Domain => {
                record.domain = text;
            },
            Field::UsageType => {
                record.usage_type = text;
            },
            Field::AsName => {
                record.as_name = text;
            },
            Field::Asn => {
                record.asn = text;
            },
            Field::LastSeen => {
                record.last_seen = text;
            },
            Field::Threat => {
                record.threat = text;
            },
            Field::Provider => {
                record.provider = text;
            },
        }
        record
    }

    /// Sets the address of the record.
    pub fn with_ip(self, ip: String) -> (record: Record)
        ensures
            record@ == (RecordView { ip: ip@, ..self@ }),
            forall|db_type: u8|
                self@.keeps_placeholders(db_type) ==> #[trigger] record@.keeps_placeholders(
                    db_type,
                ),
    {
        let mut record = self;
        record.ip = ip;
        proof {
            assert forall|db_type: u8| self@.keeps_placeholders(db_type) implies #[trigger]
                record@.keeps_placeholders(db_type) by {
                assert forall|field: Field| field.spec_position(db_type) == 0 implies #[trigger]
                    record@.field(field) == PLACEHOLDER@ by {
                    assert(record@.field(field) == self@.field(field));
                }
            }
        }
        record
    }

    /// Sets the classification from the country code and the proxy type
    /// that the record holds.
    pub fn classified(self, db_type: u8) -> (record: Record)
        ensures
            record@ == (RecordView {
                is_proxy: spec_classify(db_type, self@.country_short, self@.proxy_type),
                ..self@
            }),
    {
        let mut record = self;
        record.is_proxy = classify(db_type, &record.country_short, &record.proxy_type);
        record
    }

    /// The record of which nothing is known.
    pub fn new_empty() -> (record: Record)
        ensures
            record@ == RecordView::empty(),
    {
        Record {
            ip: String::new(),
            is_proxy: -1,
            country_short: PLACEHOLDER.to_owned(),
            country_long: PLACEHOLDER.to_owned(),
            region: PLACEHOLDER.to_owned(),
            city: PLACEHOLDER.to_owned(),
            isp: PLACEHOLDER.to_owned(),
            proxy_type: PLACEHOLDER.to_owned(),
            usage_type: PLACEHOLDER.to_owned(),
            as_name: PLACEHOLDER.to_owned(),
            asn: PLACEHOLDER.to_owned(),
            last_seen: PLACEHOLDER.to_owned(),
            domain: PLACEHOLDER.to_owned(),
            threat: PLACEHOLDER.to_owned(),
            provider: PLACEHOLDER.to_owned(),
        }
    }
}

} // verus!
