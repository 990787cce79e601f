//! Which columns a database of a given type carries.
//!
//! A row is a sequence of 4-byte columns. Column 1 is the first address of the
//! row's range; each other column points to a string. The tables below give,
//! for every database type, the column of each field, or 0 where databases of
//! that type do not carry the field.
use vstd::prelude::*;

verus! {

/// The number of database types that the tables know.
pub const DB_TYPES: usize = 12;

pub const COUNTRY_POSITION: [u32; 12] = [0, 2, 3, 3, 3, 3, 3, 3, 3, 3, 3, 3];

pub const REGION_POSITION: [u32; 12] = [0, 0, 0, 4, 4, 4, 4, 4, 4, 4, 4, 4];

pub const CITY_POSITION: [u32; 12] = [0, 0, 0, 5, 5, 5, 5, 5, 5, 5, 5, 5];

pub const ISP_POSITION: [u32; 12] = [0, 0, 0, 0, 6, 6, 6, 6, 6, 6, 6, 6];

pub const PROXYTYPE_POSITION: [u32; 12] = [0, 0, 2, 2, 2, 2, 2, 2, 2, 2, 2, 2];

pub const DOMAIN_POSITION: [u32; 12] = [0, 0, 0, 0, 0, 7, 7, 7, 7, 7, 7, 7];

pub const USAGETYPE_POSITION: [u32; 12] = [0, 0, 0, 0, 0, 0, 8, 8, 8, 8, 8, 8];

pub const ASN_POSITION: [u32; 12] = [0, 0, 0, 0, 0, 0, 0, 9, 9, 9, 9, 9];

pub const AS_POSITION: [u32; 12] = [0, 0, 0, 0, 0, 0, 0, 10, 10, 10, 10, 10];

pub const LASTSEEN_POSITION: [u32; 12] = [0, 0, 0, 0, 0, 0, 0, 0, 11, 11, 11, 11];

pub const THREAT_POSITION: [u32; 12] = [0, 0, 0, 0, 0, 0, 0, 0, 0, 12, 12, 12];

pub const PROVIDER_POSITION: [u32; 12] = [0, 0, 0, 0, 0, 0, 0, 0, 0, 0, 0, 13];

/// The fields of a record that a row may carry.
#[derive(Debug, Clone, Copy, PartialEq, Eq, Structural)]
pub enum Field {
    CountryShort,
    CountryLong,
    Region,
    City,
    Isp,
    ProxyType,
    Domain,
    UsageType,
    AsName,
    Asn,
    LastSeen,
    Threat,
    Provider,
}

/// The number of fields.
pub const FIELDS: usize = 13;

impl Field {
    /// The table of the field. The two names of a country share one column.
    pub open spec fn spec_table(self) -> [u32; 12] {
        match self {
            Field::CountryShort => COUNTRY_POSITION,
            Field::CountryLong => COUNTRY_POSITION,
            Field::Region => REGION_POSITION,
            Field::City => CITY_POSITION,
            Field::Isp => ISP_POSITION,
            Field::ProxyType => PROXYTYPE_POSITION,
            Field::Domain => DOMAIN_POSITION,
            Field::UsageType => USAGETYPE_POSITION,
            Field::AsName => ASN_POSITION,
            Field::Asn => AS_POSITION,
            Field::LastSeen => LASTSEEN_POSITION,
            Field::Threat => THREAT_POSITION,
            Field::Provider => PROVIDER_POSITION,
        }
    }

    /// The 1-based column of the field in a row of a database of type
    /// `db_type`; 0 where the type does not carry the field, or is not in the
    /// tables.
    pub open spec fn spec_position(self, db_type: u8) -> u32 {
        if db_type < DB_TYPES {
            self.spec_table()[db_type as int]
        } else {
            0
        }
    }

    /// How far behind the column's pointer the field's text is found: the
    /// long name of a country follows the three bytes kept for its short
    /// name.
    pub open spec fn spec_shift(self) -> u64 {
        match self {
            Field::CountryLong => 3,
            _ => 0,
        }
    }

    /// The fields in the order in which a record is decoded, counted from 0.
    pub open spec fn spec_nth(k: int) -> Field {
        if k == 0 {
            Field::CountryShort
        } else if k == 1 {
            Field::CountryLong
        } else if k == 2 {
            Field::Region
        } else if k == 3 {
            Field::City
        } else if k == 4 {
            Field::Isp
        } else if k == 5 {
            Field::ProxyType
        } else if k == 6 {
            Field::Domain
        } else if k == 7 {
            Field::UsageType
        } else if k == 8 {
            Field::AsName
        } else if k == 9 {
            Field::Asn
        } else if k == 10 {
            Field::LastSeen
        } else if k == 11 {
            Field::Threat
        } else {
            Field::Provider
        }
    }

    /// The number of the field in decoding order.
    pub open spec fn spec_rank(self) -> int {
        match self {
            Field::CountryShort => 0,
            Field::CountryLong => 1,
            Field::Region => 2,
            Field::City => 3,
            Field::Isp => 4,
            Field::ProxyType => 5,
            Field::Domain => 6,
            Field::UsageType => 7,
            Field::AsName => 8,
            Field::Asn => 9,
            Field::LastSeen => 10,
            Field::Threat => 11,
            Field::Provider => 12,
        }
    }

    /// The `k`-th field in decoding order, counted from 0; the last field
    /// for every `k` from 12 on.
    pub fn nth(k: usize) -> (field: Field)
        ensures
            field == Field::spec_nth(k as int),
            k < FIELDS ==> field.spec_rank() == k,
    {
        if k == 0 {
            Field::CountryShort
        } else if k == 1 {
            Field::CountryLong
        } else if k == 2 {
            Field::Region
        } else if k == 3 {
            Field::City
        } else if k == 4 {
            Field::Isp
        } else if k == 5 {
            Field::ProxyType
        } else if k == 6 {
            Field::Domain
        } else if k == 7 {
            Field::UsageType
        } else if k == 8 {
            Field::AsName
        } else if k == 9 {
            Field::Asn
        } else if k == 10 {
            Field::LastSeen
        } else if k == 11 {
            Field::Threat
        } else {
            Field::Provider
        }
    }

    /// Looks the field up in its table of positions.
    pub fn position(self, db_type: u8) -> (p: u32)
        ensures
            p == self.spec_position(db_type),
    {
        let t: usize = db_type as usize;
        if t < DB_TYPES {
            match self {
                Field::CountryShort => COUNTRY_POSITION[t],
                Field::CountryLong => COUNTRY_POSITION[t],
                Field::Region => REGION_POSITION[t],
                Field::City => CITY_POSITION[t],
                Field::Isp => ISP_POSITION[t],
                Field::ProxyType => PROXYTYPE_POSITION[t],
                Field::Domain => DOMAIN_POSITION[t],
                Field::UsageType => USAGETYPE_POSITION[t],
                Field::AsName => ASN_POSITION[t],
                Field::Asn => AS_POSITION[t],
                Field::LastSeen => LASTSEEN_POSITION[t],
                Field::Threat => THREAT_POSITION[t],
                Field::Provider => PROVIDER_POSITION[t],
            }
        } else {
            0
        }
    }

    /// The distance from the column's pointer to the field's text.
    pub fn shift(self) -> (d: u64)
        ensures
            d == self.spec_shift(),
    {
        match self {
            Field::CountryLong => 3,
            _ => 0,
        }
    }
}

/// Every position in the tables is 0 or lies between 2 and 13: column 1 is
/// the first address of the range, and no row is wider than 13 columns.
pub proof fn lemma_position_range(field: Field, db_type: u8)
    ensures
        field.spec_position(db_type) == 0 || 2 <= field.spec_position(db_type) <= 13,
{
}

} // verus!
