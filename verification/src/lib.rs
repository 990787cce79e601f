//! Read-only lookups over an IP2Proxy binary database.
//!
//! A database is an image of bytes: a fixed preamble, two tables of address
//! ranges sorted by their first address (one for IPv4, one for IPv6), optional
//! index tables that narrow a search, and length-prefixed strings that the rows
//! point to. Every position in an image is counted from 1.
//!
//! All functions here are verified against models over `Seq<u8>`: what a
//! lookup returns is a function of the image and of the address alone.
//!
//! An image that is held in memory or seen through a memory map is looked
//! into directly (`db`, `lookup`). For an image that stays in a file,
//! `stepwise` decides what to read next and leaves the reading to the caller.

pub mod codec;
pub mod db;
pub mod decode;
pub mod error;
pub mod header;
pub mod laws;
pub mod lookup;
pub mod record;
pub mod schema;
pub mod search;
pub mod stepwise;
pub mod store;
