//! Prices of financial instruments, read from the pages that market-data
//! sites publish.
//!
//! A page is scanned once, from front to back: a layout names the markers to
//! pass and the fields to read ([`layout`]); a cursor goes from marker to
//! marker ([`cursor`], [`text`]); a field is the text up to the next tag,
//! cleaned and read as a decimal number ([`field`], [`amount`]). A run pairs
//! each wanted instrument with its source ([`selection`], [`batch`]), turns
//! the response to each request into a price or a failure ([`download`]) and
//! reports both in the order of the instruments, in whatever order the
//! responses arrive. Requests and files are left to the caller, who gets the
//! addresses to fetch and the rows to write ([`export`]).

pub mod amount;
pub mod batch;
pub mod cursor;
pub mod date;
pub mod download;
pub mod error;
pub mod export;
pub mod field;
pub mod layout;
pub mod model;
pub mod my_date_format;
pub mod optional;
pub mod selection;
pub mod text;
