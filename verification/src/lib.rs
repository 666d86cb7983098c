//! An Intel HEX encoding engine: chunking of a byte buffer into
//! fixed-size data records, per-record checksum computation, canonical
//! textual formatting of each record, and the inverse primitive of
//! parsing hexadecimal text into raw bytes.

pub mod checksum;
pub mod convert;
pub mod hex;
pub mod record;

use vstd::prelude::*;

verus! {

/// Failure of the encoding engine: the hex text handed to the parser
/// is not a sequence of hex digit pairs, or a record was asked to
/// carry more than sixteen data bytes.
#[derive(Clone, Copy, Debug, PartialEq, Eq, Structural)]
pub enum HexError {
    MalformedHexText,
    InvalidRecordLength,
}

} // verus!
