//! The record formatter: one data chunk, its 16-bit base address and
//! its type byte rendered as one canonical Intel HEX text line.

use crate::HexError;
use crate::checksum::calc_checksum;
use crate::checksum::spec_checksum;
use crate::hex::hex_byte_chars;
use crate::hex::hex_digit_char;
use crate::hex::hex_text_of;
use crate::hex::lemma_hex_text_of_concat;
use crate::hex::lemma_hex_text_of_singleton;
use vstd::prelude::*;
use vstd::string::StrSliceExecFns;
use vstd::string::StringExecFns;

verus! {

/// The most data bytes one record may carry.
pub const MAX_RECORD_LEN: usize = 16;

/// The bytes whose sum the record checksum balances: length, address
/// high byte, address low byte, type byte, then the data bytes.
pub open spec fn record_bytes(data: Seq<u8>, address: u16, type_byte: u8) -> Seq<u8> {
    seq![data.len() as u8, (address / 256) as u8, (address % 256) as u8, type_byte] + data
}

/// The canonical text of one record: a colon, then length, address,
/// type, data and checksum, each field as uppercase hex digits.
pub open spec fn record_line(data: Seq<u8>, address: u16, type_byte: u8) -> Seq<char> {
    seq![':'] + hex_byte_chars(data.len() as u8) + hex_byte_chars((address / 256) as u8)
        + hex_byte_chars((address % 256) as u8) + hex_byte_chars(type_byte) + hex_text_of(data)
        + hex_byte_chars(spec_checksum(record_bytes(data, address, type_byte)))
}

/// The one-character string for an uppercase hex digit value.
fn hex_digit_str(v: u8) -> (r: &'static str)
    requires
        v < 16,
    ensures
        r@.len() == 1,
        r@[0] == hex_digit_char(v as int),
{
    proof {
        reveal_strlit("0");
        reveal_strlit("1");
        reveal_strlit("2");
        reveal_strlit("3");
        reveal_strlit("4");
        reveal_strlit("5");
        reveal_strlit("6");
        reveal_strlit("7");
        reveal_strlit("8");
        reveal_strlit("9");
        reveal_strlit("A");
        reveal_strlit("B");
        reveal_strlit("C");
        reveal_strlit("D");
        reveal_strlit("E");
        reveal_strlit("F");
    }
    match v {
        0 => "0",
        1 => "1",
        2 => "2",
        3 => "3",
        4 => "4",
        5 => "5",
        6 => "6",
        7 => "7",
        8 => "8",
        9 => "9",
        10 => "A",
        11 => "B",
        12 => "C",
        13 => "D",
        14 => "E",
        _ => "F",
    }
}

/// Appends the two uppercase hex digits of one byte to a line.
fn push_hex_byte(line: &mut String, b: u8)
    ensures
        final(line)@ == old(line)@ + hex_byte_chars(b),
{
    line.append(hex_digit_str(b / 16));
    line.append(hex_digit_str(b % 16));
    proof {
        assert(line@ =~= old(line)@ + hex_byte_chars(b));
    }
}

/// Formats one record. Fails with `InvalidRecordLength` exactly when
/// the data chunk holds more than sixteen bytes; otherwise the line is
/// the canonical record text for the chunk, address and type byte.
pub fn convert_to_line(bytes: &Vec<u8>, address: u16, type_byte: u8) -> (r: Result<
    String,
    HexError,
>)
    ensures
        match r {
            Ok(line) => bytes@.len() <= MAX_RECORD_LEN && line@ == record_line(
                bytes@,
                address,
                type_byte,
            ),
            Err(e) => e == HexError::InvalidRecordLength && bytes@.len() > MAX_RECORD_LEN,
        },
{
    if bytes.len() > MAX_RECORD_LEN {
        return Err(HexError::InvalidRecordLength);
    }
    let length: u8 = bytes.len() as u8;
    let address_high: u8 = (address / 256) as u8;
    let address_low: u8 = (address % 256) as u8;
    let mut checksum_bytes: Vec<u8> = Vec::new();
    checksum_bytes.push(length);
    checksum_bytes.push(address_high);
    checksum_bytes.push(address_low);
    checksum_bytes.push(type_byte);
    let mut i: usize = 0;
    while i < bytes.len()
        invariant
            i <= bytes@.len(),
            checksum_bytes@ == seq![
                bytes@.len() as u8,
                (address / 256) as u8,
                (address % 256) as u8,
                type_byte,
            ] + bytes@.take(i as int),
        decreases bytes.len() - i,
    {
        checksum_bytes.push(bytes[i]);
        proof {
            assert(checksum_bytes@ =~= seq![
                bytes@.len() as u8,
                (address / 256) as u8,
                (address % 256) as u8,
                type_byte,
            ] + bytes@.take(i + 1));
        }
        i += 1;
    }
    proof {
        assert(bytes@.take(bytes@.len() as int) =~= bytes@);
        assert(checksum_bytes@ == record_bytes(bytes@, address, type_byte));
    }
    let checksum = calc_checksum(&checksum_bytes);
    let mut line = String::new();
    proof {
        reveal_strlit(":");
    }
    line.append(":");
    push_hex_byte(&mut line, length);
    push_hex_byte(&mut line, address_high);
    push_hex_byte(&mut line, address_low);
    push_hex_byte(&mut line, type_byte);
    let ghost header = seq![':'] + hex_byte_chars(length) + hex_byte_chars(address_high)
        + hex_byte_chars(address_low) + hex_byte_chars(type_byte);
    proof {
        assert(line@ =~= header);
    }
    let mut j: usize = 0;
    while j < bytes.len()
        invariant
            j <= bytes@.len(),
            header == seq![':'] + hex_byte_chars(bytes@.len() as u8) + hex_byte_chars(
                (address / 256) as u8,
            ) + hex_byte_chars((address % 256) as u8) + hex_byte_chars(type_byte),
            line@ == header + hex_text_of(bytes@.take(j as int)),
        decreases bytes.len() - j,
    {
        push_hex_byte(&mut line, bytes[j]);
        proof {
            assert(bytes@.take(j + 1) =~= bytes@.take(j as int) + seq![bytes@[j as int]]);
            lemma_hex_text_of_concat(bytes@.take(j as int), seq![bytes@[j as int]]);
            lemma_hex_text_of_singleton(bytes@[j as int]);
            assert(line@ =~= header + hex_text_of(bytes@.take(j + 1)));
        }
        j += 1;
    }
    push_hex_byte(&mut line, checksum);
    proof {
        assert(bytes@.take(bytes@.len() as int) =~= bytes@);
        assert(line@ =~= record_line(bytes@, address, type_byte));
    }
    Ok(line)
}

} // verus!
