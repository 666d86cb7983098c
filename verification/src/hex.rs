//! Hexadecimal text: the value and the digits of a byte, the uppercase
//! hex text of a byte sequence, and the parser that turns hex text
//! back into bytes.

use crate::HexError;
use vstd::prelude::*;

verus! {

/// True of the characters that stand for a hex digit: `0`-`9`,
/// `A`-`F` and `a`-`f`.
pub open spec fn is_hex_digit(c: char) -> bool {
    ('0' <= c && c <= '9') || ('A' <= c && c <= 'F') || ('a' <= c && c <= 'f')
}

/// The numeric value of a hex digit character; zero elsewhere.
pub open spec fn hex_digit_value(c: char) -> int {
    if '0' <= c && c <= '9' {
        c as int - '0' as int
    } else if 'A' <= c && c <= 'F' {
        c as int - 'A' as int + 10
    } else if 'a' <= c && c <= 'f' {
        c as int - 'a' as int + 10
    } else {
        0
    }
}

/// The uppercase hex digit character for a value below sixteen.
pub open spec fn hex_digit_char(v: int) -> char {
    if v == 0 {
        '0'
    } else if v == 1 {
        '1'
    } else if v == 2 {
        '2'
    } else if v == 3 {
        '3'
    } else if v == 4 {
        '4'
    } else if v == 5 {
        '5'
    } else if v == 6 {
        '6'
    } else if v == 7 {
        '7'
    } else if v == 8 {
        '8'
    } else if v == 9 {
        '9'
    } else if v == 10 {
        'A'
    } else if v == 11 {
        'B'
    } else if v == 12 {
        'C'
    } else if v == 13 {
        'D'
    } else if v == 14 {
        'E'
    } else {
        'F'
    }
}

/// The two uppercase hex digits of one byte, high digit first.
pub open spec fn hex_byte_chars(b: u8) -> Seq<char> {
    seq![hex_digit_char(b as int / 16), hex_digit_char(b as int % 16)]
}

/// The uppercase hex text of a byte sequence: two digits per byte, in
/// order.
pub open spec fn hex_text_of(s: Seq<u8>) -> Seq<char>
    decreases s.len(),
{
    if s.len() == 0 {
        Seq::empty()
    } else {
        hex_byte_chars(s[0]) + hex_text_of(s.skip(1))
    }
}

/// True of text the parser accepts: an even number of characters, all
/// of them hex digits.
pub open spec fn valid_hex_text(s: Seq<char>) -> bool {
    s.len() % 2 == 0 && (forall|i: int| 0 <= i < s.len() ==> is_hex_digit(#[trigger] s[i]))
}

/// The bytes that hex text denotes: each pair of digits one byte, the
/// high digit first.
pub open spec fn spec_parse_hex(s: Seq<char>) -> Seq<u8>
    decreases s.len(),
{
    if s.len() < 2 {
        Seq::empty()
    } else {
        seq![(hex_digit_value(s[0]) * 16 + hex_digit_value(s[1])) as u8] + spec_parse_hex(
            s.skip(2),
        )
    }
}

/// Hex text splits at any even boundary: parsing a concatenation
/// parses the parts.
pub proof fn lemma_spec_parse_hex_concat(a: Seq<char>, b: Seq<char>)
    requires
        a.len() % 2 == 0,
    ensures
        spec_parse_hex(a + b) == spec_parse_hex(a) + spec_parse_hex(b),
    decreases a.len(),
{
    if a.len() == 0 {
        assert(a + b =~= b);
        assert(spec_parse_hex(a) + spec_parse_hex(b) =~= spec_parse_hex(b));
    } else {
        assert((a + b).skip(2) =~= a.skip(2) + b);
        lemma_spec_parse_hex_concat(a.skip(2), b);
        assert(spec_parse_hex(a + b) =~= spec_parse_hex(a) + spec_parse_hex(b));
    }
}

/// The hex text of a concatenation is the concatenation of the hex
/// texts.
pub proof fn lemma_hex_text_of_concat(a: Seq<u8>, b: Seq<u8>)
    ensures
        hex_text_of(a + b) == hex_text_of(a) + hex_text_of(b),
    decreases a.len(),
{
    if a.len() == 0 {
        assert(a + b =~= b);
        assert(hex_text_of(a) + hex_text_of(b) =~= hex_text_of(b));
    } else {
        assert((a + b).skip(1) =~= a.skip(1) + b);
        lemma_hex_text_of_concat(a.skip(1), b);
        assert(hex_text_of(a + b) =~= hex_text_of(a) + hex_text_of(b));
    }
}

/// The hex text of one byte is its two digits.
pub proof fn lemma_hex_text_of_singleton(b: u8)
    ensures
        hex_text_of(seq![b]) == hex_byte_chars(b),
{
    assert(seq![b].skip(1) =~= Seq::<u8>::empty());
    assert(hex_text_of(Seq::<u8>::empty()) == Seq::<char>::empty());
    assert(hex_text_of(seq![b]) =~= hex_byte_chars(b));
}

/// A hex digit character carries the value it was chosen for.
pub proof fn lemma_hex_digit_char_value(v: int)
    requires
        0 <= v < 16,
    ensures
        is_hex_digit(hex_digit_char(v)),
        hex_digit_value(hex_digit_char(v)) == v,
{
}

/// Law: parsing the uppercase hex text of a byte sequence gives the
/// sequence back, and that text is always accepted by the parser.
pub proof fn lemma_parse_hex_text_roundtrip(s: Seq<u8>)
    ensures
        valid_hex_text(hex_text_of(s)),
        spec_parse_hex(hex_text_of(s)) == s,
    decreases s.len(),
{
    if s.len() == 0 {
        assert(spec_parse_hex(hex_text_of(s)) =~= s);
    } else {
        let b = s[0];
        let rest = s.skip(1);
        lemma_parse_hex_text_roundtrip(rest);
        lemma_hex_digit_char_value(b as int / 16);
        lemma_hex_digit_char_value(b as int % 16);
        let text = hex_text_of(s);
        assert(text == hex_byte_chars(b) + hex_text_of(rest));
        assert(text.len() % 2 == 0);
        assert forall|i: int| 0 <= i < text.len() implies is_hex_digit(#[trigger] text[i]) by {
            if i >= 2 {
                assert(text[i] == hex_text_of(rest)[i - 2]);
            }
        }
        assert(text.skip(2) =~= hex_text_of(rest));
        assert(hex_digit_value(text[0]) * 16 + hex_digit_value(text[1]) == b as int);
        assert(spec_parse_hex(text) =~= s);
    }
}

/// The numeric value of one hex digit character, or `None` where the
/// character is no hex digit.
pub fn hex_value(c: char) -> (r: Option<u8>)
    ensures
        r is Some <==> is_hex_digit(c),
        r is Some ==> r.unwrap() as int == hex_digit_value(c),
{
    match c {
        '0' => Some(0),
        '1' => Some(1),
        '2' => Some(2),
        '3' => Some(3),
        '4' => Some(4),
        '5' => Some(5),
        '6' => Some(6),
        '7' => Some(7),
        '8' => Some(8),
        '9' => Some(9),
        'A' | 'a' => Some(10),
        'B' | 'b' => Some(11),
        'C' | 'c' => Some(12),
        'D' | 'd' => Some(13),
        'E' | 'e' => Some(14),
        'F' | 'f' => Some(15),
        _ => None,
    }
}

/// Parses a string of hex digit characters into the bytes it denotes.
/// Fails with `MalformedHexText` exactly when the text has odd length
/// or holds a character that is no hex digit.
pub fn parse_hex_string(hex_string: &String) -> (r: Result<Vec<u8>, HexError>)
    ensures
        match r {
            Ok(bytes) => valid_hex_text(hex_string@) && bytes@ == spec_parse_hex(hex_string@),
            Err(e) => e == HexError::MalformedHexText && !valid_hex_text(hex_string@),
        },
{
    let s = hex_string.as_str();
    let n = s.unicode_len();
    if n % 2 != 0 {
        return Err(HexError::MalformedHexText);
    }
    let mut bytes: Vec<u8> = Vec::new();
    let mut i: usize = 0;
    while i < n
        invariant
            n == s@.len(),
            s@ == hex_string@,
            n % 2 == 0,
            i % 2 == 0,
            i <= n,
            forall|j: int| 0 <= j < i ==> is_hex_digit(#[trigger] s@[j]),
            bytes@ == spec_parse_hex(s@.take(i as int)),
        decreases n - i,
    {
        let c_hi = s.get_char(i);
        let c_lo = s.get_char(i + 1);
        let v_hi = match hex_value(c_hi) {
            Some(v) => v,
            None => {
                return Err(HexError::MalformedHexText);
            },
        };
        let v_lo = match hex_value(c_lo) {
            Some(v) => v,
            None => {
                return Err(HexError::MalformedHexText);
            },
        };
        bytes.push(v_hi * 16 + v_lo);
        proof {
            let prefix = s@.take(i as int);
            let pair = seq![c_hi, c_lo];
            assert(s@.take(i + 2) =~= prefix + pair);
            lemma_spec_parse_hex_concat(prefix, pair);
            assert(pair.skip(2) =~= Seq::<char>::empty());
            assert(spec_parse_hex(Seq::<char>::empty()) == Seq::<u8>::empty());
            assert(spec_parse_hex(pair) =~= seq![(v_hi * 16 + v_lo) as u8]);
            assert(bytes@ =~= spec_parse_hex(s@.take(i + 2)));
        }
        i += 2;
    }
    proof {
        assert(s@.take(n as int) =~= s@);
    }
    Ok(bytes)
}

} // verus!
