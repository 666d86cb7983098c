//! The conversion pass: hex-text lines parsed and concatenated into
//! one flat buffer, and the buffer walked in windows of at most
//! sixteen bytes, each window emitted as one data record at its
//! offset.

use crate::HexError;
use crate::hex::parse_hex_string;
use crate::hex::spec_parse_hex;
use crate::hex::valid_hex_text;
use crate::record::MAX_RECORD_LEN;
use crate::record::convert_to_line;
use crate::record::record_line;
use vstd::prelude::*;

verus! {

/// The byte buffer that a sequence of hex-text lines denotes: each
/// line parsed, the results concatenated in order.
pub open spec fn spec_parse_lines(lines: Seq<Seq<char>>) -> Seq<u8>
    decreases lines.len(),
{
    if lines.len() == 0 {
        Seq::empty()
    } else {
        spec_parse_hex(lines[0]) + spec_parse_lines(lines.skip(1))
    }
}

/// A sequence of lines parses part by part: parsing a concatenation
/// of line sequences parses the parts.
pub proof fn lemma_spec_parse_lines_concat(a: Seq<Seq<char>>, b: Seq<Seq<char>>)
    ensures
        spec_parse_lines(a + b) == spec_parse_lines(a) + spec_parse_lines(b),
    decreases a.len(),
{
    if a.len() == 0 {
        assert(a + b =~= b);
        assert(spec_parse_lines(a) + spec_parse_lines(b) =~= spec_parse_lines(b));
    } else {
        assert((a + b).skip(1) =~= a.skip(1) + b);
        lemma_spec_parse_lines_concat(a.skip(1), b);
        assert(spec_parse_lines(a + b) =~= spec_parse_lines(a) + spec_parse_lines(b));
    }
}

/// Parses every line and concatenates the results into one flat byte
/// buffer. Fails with `MalformedHexText` exactly when some line is
/// not even-length hex text.
pub fn parse_lines(lines: &Vec<String>) -> (r: Result<Vec<u8>, HexError>)
    ensures
        match r {
            Ok(buffer) => (forall|i: int|
                0 <= i < lines@.len() ==> valid_hex_text(#[trigger] lines.deep_view()[i]))
                && buffer@ == spec_parse_lines(lines.deep_view()),
            Err(e) => e == HexError::MalformedHexText && (exists|i: int|
                0 <= i < lines@.len() && !valid_hex_text(#[trigger] lines.deep_view()[i])),
        },
{
    let mut buffer: Vec<u8> = Vec::new();
    let mut i: usize = 0;
    while i < lines.len()
        invariant
            i <= lines@.len(),
            forall|j: int| 0 <= j < i ==> valid_hex_text(#[trigger] lines.deep_view()[j]),
            buffer@ == spec_parse_lines(lines.deep_view().take(i as int)),
        decreases lines.len() - i,
    {
        let mut parsed = match parse_hex_string(&lines[i]) {
            Ok(bytes) => bytes,
            Err(_) => {
                proof {
                    assert(!valid_hex_text(lines.deep_view()[i as int]));
                }
                return Err(HexError::MalformedHexText);
            },
        };
        buffer.append(&mut parsed);
        proof {
            let views = lines.deep_view();
            assert(views.take(i + 1) =~= views.take(i as int) + seq![views[i as int]]);
            lemma_spec_parse_lines_concat(views.take(i as int), seq![views[i as int]]);
            assert(seq![views[i as int]].skip(1) =~= Seq::<Seq<char>>::empty());
            assert(spec_parse_lines(Seq::<Seq<char>>::empty()) == Seq::<u8>::empty());
            assert(spec_parse_lines(seq![views[i as int]]) =~= spec_parse_hex(views[i as int]));
            assert(buffer@ =~= spec_parse_lines(views.take(i + 1)));
        }
        i += 1;
    }
    proof {
        assert(lines.deep_view().take(lines@.len() as int) =~= lines.deep_view());
    }
    Ok(buffer)
}

/// The record lines for a byte buffer from a given offset on: windows
/// of at most sixteen bytes, each emitted as a data record whose base
/// address is the window's offset taken modulo 65536.
pub open spec fn spec_buffer_lines(buffer: Seq<u8>, offset: int) -> Seq<Seq<char>>
    decreases buffer.len() - offset,
{
    if offset < 0 || offset >= buffer.len() {
        Seq::empty()
    } else {
        let end = if offset + MAX_RECORD_LEN <= buffer.len() {
            offset + MAX_RECORD_LEN
        } else {
            buffer.len() as int
        };
        seq![record_line(buffer.subrange(offset, end), (offset % 65536) as u16, 0x00)]
            + spec_buffer_lines(buffer, end)
    }
}

/// Walks the buffer in windows of at most sixteen bytes and formats
/// each window as a data record at its cumulative offset, the first
/// window at address zero.
pub fn convert_buffer(buffer: &Vec<u8>) -> (r: Vec<String>)
    ensures
        r.deep_view() == spec_buffer_lines(buffer@, 0),
{
    let mut out: Vec<String> = Vec::new();
    let mut offset: usize = 0;
    while offset < buffer.len()
        invariant
            offset <= buffer@.len(),
            out.deep_view() + spec_buffer_lines(buffer@, offset as int) == spec_buffer_lines(
                buffer@,
                0,
            ),
        decreases buffer.len() - offset,
    {
        let size: usize = if buffer.len() - offset < MAX_RECORD_LEN {
            buffer.len() - offset
        } else {
            MAX_RECORD_LEN
        };
        let mut chunk: Vec<u8> = Vec::new();
        let mut i: usize = 0;
        while i < size
            invariant
                i <= size,
                offset + size <= buffer@.len(),
                buffer@.len() <= usize::MAX,
                chunk@ == buffer@.subrange(offset as int, offset + i),
            decreases size - i,
        {
            chunk.push(buffer[offset + i]);
            proof {
                assert(chunk@ =~= buffer@.subrange(offset as int, offset + i + 1));
            }
            i += 1;
        }
        let address: u16 = (offset % 65536) as u16;
        let line = match convert_to_line(&chunk, address, 0x00) {
            Ok(line) => line,
            Err(_) => {
                proof {
                    assert(false);
                }
                String::new()
            },
        };
        out.push(line);
        proof {
            let ghost old_views = out.deep_view().take(out.deep_view().len() - 1);
            assert(out.deep_view() =~= old_views + seq![line@]);
            assert(spec_buffer_lines(buffer@, offset as int) == seq![
                record_line(chunk@, address, 0x00),
            ] + spec_buffer_lines(buffer@, offset + size));
            assert(out.deep_view() + spec_buffer_lines(buffer@, offset + size)
                =~= spec_buffer_lines(buffer@, 0));
        }
        offset += size;
    }
    proof {
        assert(out.deep_view() + Seq::<Seq<char>>::empty() =~= out.deep_view());
    }
    out
}

/// Law: a buffer of exactly seventeen bytes yields exactly two
/// records, the first sixteen bytes at address zero and the final
/// byte at address sixteen.
pub proof fn lemma_seventeen_byte_buffer(buffer: Seq<u8>)
    requires
        buffer.len() == 17,
    ensures
        spec_buffer_lines(buffer, 0).len() == 2,
        spec_buffer_lines(buffer, 0)[0] == record_line(buffer.subrange(0, 16), 0x0000, 0x00),
        spec_buffer_lines(buffer, 0)[1] == record_line(buffer.subrange(16, 17), 0x0010, 0x00),
{
    assert(spec_buffer_lines(buffer, 17) =~= Seq::<Seq<char>>::empty());
    assert(spec_buffer_lines(buffer, 16) =~= seq![
        record_line(buffer.subrange(16, 17), 0x0010, 0x00),
    ]);
    assert(spec_buffer_lines(buffer, 0) =~= seq![
        record_line(buffer.subrange(0, 16), 0x0000, 0x00),
        record_line(buffer.subrange(16, 17), 0x0010, 0x00),
    ]);
}

} // verus!
