//! The text that framed lines carry: each line is UTF-8, decoded on its own.
use crate::lines::{
    after_first_line,
    complete_lines,
    first_line,
    has_line,
    lemma_written_line_reads_back,
    unfinished,
    LineBuffer,
    CARRIAGE_RETURN,
    LINE_FEED,
};
use vstd::prelude::*;
use vstd::string::*;
use vstd::utf8::*;

verus! {

/// What a run of buffered bytes yields as text.
pub struct TextLines {
    /// The finished lines before the first one that is not UTF-8, decoded.
    pub lines: Seq<Seq<char>>,
    /// The bytes that stay buffered.
    pub rest: Seq<u8>,
    /// Whether every finished line was UTF-8. Where one was not, it is dropped
    /// and `rest` starts behind it.
    pub clean: bool,
}

/// The finished lines of `bytes` as text, up to the first line that is not
/// UTF-8.
pub open spec fn text_lines(bytes: Seq<u8>) -> TextLines
    decreases bytes.len(),
{
    if !has_line(bytes) {
        TextLines { lines: Seq::empty(), rest: bytes, clean: true }
    } else if !valid_utf8(first_line(bytes)) {
        TextLines { lines: Seq::empty(), rest: after_first_line(bytes), clean: false }
    } else {
        let later = text_lines(after_first_line(bytes));
        TextLines {
            lines: seq![decode_utf8(first_line(bytes))] + later.lines,
            rest: later.rest,
            clean: later.clean,
        }
    }
}

/// What stays buffered after the finished lines holds no finished line.
pub proof fn lemma_rest_holds_no_line(bytes: Seq<u8>)
    requires
        text_lines(bytes).clean,
    ensures
        !has_line(text_lines(bytes).rest),
    decreases bytes.len(),
{
    if has_line(bytes) {
        lemma_rest_holds_no_line(after_first_line(bytes));
    }
}

/// Lines written one after the other, each followed by a line feed.
pub open spec fn joined(lines: Seq<Seq<char>>) -> Seq<char>
    decreases lines.len(),
{
    if lines.len() == 0 {
        Seq::empty()
    } else {
        lines[0] + seq!['\n'] + joined(lines.skip(1))
    }
}

/// `String::from_utf8` of std. Claimed of it: it succeeds exactly on valid
/// UTF-8, and the string it returns is made of the bytes it was given.
#[verifier::external_body]
fn string_from_utf8(bytes: Vec<u8>) -> (text: Option<String>)
    ensures
        text is Some <==> valid_utf8(bytes@),
        text is Some ==> encode_utf8(text->0@) == bytes@,
{
    String::from_utf8(bytes).ok()
}

/// Decodes one line. `None` where the bytes are not UTF-8.
pub fn decode_line(bytes: Vec<u8>) -> (text: Option<String>)
    ensures
        match text {
            Some(line) => valid_utf8(bytes@) && line@ == decode_utf8(bytes@),
            None => !valid_utf8(bytes@),
        },
{
    let text = string_from_utf8(bytes);
    proof {
        if text is Some {
            encode_utf8_decode_utf8(text->0@);
        }
    }
    text
}

/// The bytes that put `line` on the wire: its UTF-8 encoding and a line feed.
pub open spec fn wire_form(line: Seq<char>) -> Seq<u8> {
    encode_utf8(line).push(LINE_FEED)
}

/// Encodes one line for the wire.
pub fn encode_line(line: &str) -> (bytes: Vec<u8>)
    ensures
        bytes@ == wire_form(line@),
{
    let mut bytes = line.as_bytes_vec();
    bytes.push(LINE_FEED);
    bytes
}

/// What the front of a buffer holds, as text.
pub enum NextText {
    /// No finished line is buffered.
    Pending,
    /// The next line, decoded.
    Line(String),
    /// The next line was not UTF-8. It is gone from the buffer.
    Undecodable,
}

/// Takes the next finished line out of `buffer` as text.
pub fn next_text(buffer: &mut LineBuffer) -> (next: NextText)
    ensures
        match next {
            NextText::Pending => !has_line(old(buffer)@) && final(buffer)@ == old(buffer)@,
            NextText::Line(line) => has_line(old(buffer)@) && valid_utf8(first_line(old(buffer)@))
                && line@ == decode_utf8(first_line(old(buffer)@)) && final(buffer)@
                == after_first_line(old(buffer)@),
            NextText::Undecodable => has_line(old(buffer)@) && !valid_utf8(
                first_line(old(buffer)@),
            ) && final(buffer)@ == after_first_line(old(buffer)@),
        },
{
    match buffer.next_line() {
        None => NextText::Pending,
        Some(bytes) => match decode_line(bytes) {
            Some(line) => NextText::Line(line),
            None => NextText::Undecodable,
        },
    }
}

proof fn lemma_marked_bytes(low: u8)
    by (bit_vector)
    ensures
        0xC0u8 | low >= 0x80,
        0xE0u8 | low >= 0x80,
        0xF0u8 | low >= 0x80,
        0x80u8 | low >= 0x80,
{
}

/// A byte below 128 stands in the encoding of a scalar only as that scalar
/// itself: every byte of a longer encoding is 128 or more.
proof fn lemma_scalar_low_byte(scalar: u32, byte: u8)
    requires
        is_scalar(scalar),
        byte < 0x80,
    ensures
        encode_scalar(scalar).len() > 0,
        forall|j: int|
            0 <= j < encode_scalar(scalar).len() ==> (#[trigger] encode_scalar(scalar)[j] == byte
                <==> scalar == byte),
{
    if has_width_1_encoding(scalar) {
        assert((scalar & 0x7F) as u8 == scalar) by (bit_vector)
            requires
                scalar <= 0x7F,
        ;
    } else {
        lemma_marked_bytes(((scalar >> 6) & 0x1F) as u8);
        lemma_marked_bytes(((scalar >> 12) & 0x0F) as u8);
        lemma_marked_bytes(((scalar >> 18) & 0x7) as u8);
        lemma_marked_bytes((scalar & 0x3F) as u8);
        lemma_marked_bytes(((scalar >> 6) & 0x3F) as u8);
        lemma_marked_bytes(((scalar >> 12) & 0x3F) as u8);
    }
}

/// Text without a given ASCII character is encoded without that byte.
pub proof fn lemma_encoding_without(chars: Seq<char>, byte: u8)
    requires
        byte < 0x80,
        forall|i: int| 0 <= i < chars.len() ==> chars[i] as u32 != byte,
    ensures
        forall|j: int| 0 <= j < encode_utf8(chars).len() ==> encode_utf8(chars)[j] != byte,
    decreases chars.len(),
{
    if chars.len() > 0 {
        char_is_scalar(chars[0]);
        lemma_scalar_low_byte(chars[0] as u32, byte);
        let rest = chars.drop_first();
        assert forall|i: int| 0 <= i < rest.len() implies rest[i] as u32 != byte by {
            assert(rest[i] == chars[i + 1]);
        }
        lemma_encoding_without(rest, byte);
        let head = encode_scalar(chars[0] as u32);
        assert forall|j: int| 0 <= j < encode_utf8(chars).len() implies encode_utf8(chars)[j]
            != byte by {
            if j < head.len() {
                assert(encode_utf8(chars)[j] == head[j]);
            } else {
                assert(encode_utf8(chars)[j] == encode_utf8(rest)[j - head.len()]);
            }
        }
    }
}

/// Text that does not end in a given ASCII character is encoded by bytes that
/// do not end in that byte.
pub proof fn lemma_encoding_end(chars: Seq<char>, byte: u8)
    requires
        byte < 0x80,
        chars.len() > 0,
        chars.last() as u32 != byte,
    ensures
        encode_utf8(chars).len() > 0,
        encode_utf8(chars).last() != byte,
    decreases chars.len(),
{
    char_is_scalar(chars[0]);
    lemma_scalar_low_byte(chars[0] as u32, byte);
    let rest = chars.drop_first();
    if rest.len() > 0 {
        assert(rest.last() == chars.last());
        lemma_encoding_end(rest, byte);
        assert(encode_utf8(chars).last() == encode_utf8(rest).last());
    } else {
        assert(encode_utf8(rest) =~= Seq::<u8>::empty());
        assert(encode_utf8(chars) =~= encode_scalar(chars[0] as u32));
    }
}

/// A line on the wire is read back as it was sent: for text that holds no
/// line feed and does not end in a carriage return, the bytes that carry
/// it yield exactly that line, and nothing stays buffered.
pub proof fn lemma_sent_line_reads_back(line: Seq<char>)
    requires
        forall|i: int| 0 <= i < line.len() ==> line[i] != '\n',
        line.len() > 0 ==> line.last() != '\r',
    ensures
        complete_lines(wire_form(line)) == seq![encode_utf8(line)],
        unfinished(wire_form(line)) == Seq::<u8>::empty(),
        text_lines(wire_form(line)) == (TextLines {
            lines: seq![line],
            rest: Seq::empty(),
            clean: true,
        }),
{
    let bytes = encode_utf8(line);
    assert forall|i: int| 0 <= i < line.len() implies line[i] as u32 != LINE_FEED by {
        char_u32_cast(line[i], line[i] as u32);
    }
    lemma_encoding_without(line, LINE_FEED);
    if line.len() > 0 {
        char_u32_cast(line.last(), line.last() as u32);
        lemma_encoding_end(line, CARRIAGE_RETURN);
    } else {
        assert(bytes =~= Seq::<u8>::empty());
    }
    lemma_written_line_reads_back(bytes);
    encode_utf8_valid_utf8(line);
    encode_utf8_decode_utf8(line);
    let wire = wire_form(line);
    let nothing = Seq::<u8>::empty();
    crate::lines::lemma_line_end_is(wire, bytes.len() as int);
    assert(wire.take(bytes.len() as int) =~= bytes);
    assert(first_line(wire) == bytes);
    assert(after_first_line(wire) =~= nothing);
    assert(!has_line(nothing));
    assert(text_lines(nothing).lines =~= Seq::<Seq<char>>::empty());
    assert(text_lines(wire).lines =~= seq![line]);
}

} // verus!
