//! Bytes as text: UTF-8 encoding, lossy decoding, and the byte offsets of
//! character columns.

use vstd::prelude::*;
use vstd::utf8::*;

verus! {

/// The characters of the string that `String::from_utf8_lossy` returns for
/// `bytes`: the lossy UTF-8 decoding, in which U+FFFD stands for what is
/// not well formed. It is left uninterpreted; only its agreement with
/// strict decoding on well-formed input is ever used.
pub uninterp spec fn lossy_utf8(bytes: Seq<u8>) -> Seq<char>;

/// The text that a byte sequence displays as: its strict UTF-8 decoding
/// where it is well formed, its lossy decoding otherwise.
pub open spec fn text_of(bytes: Seq<u8>) -> Seq<char> {
    if valid_utf8(bytes) {
        decode_utf8(bytes)
    } else {
        lossy_utf8(bytes)
    }
}

/// Calls `String::from_utf8_lossy` and takes ownership of what it returns.
///
/// Trusted: the result is the lossy decoding of `bytes`, and, as the standard
/// library documents, well-formed UTF-8 comes back unchanged, that is as its
/// strict decoding.
#[verifier::external_body]
pub(crate) fn decode_lossy(bytes: &[u8]) -> (text: String)
    ensures
        text@ == lossy_utf8(bytes@),
        valid_utf8(bytes@) ==> text@ == decode_utf8(bytes@),
{
    String::from_utf8_lossy(bytes).into_owned()
}

/// The byte offset at which character `column` of what `bytes` displays
/// starts, counted in the UTF-8 of that text and never more than the length
/// of `bytes`. A `column` behind the last character counts as the end.
pub open spec fn column_offset(bytes: Seq<u8>, column: int) -> int {
    let text = text_of(bytes);
    let k = if column < text.len() { column } else { text.len() as int };
    let offset = encode_utf8(text.subrange(0, k)).len() as int;
    if offset < bytes.len() { offset } else { bytes.len() as int }
}

/// The UTF-8 of two texts in a row is the UTF-8 of the first and then the
/// UTF-8 of the second.
pub proof fn lemma_encode_utf8_concat(a: Seq<char>, b: Seq<char>)
    ensures
        encode_utf8(a + b) == encode_utf8(a) + encode_utf8(b),
    decreases a.len(),
{
    if a.len() > 0 {
        lemma_encode_utf8_concat(a.drop_first(), b);
        assert((a + b).drop_first() =~= a.drop_first() + b);
    }
}

/// In well-formed UTF-8 the offset of a column cuts the bytes where it cuts
/// the text: in front of it stands the UTF-8 of the characters in front of
/// the column, behind it the UTF-8 of the others.
pub proof fn lemma_column_offset(bytes: Seq<u8>, column: int)
    requires
        valid_utf8(bytes),
        0 <= column <= decode_utf8(bytes).len(),
    ensures
        0 <= column_offset(bytes, column) <= bytes.len(),
        bytes.subrange(0, column_offset(bytes, column)) == encode_utf8(
            decode_utf8(bytes).subrange(0, column),
        ),
        bytes.subrange(column_offset(bytes, column), bytes.len() as int) == encode_utf8(
            decode_utf8(bytes).subrange(column, decode_utf8(bytes).len() as int),
        ),
{
    let text = decode_utf8(bytes);
    let front = text.subrange(0, column);
    let back = text.subrange(column, text.len() as int);
    decode_utf8_encode_utf8(bytes);
    assert(front + back =~= text);
    lemma_encode_utf8_concat(front, back);
}

/// Well-formed UTF-8 in a row is well formed and displays as the two texts
/// in a row.
pub proof fn lemma_text_of_concat(a: Seq<u8>, b: Seq<u8>)
    requires
        valid_utf8(a),
        valid_utf8(b),
    ensures
        valid_utf8(a + b),
        text_of(a + b) == text_of(a) + text_of(b),
{
    valid_utf8_concat(a, b);
    decode_utf8_encode_utf8(a);
    decode_utf8_encode_utf8(b);
    lemma_encode_utf8_concat(decode_utf8(a), decode_utf8(b));
    encode_utf8_decode_utf8(decode_utf8(a) + decode_utf8(b));
}

/// Text that was encoded as UTF-8 displays as itself, with as many
/// characters as it had.
pub proof fn lemma_text_of_encoded(text: Seq<char>)
    ensures
        text_of(encode_utf8(text)) == text,
        text_of(encode_utf8(text)).len() == text.len(),
{
    encode_utf8_valid_utf8(text);
    encode_utf8_decode_utf8(text);
}

/// Well-formed UTF-8 displays as no more characters than it has bytes.
pub proof fn lemma_text_len(bytes: Seq<u8>)
    requires
        valid_utf8(bytes),
    ensures
        text_of(bytes).len() <= bytes.len(),
{
    decode_utf8_encode_utf8(bytes);
    lemma_encode_utf8_len(decode_utf8(bytes));
}

/// The UTF-8 of text has at least one byte for each character.
pub proof fn lemma_encode_utf8_len(text: Seq<char>)
    ensures
        text.len() <= encode_utf8(text).len(),
    decreases text.len(),
{
    if text.len() > 0 {
        lemma_encode_utf8_len(text.drop_first());
    }
}

/// No bytes display as no text.
pub proof fn lemma_text_of_empty()
    ensures
        text_of(Seq::<u8>::empty()) == Seq::<char>::empty(),
{
}

/// The UTF-8 encoding of one character.
pub fn encode_char(c: char) -> (bytes: Vec<u8>)
    ensures
        bytes@ == encode_scalar(c as u32),
{
    let v: u32 = c as u32;
    let mut bytes: Vec<u8> = Vec::new();
    if v <= 0x7F {
        assert((v & 0x7F) <= 0xFF) by (bit_vector);
        bytes.push((v & 0x7F) as u8);
    } else if v <= 0x7FF {
        assert(((v >> 6) & 0x1F) <= 0xFF && (v & 0x3F) <= 0xFF) by (bit_vector);
        bytes.push(0xC0 | ((v >> 6) & 0x1F) as u8);
        bytes.push(0x80 | (v & 0x3F) as u8);
    } else if v <= 0xFFFF {
        assert(((v >> 12) & 0x0F) <= 0xFF && ((v >> 6) & 0x3F) <= 0xFF && (v & 0x3F) <= 0xFF)
            by (bit_vector);
        bytes.push(0xE0 | ((v >> 12) & 0x0F) as u8);
        bytes.push(0x80 | ((v >> 6) & 0x3F) as u8);
        bytes.push(0x80 | (v & 0x3F) as u8);
    } else {
        assert(((v >> 18) & 0x7) <= 0xFF && ((v >> 12) & 0x3F) <= 0xFF && ((v >> 6) & 0x3F)
            <= 0xFF && (v & 0x3F) <= 0xFF) by (bit_vector);
        bytes.push(0xF0 | ((v >> 18) & 0x7) as u8);
        bytes.push(0x80 | ((v >> 12) & 0x3F) as u8);
        bytes.push(0x80 | ((v >> 6) & 0x3F) as u8);
        bytes.push(0x80 | (v & 0x3F) as u8);
    }
    bytes
}

} // verus!
