//! The gap buffer: a byte sequence that is edited at byte offsets, stored
//! around a gap that follows the edits.

use crate::text::{
    column_offset, decode_lossy, encode_char, lemma_column_offset, lemma_encode_utf8_concat,
    lemma_text_len, lemma_text_of_concat, text_of,
};
use std::ops::Range;
use vstd::prelude::*;
use vstd::slice::slice_subrange;
use vstd::string::StrSliceExecFns;
use vstd::string::StringSliceAdditionalSpecFns;
use vstd::utf8::*;

verus! {

/// Granularity, in bytes, by which the backing storage grows.
pub const CHUNK_SIZE: usize = 64;

/// `s` with `b` inserted in front of the byte at offset `o`.
pub open spec fn splice(s: Seq<u8>, o: int, b: Seq<u8>) -> Seq<u8> {
    s.subrange(0, o) + b + s.subrange(o, s.len() as int)
}

/// `s` without the bytes at offsets `start..end`.
pub open spec fn excise(s: Seq<u8>, start: int, end: int) -> Seq<u8> {
    s.subrange(0, start) + s.subrange(end, s.len() as int)
}

/// The bytes of `s` at offsets `start..end`, after `end` has been lowered to
/// the length of `s` and `start` to that lowered `end`.
pub open spec fn clamped(s: Seq<u8>, start: int, end: int) -> Seq<u8> {
    let e = if end < s.len() { end } else { s.len() as int };
    let b = if start < e { start } else { e };
    s.subrange(b, e)
}

/// `line` with the UTF-8 of `c` inserted in front of its character `column`.
pub open spec fn with_char(line: Seq<u8>, column: int, c: char) -> Seq<u8> {
    splice(line, column_offset(line, column), encode_scalar(c as u32))
}

/// `line` without the bytes of its character `column`.
pub open spec fn without_char(line: Seq<u8>, column: int) -> Seq<u8> {
    excise(line, column_offset(line, column), column_offset(line, column + 1))
}

/// The least multiple of `CHUNK_SIZE` that is at least `needed`.
pub open spec fn chunked(needed: nat) -> nat {
    (((needed + CHUNK_SIZE - 1) / (CHUNK_SIZE as int)) * CHUNK_SIZE) as nat
}

/// Copies `len` bytes of `buf` from offset `src` to offset `dest`; the two
/// ranges may overlap.
fn copy_within(buf: &mut Vec<u8>, src: usize, len: usize, dest: usize)
    requires
        src + len <= old(buf)@.len(),
        dest + len <= old(buf)@.len(),
    ensures
        final(buf)@.len() == old(buf)@.len(),
        forall|i: int|
            0 <= i < old(buf)@.len() ==> #[trigger] final(buf)@[i] == if dest <= i < dest + len {
                old(buf)@[i - dest + src]
            } else {
                old(buf)@[i]
            },
    no_unwind
{
    let ghost before = buf@;
    assert(before.len() == buf.len());
    if dest <= src {
        let mut k: usize = 0;
        while k < len
            invariant
                k <= len,
                dest <= src,
                src + len <= before.len() <= usize::MAX,
                buf@.len() == before.len(),
                forall|i: int|
                    0 <= i < before.len() ==> #[trigger] buf@[i] == if dest <= i < dest + k {
                        before[i - dest + src]
                    } else {
                        before[i]
                    },
            decreases len - k,
        {
            let b = buf[src + k];
            buf[dest + k] = b;
            k = k + 1;
        }
    } else {
        let mut k: usize = len;
        while k > 0
            invariant
                k <= len,
                src < dest,
                dest + len <= before.len() <= usize::MAX,
                buf@.len() == before.len(),
                forall|i: int|
                    0 <= i < before.len() ==> #[trigger] buf@[i] == if dest + k <= i < dest + len {
                        before[i - dest + src]
                    } else {
                        before[i]
                    },
            decreases k,
        {
            k = k - 1;
            let b = buf[src + k];
            buf[dest + k] = b;
        }
    }
}

/// Appends `amount` zero bytes to `buf`.
fn append_zeros(buf: &mut Vec<u8>, amount: usize)
    ensures
        final(buf)@.len() == old(buf)@.len() + amount,
        forall|i: int| 0 <= i < old(buf)@.len() ==> #[trigger] final(buf)@[i] == old(buf)@[i],
{
    let mut k: usize = 0;
    while k < amount
        invariant
            k <= amount,
            buf@.len() == old(buf)@.len() + k,
            forall|i: int| 0 <= i < old(buf)@.len() ==> #[trigger] buf@[i] == old(buf)@[i],
        decreases amount - k,
    {
        buf.push(0);
        k = k + 1;
    }
}

/// A byte sequence with a movable gap of unused capacity.
///
/// The backing storage holds, in this order, the bytes in front of the gap,
/// the gap, and the bytes behind it. Every offset that a method takes or
/// returns counts bytes of the content, as if the gap were not there.
pub struct GapBuffer {
    buffer: Vec<u8>,
    gap_start: usize,
    gap_end: usize,
}

impl View for GapBuffer {
    type V = Seq<u8>;

    /// The content: what stands in front of the gap, then what stands behind it.
    closed spec fn view(&self) -> Seq<u8> {
        self.buffer@.subrange(0, self.gap_start as int) + self.buffer@.subrange(
            self.gap_end as int,
            self.buffer@.len() as int,
        )
    }
}

impl GapBuffer {
    #[verifier::type_invariant]
    spec fn inv(&self) -> bool {
        self.gap_start <= self.gap_end <= self.buffer@.len()
    }

    /// Number of unused bytes that the storage holds.
    pub closed spec fn gap_len(&self) -> nat {
        (self.gap_end - self.gap_start) as nat
    }

    /// Offset in the content at which the gap stands.
    pub closed spec fn gap_offset(&self) -> nat {
        self.gap_start as nat
    }

    /// An empty buffer whose gap is `capacity` bytes long.
    pub fn new(capacity: usize) -> (buf: Self)
        ensures
            buf@ == Seq::<u8>::empty(),
            buf.gap_len() == capacity,
            buf.gap_offset() == 0,
    {
        let mut buffer: Vec<u8> = Vec::with_capacity(capacity);
        buffer.resize(capacity, 0);
        let buf = GapBuffer { buffer, gap_start: 0, gap_end: capacity };
        buf
    }

    /// Length of the content in bytes.
    pub fn buffer_length(&self) -> (len: usize)
        ensures
            len == self@.len(),
    {
        proof {
            use_type_invariant(self);
        }
        self.buffer.len() - (self.gap_end - self.gap_start)
    }

    /// Length of the gap in bytes.
    pub fn gap_length(&self) -> (len: usize)
        ensures
            len == self.gap_len(),
    {
        proof {
            use_type_invariant(self);
        }
        self.gap_end - self.gap_start
    }

    /// Lengthens the gap by `first` and then by `second` bytes of fresh
    /// storage. The two numbers are never added up on the way, so their sum
    /// need not be a number that a `usize` holds: storage that long cannot
    /// be had, and the attempt to get it ends the program.
    fn widen(&mut self, first: usize, second: usize)
        ensures
            final(self)@ == old(self)@,
            final(self).gap_len() == old(self).gap_len() + first + second,
            final(self).gap_offset() == old(self).gap_offset(),
    {
        proof {
            use_type_invariant(&*self);
        }
        let gap_start = self.gap_start;
        let gap_end = self.gap_end;
        // The storage leaves `self` while it grows, so that `self` is a
        // well-formed (empty) buffer at every point where the growth could
        // unwind.
        let mut buffer: Vec<u8> = Vec::new();
        self.gap_start = 0;
        self.gap_end = 0;
        std::mem::swap(&mut self.buffer, &mut buffer);
        let old_len = buffer.len();
        append_zeros(&mut buffer, first);
        append_zeros(&mut buffer, second);
        let amount = buffer.len() - old_len;
        copy_within(&mut buffer, gap_end, old_len - gap_end, gap_end + amount);
        std::mem::swap(&mut self.buffer, &mut buffer);
        self.gap_end = gap_end + amount;
        self.gap_start = gap_start;
        assert(self@ =~= old(self)@);
    }

    /// Lengthens the gap by `amount` bytes of fresh storage.
    pub fn extend(&mut self, amount: usize)
        ensures
            final(self)@ == old(self)@,
            final(self).gap_len() == old(self).gap_len() + amount,
            final(self).gap_offset() == old(self).gap_offset(),
    {
        self.widen(amount, 0);
    }

    /// Lengthens a gap that is shorter than `size` by the least number of
    /// whole chunks that makes it at least `size` bytes long.
    fn grow_gap(&mut self, size: usize)
        requires
            old(self).gap_len() < size,
        ensures
            final(self)@ == old(self)@,
            final(self).gap_len() == old(self).gap_len() + chunked(
                (size - old(self).gap_len()) as nat,
            ),
            final(self).gap_len() >= size,
            final(self).gap_offset() == old(self).gap_offset(),
    {
        let needed = size - self.gap_length();
        let over = needed % CHUNK_SIZE;
        let fill: usize = if over == 0 { 0 } else { CHUNK_SIZE - over };
        assert(needed + fill == chunked(needed as nat));
        self.widen(needed, fill);
    }

    /// Moves the gap so that it stands at `offset`; the content stays as it is.
    pub fn move_gap(&mut self, offset: usize)
        requires
            offset <= old(self)@.len(),
        ensures
            final(self)@ == old(self)@,
            final(self).gap_len() == old(self).gap_len(),
            final(self).gap_offset() == offset,
    {
        proof {
            use_type_invariant(&*self);
            assert(self.buffer@.len() == self.buffer.len());
        }
        if offset > self.gap_start {
            let shift = offset - self.gap_start;
            copy_within(&mut self.buffer, self.gap_end, shift, self.gap_start);
            self.gap_end = self.gap_end + shift;
            self.gap_start = offset;
        } else if offset < self.gap_start {
            let shift = self.gap_start - offset;
            copy_within(&mut self.buffer, offset, shift, self.gap_end - shift);
            self.gap_start = offset;
            self.gap_end = self.gap_end - shift;
        }
    }

    /// Empties the buffer; all of its storage becomes gap.
    pub fn clear(&mut self)
        ensures
            final(self)@ == Seq::<u8>::empty(),
            final(self).gap_len() == old(self)@.len() + old(self).gap_len(),
            final(self).gap_offset() == 0,
    {
        proof {
            use_type_invariant(&*self);
        }
        self.gap_start = 0;
        self.gap_end = self.buffer.len();
    }

    /// Inserts `content` in front of the byte at `offset`, growing the
    /// storage first if the gap is too short, and leaves the gap behind the
    /// inserted bytes. Nothing changes, not even the gap's position, when
    /// `content` is empty.
    pub fn insert(&mut self, offset: usize, content: &[u8])
        requires
            offset <= old(self)@.len(),
        ensures
            final(self)@ == splice(old(self)@, offset as int, content@),
            final(self)@.len() == old(self)@.len() + content@.len(),
            final(self).gap_offset() == if content@.len() == 0 {
                old(self).gap_offset()
            } else {
                (offset + content@.len()) as nat
            },
            final(self).gap_len() == if content@.len() <= old(self).gap_len() {
                old(self).gap_len() - content@.len()
            } else {
                old(self).gap_len() + chunked((content@.len() - old(self).gap_len()) as nat)
                    - content@.len()
            },
    {
        let n = content.len();
        if n == 0 {
            return ;
        }
        if self.gap_length() < n {
            self.grow_gap(n);
        }
        self.move_gap(offset);
        proof {
            use_type_invariant(&*self);
            assert(self.buffer@.len() == self.buffer.len());
        }
        let ghost moved = self.buffer@;
        let ghost gap_end = self.gap_end;
        let mut i: usize = 0;
        while i < n
            invariant
                i <= n,
                n == content@.len(),
                self.gap_start == offset,
                self.gap_end == gap_end,
                self.gap_start + n <= self.gap_end <= self.buffer@.len() <= usize::MAX,
                self.buffer@.len() == moved.len(),
                forall|j: int|
                    0 <= j < moved.len() ==> #[trigger] self.buffer@[j] == if self.gap_start <= j
                        < self.gap_start + i {
                        content@[j - self.gap_start]
                    } else {
                        moved[j]
                    },
            decreases n - i,
        {
            let b = content[i];
            self.buffer[self.gap_start + i] = b;
            i = i + 1;
        }
        self.gap_start = self.gap_start + n;
    }

    /// Inserts the UTF-8 encoding of `c` in front of the byte at `offset`.
    pub fn insert_char(&mut self, offset: usize, c: char)
        requires
            offset <= old(self)@.len(),
        ensures
            final(self)@ == splice(old(self)@, offset as int, encode_scalar(c as u32)),
            final(self).gap_offset() == offset + encode_scalar(c as u32).len(),
    {
        let bytes = encode_char(c);
        self.insert(offset, bytes.as_slice());
    }

    /// Removes the bytes at offsets `range.start..range.end` and leaves the
    /// gap where they stood.
    pub fn remove(&mut self, range: Range<usize>)
        requires
            range.start <= range.end <= old(self)@.len(),
        ensures
            final(self)@ == excise(old(self)@, range.start as int, range.end as int),
            final(self).gap_len() == old(self).gap_len() + (range.end - range.start),
            final(self).gap_offset() == range.start,
    {
        self.move_gap(range.start);
        proof {
            use_type_invariant(&*self);
            assert(self.buffer@.len() == self.buffer.len());
        }
        self.gap_end = self.gap_end + (range.end - range.start);
    }

    /// Removes the one byte at `offset`.
    pub fn remove_char(&mut self, offset: usize)
        requires
            offset < old(self)@.len(),
        ensures
            final(self)@ == old(self)@.remove(offset as int),
            final(self).gap_len() == old(self).gap_len() + 1,
            final(self).gap_offset() == offset,
    {
        proof {
            use_type_invariant(&*self);
            assert(self.buffer@.len() == self.buffer.len());
        }
        self.remove(offset..offset + 1);
    }

    /// A buffer that holds `bytes` and has no gap.
    pub fn from_bytes(bytes: &[u8]) -> (buf: Self)
        ensures
            buf@ == bytes@,
            buf.gap_len() == 0,
            buf.gap_offset() == bytes@.len(),
    {
        let mut buf = GapBuffer::new(bytes.len());
        buf.insert(0, bytes);
        buf
    }

    /// A buffer that holds the UTF-8 bytes of `s` and has no gap.
    pub fn from_str(s: &str) -> (buf: Self)
        ensures
            buf@ == s.spec_bytes(),
            buf.gap_len() == 0,
            buf.gap_offset() == s.spec_bytes().len(),
    {
        GapBuffer::from_bytes(s.as_bytes())
    }

    /// A copy of the content.
    pub fn to_bytes(&self) -> (bytes: Vec<u8>)
        ensures
            bytes@ == self@,
    {
        proof {
            use_type_invariant(self);
        }
        let mut bytes: Vec<u8> = Vec::with_capacity(self.buffer_length());
        let mut i: usize = 0;
        while i < self.gap_start
            invariant
                i <= self.gap_start <= self.gap_end <= self.buffer@.len(),
                bytes@ == self.buffer@.subrange(0, i as int),
            decreases self.gap_start - i,
        {
            bytes.push(self.buffer[i]);
            i = i + 1;
        }
        let mut j: usize = self.gap_end;
        let len = self.buffer.len();
        while j < len
            invariant
                self.gap_start <= self.gap_end <= j <= len == self.buffer@.len(),
                bytes@ == self.buffer@.subrange(0, self.gap_start as int) + self.buffer@.subrange(
                    self.gap_end as int,
                    j as int,
                ),
            decreases len - j,
        {
            bytes.push(self.buffer[j]);
            j = j + 1;
        }
        bytes
    }

    /// The content at offsets `start..end` as text. An `end` past the content
    /// counts as its length and a `start` past `end` as `end`, so every pair
    /// of offsets is accepted; bytes that are not UTF-8 show as U+FFFD.
    pub fn render(&self, start: usize, end: usize) -> (text: String)
        ensures
            text@ == text_of(clamped(self@, start as int, end as int)),
            clamped(self@, start as int, end as int).len() == 0 ==> text@.len() == 0,
    {
        let combined = self.to_bytes();
        let end = if end < combined.len() { end } else { combined.len() };
        let start = if start < end { start } else { end };
        decode_lossy(slice_subrange(combined.as_slice(), start, end))
    }

    /// The whole content as text.
    pub fn to_string(&self) -> (text: String)
        ensures
            text@ == text_of(self@),
    {
        let combined = self.to_bytes();
        decode_lossy(combined.as_slice())
    }

    /// The byte offset at which character `column` of the content starts.
    /// It is taken from the content as text, so it is a place to insert or
    /// to cut at only while the content is well-formed UTF-8.
    pub fn byte_offset(&self, column: usize) -> (offset: usize)
        ensures
            offset == column_offset(self@, column as int),
            offset <= self@.len(),
    {
        let text = self.to_string();
        let count = text.as_str().unicode_len();
        let k = if column < count { column } else { count };
        let offset = text.as_str().substring_char(0, k).as_bytes().len();
        let len = self.buffer_length();
        if offset < len { offset } else { len }
    }

    /// Inserts `c` in front of character `column` of the content as text.
    pub fn insert_at_column(&mut self, column: usize, c: char)
        requires
            column <= text_of(old(self)@).len(),
        ensures
            final(self)@ == with_char(old(self)@, column as int, c),
    {
        let offset = self.byte_offset(column);
        self.insert_char(offset, c);
    }

    /// Removes the bytes of character `column` of the content as text.
    pub fn remove_at_column(&mut self, column: usize)
        requires
            column < text_of(old(self)@).len(),
        ensures
            final(self)@ == without_char(old(self)@, column as int),
    {
        let text = self.to_string();
        let count = text.as_str().unicode_len();
        let len = self.buffer_length();
        let start = text.as_str().substring_char(0, column).as_bytes().len();
        let end = text.as_str().substring_char(0, column + 1).as_bytes().len();
        let start = if start < len { start } else { len };
        let end = if end < len { end } else { len };
        proof {
            lemma_column_offset_grows(self@, column as int);
        }
        self.remove(start..end);
    }

    /// Number of characters in the content as text; for well-formed UTF-8
    /// that is never more than the number of bytes.
    pub fn str_len(&self) -> (len: usize)
        ensures
            len == text_of(self@).len(),
            valid_utf8(self@) ==> len <= self@.len(),
    {
        proof {
            if valid_utf8(self@) {
                lemma_text_len(self@);
            }
        }
        let text = self.to_string();
        text.as_str().unicode_len()
    }
}

/// Inserting puts the new bytes at the offset, keeps what stood in front of
/// the offset where it was, and moves what stood behind it back by the
/// number of new bytes.
pub proof fn lemma_splice(s: Seq<u8>, o: int, b: Seq<u8>)
    requires
        0 <= o <= s.len(),
    ensures
        splice(s, o, b).len() == s.len() + b.len(),
        forall|i: int| 0 <= i < o ==> splice(s, o, b)[i] == s[i],
        forall|i: int| o <= i < o + b.len() ==> splice(s, o, b)[i] == b[i - o],
        forall|i: int| o + b.len() <= i < s.len() + b.len() ==> splice(s, o, b)[i] == s[i - b.len()],
{
}

/// Removing takes out the bytes of the range, keeps what stood in front of
/// it where it was, and moves what stood behind it forward by the length of
/// the range.
pub proof fn lemma_excise(s: Seq<u8>, start: int, end: int)
    requires
        0 <= start <= end <= s.len(),
    ensures
        excise(s, start, end).len() == s.len() - (end - start),
        forall|i: int| 0 <= i < start ==> excise(s, start, end)[i] == s[i],
        forall|i: int| start <= i < s.len() - (end - start) ==> excise(s, start, end)[i] == s[i + (end - start)],
{
}

/// Well-formed UTF-8, inserted into well-formed UTF-8 between two of its
/// characters, leaves well-formed UTF-8, and the text is the old text with
/// the new text between those characters.
pub proof fn lemma_splice_text(s: Seq<u8>, o: int, b: Seq<u8>)
    requires
        valid_utf8(s),
        valid_utf8(b),
        is_char_boundary(s, o),
    ensures
        valid_utf8(splice(s, o, b)),
        text_of(splice(s, o, b)) == text_of(s.subrange(0, o)) + text_of(b) + text_of(
            s.subrange(o, s.len() as int),
        ),
        text_of(s) == text_of(s.subrange(0, o)) + text_of(s.subrange(o, s.len() as int)),
{
    valid_utf8_split(s, o);
    decode_utf8_split(s, o);
    lemma_text_of_concat(s.subrange(0, o), b);
    lemma_text_of_concat(s.subrange(0, o) + b, s.subrange(o, s.len() as int));
}

/// Inserting bytes and then removing the range that they fill gives back
/// the content as it was.
pub proof fn lemma_insert_then_remove(s: Seq<u8>, o: int, b: Seq<u8>)
    requires
        0 <= o <= s.len(),
    ensures
        excise(splice(s, o, b), o, o + b.len()) == s,
{
}

/// Removing a range and then inserting the removed bytes where they stood
/// gives back the content as it was.
pub proof fn lemma_remove_then_insert(s: Seq<u8>, start: int, end: int)
    requires
        0 <= start <= end <= s.len(),
    ensures
        splice(excise(s, start, end), start, s.subrange(start, end)) == s,
{
}

/// A range that is empty after clamping holds no bytes, and a range within
/// the content is not changed by clamping.
pub proof fn lemma_clamped(s: Seq<u8>, start: int, end: int)
    requires
        0 <= start,
        0 <= end,
    ensures
        start >= end || start >= s.len() ==> clamped(s, start, end) == Seq::<u8>::empty(),
        start <= end <= s.len() ==> clamped(s, start, end) == s.subrange(start, end),
        clamped(s, 0, s.len() as int) == s,
{
}

/// The offset of a column is not behind the offset of the next column.
pub proof fn lemma_column_offset_grows(bytes: Seq<u8>, column: int)
    requires
        0 <= column,
    ensures
        0 <= column_offset(bytes, column) <= column_offset(bytes, column + 1) <= bytes.len(),
{
    let text = text_of(bytes);
    if column < text.len() {
        let front = text.subrange(0, column);
        assert(text.subrange(0, column + 1) =~= front + seq![text[column]]);
        lemma_encode_utf8_concat(front, seq![text[column]]);
    }
}

/// Inserting a character at the offset of a column into well-formed UTF-8
/// leaves well-formed UTF-8, and the text has the character at that column.
pub proof fn lemma_insert_at_column(bytes: Seq<u8>, column: int, c: char)
    requires
        valid_utf8(bytes),
        0 <= column <= text_of(bytes).len(),
    ensures
        valid_utf8(splice(bytes, column_offset(bytes, column), encode_scalar(c as u32))),
        text_of(splice(bytes, column_offset(bytes, column), encode_scalar(c as u32))) == text_of(
            bytes,
        ).insert(column, c),
{
    let text = decode_utf8(bytes);
    let front = text.subrange(0, column);
    let back = text.subrange(column, text.len() as int);
    lemma_column_offset(bytes, column);
    assert(encode_utf8(seq![c]) =~= encode_scalar(c as u32)) by {
        reveal_with_fuel(encode_utf8, 2);
    }
    encode_utf8_valid_utf8(front);
    encode_utf8_valid_utf8(back);
    encode_utf8_valid_utf8(seq![c]);
    encode_utf8_decode_utf8(front);
    encode_utf8_decode_utf8(back);
    encode_utf8_decode_utf8(seq![c]);
    lemma_text_of_concat(encode_utf8(front), encode_utf8(seq![c]));
    lemma_text_of_concat(encode_utf8(front) + encode_utf8(seq![c]), encode_utf8(back));
}

/// Removing the bytes between the offsets of a column and of the next one
/// from well-formed UTF-8 leaves well-formed UTF-8, and the text has lost
/// the character at that column.
pub proof fn lemma_remove_at_column(bytes: Seq<u8>, column: int)
    requires
        valid_utf8(bytes),
        0 <= column < text_of(bytes).len(),
    ensures
        0 <= column_offset(bytes, column) < column_offset(bytes, column + 1) <= bytes.len(),
        valid_utf8(excise(bytes, column_offset(bytes, column), column_offset(bytes, column + 1))),
        text_of(excise(bytes, column_offset(bytes, column), column_offset(bytes, column + 1)))
            == text_of(bytes).remove(column),
{
    let text = decode_utf8(bytes);
    let front = text.subrange(0, column);
    let back = text.subrange(column + 1, text.len() as int);
    lemma_column_offset(bytes, column);
    lemma_column_offset(bytes, column + 1);
    encode_utf8_valid_utf8(front);
    encode_utf8_valid_utf8(back);
    encode_utf8_decode_utf8(front);
    encode_utf8_decode_utf8(back);
    lemma_text_of_concat(encode_utf8(front), encode_utf8(back));
    assert(text.subrange(0, column + 1) =~= front + seq![text[column]]);
    lemma_encode_utf8_concat(front, seq![text[column]]);
}

} // verus!
