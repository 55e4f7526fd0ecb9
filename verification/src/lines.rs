//! Text as lines: what it is to split text at its line feeds, to join
//! lines, and to cut and join single lines, with the laws that connect
//! these.

use crate::gap_buffer::{lemma_insert_at_column, lemma_remove_at_column, with_char, without_char};
use crate::text::{column_offset, lemma_column_offset, lemma_text_of_encoded, text_of};
use vstd::prelude::*;
use vstd::utf8::*;

verus! {

/// The byte that ends a line.
pub const LINE_FEED: u8 = 0x0A;

/// The lines of `bytes`. Read from left to right, every line feed closes the
/// line before it and opens a new, empty one; any other byte, a carriage
/// return too, joins the line that is open. So there is one line more than
/// there are line feeds, and no line holds a line feed.
pub open spec fn split_lines(bytes: Seq<u8>) -> Seq<Seq<u8>>
    decreases bytes.len(),
{
    if bytes.len() == 0 {
        seq![Seq::<u8>::empty()]
    } else {
        let before = split_lines(bytes.drop_last());
        if bytes.last() == LINE_FEED {
            before.push(Seq::<u8>::empty())
        } else {
            before.drop_last().push(before.last().push(bytes.last()))
        }
    }
}

/// The bytes of `lines`, one line feed between each two of them and none
/// at the end.
pub open spec fn join_lines(lines: Seq<Seq<u8>>) -> Seq<u8>
    decreases lines.len(),
{
    if lines.len() == 0 {
        Seq::<u8>::empty()
    } else if lines.len() == 1 {
        lines[0]
    } else {
        join_lines(lines.drop_last()) + seq![LINE_FEED] + lines.last()
    }
}

/// The text of `lines`, one line feed between each two of them and none at
/// the end.
pub open spec fn join_text(lines: Seq<Seq<u8>>) -> Seq<char>
    decreases lines.len(),
{
    if lines.len() == 0 {
        Seq::<char>::empty()
    } else if lines.len() == 1 {
        text_of(lines[0])
    } else {
        join_text(lines.drop_last()) + seq!['\n'] + text_of(lines.last())
    }
}

/// The greatest number of characters that a line of `lines` displays, 0 for
/// no lines.
pub open spec fn max_columns(lines: Seq<Seq<u8>>) -> nat
    decreases lines.len(),
{
    if lines.len() == 0 {
        0
    } else {
        let rest = max_columns(lines.drop_last());
        let last = text_of(lines.last()).len();
        if last > rest {
            last
        } else {
            rest
        }
    }
}

/// `lines` with line `row` cut in two at byte offset `offset`.
pub open spec fn split_at(lines: Seq<Seq<u8>>, row: int, offset: int) -> Seq<Seq<u8>> {
    lines.update(row, lines[row].subrange(0, offset)).insert(
        row + 1,
        lines[row].subrange(offset, lines[row].len() as int),
    )
}

/// `lines` with line `row + 1` appended to line `row` and taken out.
pub open spec fn merged(lines: Seq<Seq<u8>>, row: int) -> Seq<Seq<u8>> {
    lines.update(row, lines[row] + lines[row + 1]).remove(row + 1)
}

/// Whether no line of `lines` holds a line feed.
pub open spec fn line_feed_free(lines: Seq<Seq<u8>>) -> bool {
    forall|row: int, i: int|
        0 <= row < lines.len() && 0 <= i < lines[row].len() ==> #[trigger] lines[row][i]
            != LINE_FEED
}

/// Whether `line` holds no line feed.
pub open spec fn one_line(line: Seq<u8>) -> bool {
    forall|i: int| 0 <= i < line.len() ==> line[i] != LINE_FEED
}

/// Whether every line of `lines` is well-formed UTF-8 without a line feed.
pub open spec fn well_formed(lines: Seq<Seq<u8>>) -> bool {
    &&& line_feed_free(lines)
    &&& forall|row: int| 0 <= row < lines.len() ==> valid_utf8(#[trigger] lines[row])
}

/// Offset of the last line feed in `bytes`, -1 if it holds none.
spec fn last_line_feed(bytes: Seq<u8>) -> int
    decreases bytes.len(),
{
    if bytes.len() == 0 {
        -1
    } else if bytes.last() == LINE_FEED {
        bytes.len() - 1
    } else {
        last_line_feed(bytes.drop_last())
    }
}

proof fn lemma_last_line_feed(bytes: Seq<u8>)
    ensures
        -1 <= last_line_feed(bytes) < bytes.len(),
        last_line_feed(bytes) >= 0 ==> bytes[last_line_feed(bytes)] == LINE_FEED,
        forall|i: int| last_line_feed(bytes) < i < bytes.len() ==> bytes[i] != LINE_FEED,
    decreases bytes.len(),
{
    if bytes.len() > 0 && bytes.last() != LINE_FEED {
        let front = bytes.drop_last();
        lemma_last_line_feed(front);
        assert forall|i: int| last_line_feed(bytes) < i < bytes.len() implies bytes[i]
            != LINE_FEED by {
            if i < front.len() {
                assert(front[i] == bytes[i]);
            }
        }
    }
}

/// Text has at least one line: `split_lines` never returns an empty sequence.
pub proof fn lemma_split_lines_len(bytes: Seq<u8>)
    ensures
        split_lines(bytes).len() >= 1,
    decreases bytes.len(),
{
}

/// Bytes without a line feed are one line.
pub proof fn lemma_split_lines_single(bytes: Seq<u8>)
    requires
        forall|i: int| 0 <= i < bytes.len() ==> bytes[i] != LINE_FEED,
    ensures
        split_lines(bytes) == seq![bytes],
    decreases bytes.len(),
{
    if bytes.len() == 0 {
        assert(bytes =~= Seq::<u8>::empty());
    } else {
        let front = bytes.drop_last();
        lemma_split_lines_single(front);
        assert(front.push(bytes.last()) =~= bytes);
    }
}

/// The lines of bytes whose last line feed stands at offset `k` are the
/// lines of what stands in front of it, and then what stands behind it.
pub proof fn lemma_split_lines_at_last_line_feed(bytes: Seq<u8>, k: int)
    requires
        0 <= k < bytes.len(),
        bytes[k] == LINE_FEED,
        forall|i: int| k < i < bytes.len() ==> bytes[i] != LINE_FEED,
    ensures
        split_lines(bytes) == split_lines(bytes.subrange(0, k)).push(
            bytes.subrange(k + 1, bytes.len() as int),
        ),
    decreases bytes.len(),
{
    let front = bytes.drop_last();
    if k == bytes.len() - 1 {
        assert(bytes.subrange(k + 1, bytes.len() as int) =~= Seq::<u8>::empty());
    } else {
        lemma_split_lines_at_last_line_feed(front, k);
        assert(front.subrange(0, k) =~= bytes.subrange(0, k));
        let open = front.subrange(k + 1, front.len() as int);
        assert(open.push(bytes.last()) =~= bytes.subrange(k + 1, bytes.len() as int));
    }
}

/// No line that `split_lines` returns holds a line feed.
pub proof fn lemma_split_lines_line_feed_free(bytes: Seq<u8>)
    ensures
        line_feed_free(split_lines(bytes)),
    decreases bytes.len(),
{
    if bytes.len() > 0 {
        lemma_split_lines_line_feed_free(bytes.drop_last());
    }
}

/// No line displays more characters than `max_columns` says, and, where
/// there is a line at all, some line displays that many.
pub proof fn lemma_max_columns(lines: Seq<Seq<u8>>)
    ensures
        forall|i: int| 0 <= i < lines.len() ==> text_of(#[trigger] lines[i]).len() <= max_columns(lines),
        lines.len() > 0 ==> exists|i: int|
            0 <= i < lines.len() && text_of(#[trigger] lines[i]).len() == max_columns(lines),
    decreases lines.len(),
{
    if lines.len() > 0 {
        let front = lines.drop_last();
        lemma_max_columns(front);
        assert forall|i: int| 0 <= i < lines.len() implies text_of(#[trigger] lines[i]).len()
            <= max_columns(lines) by {
            if i < front.len() {
                assert(front[i] == lines[i]);
            }
        }
        if front.len() > 0 && text_of(lines.last()).len() <= max_columns(front) {
            let i = choose|i: int|
                0 <= i < front.len() && text_of(#[trigger] front[i]).len() == max_columns(front);
            assert(lines[i] == front[i]);
        }
    }
}

/// Cutting a line in two brings no line feed into a line.
pub proof fn lemma_split_at_line_feed_free(lines: Seq<Seq<u8>>, row: int, offset: int)
    requires
        line_feed_free(lines),
        0 <= row < lines.len(),
        0 <= offset <= lines[row].len(),
    ensures
        line_feed_free(split_at(lines, row, offset)),
{
}

/// Joining two neighbouring lines brings no line feed into a line.
pub proof fn lemma_merged_line_feed_free(lines: Seq<Seq<u8>>, row: int)
    requires
        line_feed_free(lines),
        0 <= row,
        row + 1 < lines.len(),
    ensures
        line_feed_free(merged(lines, row)),
{
}

/// Cutting a line in two and then joining the two halves gives back the
/// lines as they were.
pub proof fn lemma_split_then_merge(lines: Seq<Seq<u8>>, row: int, offset: int)
    requires
        0 <= row < lines.len(),
        0 <= offset <= lines[row].len(),
    ensures
        merged(split_at(lines, row, offset), row) == lines,
{
    let line = lines[row];
    assert(line.subrange(0, offset) + line.subrange(offset, line.len() as int) =~= line);
}

/// The text of the lines of well-formed UTF-8 is the decoding of that UTF-8.
pub proof fn lemma_join_text_of_valid(bytes: Seq<u8>)
    requires
        valid_utf8(bytes),
    ensures
        join_text(split_lines(bytes)) == decode_utf8(bytes),
    decreases bytes.len(),
{
    lemma_last_line_feed(bytes);
    let k = last_line_feed(bytes);
    if k < 0 {
        lemma_split_lines_single(bytes);
    } else {
        lemma_split_lines_at_last_line_feed(bytes, k);
        let head = bytes.subrange(0, k);
        let rest = bytes.subrange(k, bytes.len() as int);
        let tail = bytes.subrange(k + 1, bytes.len() as int);
        is_char_boundary_iff_not_is_continuation_byte(bytes, k);
        valid_utf8_split(bytes, k);
        decode_utf8_split(bytes, k);
        assert(pop_first_scalar(rest) =~= tail);
        assert(leading_bits_width_1(0x0Au8) == 0x0Au32) by (bit_vector);
        lemma_join_text_of_valid(head);
        assert(split_lines(head).push(tail).drop_last() =~= split_lines(head));
    }
}

/// The lines of bytes, joined by line feeds, are the bytes.
pub proof fn lemma_join_split(bytes: Seq<u8>)
    ensures
        join_lines(split_lines(bytes)) == bytes,
    decreases bytes.len(),
{
    if bytes.len() > 0 {
        let front = bytes.drop_last();
        let before = split_lines(front);
        lemma_join_split(front);
        if bytes.last() == LINE_FEED {
            assert(before.push(Seq::<u8>::empty()).drop_last() =~= before);
        } else {
            let longer = before.last().push(bytes.last());
            let lines = before.drop_last().push(longer);
            assert(lines.drop_last() =~= before.drop_last());
            if before.len() > 1 {
                assert(front.push(bytes.last()) =~= bytes);
            }
        }
    }
}

/// Lines without line feeds, joined by line feeds and split again, are the
/// lines as they were, if there is at least one line.
pub proof fn lemma_split_join(lines: Seq<Seq<u8>>)
    requires
        lines.len() >= 1,
        line_feed_free(lines),
    ensures
        split_lines(join_lines(lines)) == lines,
    decreases lines.len(),
{
    if lines.len() == 1 {
        lemma_split_lines_single(lines[0]);
    } else {
        let front = lines.drop_last();
        let joined = join_lines(lines);
        let k = join_lines(front).len() as int;
        lemma_split_join(front);
        lemma_split_lines_at_last_line_feed(joined, k);
        assert(joined.subrange(0, k) =~= join_lines(front));
        assert(joined.subrange(k + 1, joined.len() as int) =~= lines.last());
    }
}

/// The UTF-8 of a character other than the line feed holds no line feed.
pub proof fn lemma_encode_scalar_one_line(c: char)
    requires
        c != '\n',
    ensures
        one_line(encode_scalar(c as u32)),
{
    let v = c as u32;
    assert(has_width_1_encoding(v) && leading_byte_width_1(v) == 0x0Au8 ==> v == 0x0Au32)
        by (bit_vector);
    assert(leading_byte_width_2(v) != 0x0Au8 && leading_byte_width_3(v) != 0x0Au8
        && leading_byte_width_4(v) != 0x0Au8 && last_continuation_byte(v) != 0x0Au8
        && second_last_continuation_byte(v) != 0x0Au8 && third_last_continuation_byte(v)
        != 0x0Au8) by (bit_vector);
}

/// The lines of well-formed UTF-8 are well-formed UTF-8.
pub proof fn lemma_split_lines_well_formed(bytes: Seq<u8>)
    requires
        valid_utf8(bytes),
    ensures
        well_formed(split_lines(bytes)),
    decreases bytes.len(),
{
    lemma_last_line_feed(bytes);
    let k = last_line_feed(bytes);
    if k < 0 {
        lemma_split_lines_single(bytes);
    } else {
        lemma_split_lines_at_last_line_feed(bytes, k);
        let head = bytes.subrange(0, k);
        let rest = bytes.subrange(k, bytes.len() as int);
        let tail = bytes.subrange(k + 1, bytes.len() as int);
        is_char_boundary_iff_not_is_continuation_byte(bytes, k);
        valid_utf8_split(bytes, k);
        assert(pop_first_scalar(rest) =~= tail);
        lemma_split_lines_well_formed(head);
    }
}

/// Well-formed lines are well-formed still when one of them is replaced by
/// well-formed UTF-8 without a line feed.
pub proof fn lemma_update_well_formed(lines: Seq<Seq<u8>>, row: int, line: Seq<u8>)
    requires
        well_formed(lines),
        0 <= row < lines.len(),
        valid_utf8(line),
        one_line(line),
    ensures
        well_formed(lines.update(row, line)),
{
}

/// A character other than the line feed, put into a line of well-formed
/// lines in front of one of its characters or at its end, leaves
/// well-formed lines.
pub proof fn lemma_with_char_well_formed(lines: Seq<Seq<u8>>, row: int, column: int, c: char)
    requires
        well_formed(lines),
        0 <= row < lines.len(),
        0 <= column <= text_of(lines[row]).len(),
        c != '\n',
    ensures
        well_formed(lines.update(row, with_char(lines[row], column, c))),
{
    let line = lines[row];
    lemma_insert_at_column(line, column, c);
    lemma_encode_scalar_one_line(c);
}

/// Taking a character out of a line of well-formed lines leaves well-formed
/// lines.
pub proof fn lemma_without_char_well_formed(lines: Seq<Seq<u8>>, row: int, column: int)
    requires
        well_formed(lines),
        0 <= row < lines.len(),
        0 <= column < text_of(lines[row]).len(),
    ensures
        well_formed(lines.update(row, without_char(lines[row], column))),
{
    let line = lines[row];
    lemma_remove_at_column(line, column);
}

/// Joining two neighbouring lines of well-formed lines leaves well-formed
/// lines.
pub proof fn lemma_merged_well_formed(lines: Seq<Seq<u8>>, row: int)
    requires
        well_formed(lines),
        0 <= row,
        row + 1 < lines.len(),
    ensures
        well_formed(merged(lines, row)),
{
    valid_utf8_concat(lines[row], lines[row + 1]);
}

/// Cutting a line of well-formed lines at the byte offset of a column
/// leaves well-formed lines: the line in front of the cut holds the
/// characters in front of the column, the line behind it the others.
pub proof fn lemma_split_at_column(lines: Seq<Seq<u8>>, row: int, col: int)
    requires
        well_formed(lines),
        0 <= row < lines.len(),
        0 <= col <= text_of(lines[row]).len(),
    ensures
        well_formed(split_at(lines, row, column_offset(lines[row], col))),
        text_of(split_at(lines, row, column_offset(lines[row], col))[row]) == text_of(
            lines[row],
        ).subrange(0, col),
        text_of(split_at(lines, row, column_offset(lines[row], col))[row + 1]) == text_of(
            lines[row],
        ).subrange(col, text_of(lines[row]).len() as int),
{
    let line = lines[row];
    let text = text_of(line);
    let after = split_at(lines, row, column_offset(line, col));
    lemma_column_offset(line, col);
    lemma_split_at_line_feed_free(lines, row, column_offset(line, col));
    lemma_text_of_encoded(text.subrange(0, col));
    lemma_text_of_encoded(text.subrange(col, text.len() as int));
    encode_utf8_valid_utf8(text.subrange(0, col));
    encode_utf8_valid_utf8(text.subrange(col, text.len() as int));
    assert forall|r: int| 0 <= r < after.len() implies valid_utf8(#[trigger] after[r]) by {
        if r < row {
            assert(after[r] == lines[r]);
        } else if r > row + 1 {
            assert(after[r] == lines[r - 1]);
        }
    }
}

/// Reading text as lines and writing the lines back as text gives the text
/// as it was, to the last character: no line feed is added at the end and
/// none is lost.
pub proof fn lemma_text_round_trip(text: Seq<char>)
    ensures
        join_text(split_lines(encode_utf8(text))) == text,
{
    encode_utf8_valid_utf8(text);
    encode_utf8_decode_utf8(text);
    lemma_join_text_of_valid(encode_utf8(text));
}

} // verus!
