//! The document: the lines of a text, each in a gap buffer of its own.

use crate::gap_buffer::{splice, GapBuffer};
use crate::lines::{
    join_text, max_columns, merged, split_at, split_lines, LINE_FEED,
};
use vstd::prelude::*;
use vstd::slice::slice_subrange;
use vstd::string::StrSliceExecFns;
use vstd::string::StringExecFns;
use vstd::string::StringSliceAdditionalSpecFns;

verus! {

/// A text document: its lines in display order, each in a gap buffer of its
/// own, with the path it was read from and the file type taken from that path.
pub struct Document {
    pub rows: Vec<GapBuffer>,
    pub file_type: String,
    pub file_path: String,
}

impl View for Document {
    type V = Seq<Seq<u8>>;

    /// The content of every line, first line first.
    open spec fn view(&self) -> Seq<Seq<u8>> {
        lines_of(self.rows@)
    }
}

/// The content of each of `rows`.
pub open spec fn lines_of(rows: Seq<GapBuffer>) -> Seq<Seq<u8>> {
    Seq::new(rows.len(), |i: int| rows[i]@)
}

/// What stands behind the last `'.'` of `path`; all of `path` if it holds none.
pub open spec fn extension(path: Seq<char>) -> Seq<char>
    decreases path.len(),
{
    if path.len() == 0 || path.last() == '.' {
        Seq::<char>::empty()
    } else {
        extension(path.drop_last()).push(path.last())
    }
}

/// `path` from `start` on is its extension if no `'.'` stands there and
/// either `start` is 0 or a `'.'` stands right in front of it.
proof fn lemma_extension(path: Seq<char>, start: int)
    requires
        0 <= start <= path.len(),
        forall|i: int| start <= i < path.len() ==> path[i] != '.',
        start > 0 ==> path[start - 1] == '.',
    ensures
        extension(path) == path.subrange(start, path.len() as int),
    decreases path.len() - start,
{
    if start < path.len() {
        let front = path.drop_last();
        lemma_extension(front, start);
    }
}

/// The file type that a path stands for: its extension.
pub fn file_type_of(path: &str) -> (file_type: String)
    ensures
        file_type@ == extension(path@),
{
    let count = path.unicode_len();
    let mut start = count;
    let mut found = false;
    while start > 0 && !found
        invariant
            start <= count == path@.len(),
            forall|i: int| start <= i < count ==> path@[i] != '.',
            found ==> start > 0 && path@[start - 1] == '.',
        decreases start + if found { 0int } else { 1int },
    {
        if path.get_char(start - 1) == '.' {
            found = true;
        } else {
            start = start - 1;
        }
    }
    proof {
        lemma_extension(path@, start as int);
    }
    String::from_str(path.substring_char(start, count))
}

impl Document {
    /// The document that a file at `path` with the text `content` holds: one
    /// line for each line of `content`, split at its line feeds and nowhere
    /// else.
    pub fn from_text(path: &str, content: &str) -> (doc: Document)
        ensures
            doc@ == split_lines(content.spec_bytes()),
            doc.file_path@ == path@,
            doc.file_type@ == extension(path@),
    {
        let bytes = content.as_bytes();
        let mut rows: Vec<GapBuffer> = Vec::new();
        let mut start: usize = 0;
        let mut i: usize = 0;
        assert(bytes@.subrange(0, 0) =~= Seq::<u8>::empty());
        while i < bytes.len()
            invariant
                start <= i <= bytes@.len(),
                split_lines(bytes@.subrange(0, i as int)) == lines_of(rows@).push(
                    bytes@.subrange(start as int, i as int),
                ),
            decreases bytes@.len() - i,
        {
            let ghost read = bytes@.subrange(0, i + 1);
            let ghost open = bytes@.subrange(start as int, i as int);
            assert(read.drop_last() =~= bytes@.subrange(0, i as int));
            if bytes[i] == LINE_FEED {
                rows.push(GapBuffer::from_bytes(slice_subrange(bytes, start, i)));
                start = i + 1;
                assert(bytes@.subrange(start as int, i + 1) =~= Seq::<u8>::empty());
            } else {
                assert(open.push(bytes@[i as int]) =~= bytes@.subrange(start as int, i + 1));
            }
            i = i + 1;
        }
        rows.push(GapBuffer::from_bytes(slice_subrange(bytes, start, i)));
        assert(bytes@.subrange(0, i as int) =~= bytes@);
        Document { rows, file_type: file_type_of(path), file_path: String::from_str(path) }
    }

    /// Number of lines.
    pub fn rows(&self) -> (count: usize)
        ensures
            count == self@.len(),
    {
        self.rows.len()
    }

    /// The line at `index`, or `None` if there is no such line.
    pub fn row(&self, index: usize) -> (line: Option<&GapBuffer>)
        ensures
            index < self@.len() ==> line == Some(&self.rows@[index as int]),
            index >= self@.len() ==> line.is_none(),
    {
        if index < self.rows.len() {
            Some(&self.rows[index])
        } else {
            None
        }
    }

    /// The line at `index` for editing, or `None` if there is no such line.
    pub fn row_mut(&mut self, index: usize) -> (line: Option<&mut GapBuffer>)
        ensures
            index >= old(self)@.len() ==> line.is_none() && *final(self) == *old(self),
            index < old(self)@.len() ==> line.is_some() && *line.unwrap() == old(self).rows@[index as int]
                && final(self).rows@ == old(self).rows@.update(index as int, *final(line.unwrap()))
                && final(self).file_type == old(self).file_type
                && final(self).file_path == old(self).file_path,
    {
        if index < self.rows.len() {
            Some(&mut self.rows[index])
        } else {
            None
        }
    }

    /// Cuts line `row_index` in two at byte offset `byte_offset`: the line
    /// keeps what stands in front of the offset, and the rest becomes a new
    /// line right behind it. No byte is changed.
    pub fn split_line(&mut self, row_index: usize, byte_offset: usize)
        requires
            row_index < old(self)@.len(),
            byte_offset <= old(self)@[row_index as int].len(),
        ensures
            final(self)@ == split_at(old(self)@, row_index as int, byte_offset as int),
            final(self).file_type == old(self).file_type,
            final(self).file_path == old(self).file_path,
    {
        assert(self.rows@.len() == self.rows.len());
        let bytes = self.rows[row_index].to_bytes();
        let new_row = GapBuffer::from_bytes(
            slice_subrange(bytes.as_slice(), byte_offset, bytes.len()),
        );
        self.rows[row_index].remove(byte_offset..bytes.len());
        self.rows.insert(row_index + 1, new_row);
        assert(self@ =~= split_at(old(self)@, row_index as int, byte_offset as int));
    }

    /// Starts a new line at byte offset `byte_offset` of line `row_idx`: the
    /// line keeps what stands in front of the offset, and the rest becomes
    /// the new line right behind it.
    pub fn new_line(&mut self, row_idx: usize, byte_offset: usize)
        requires
            row_idx < old(self)@.len(),
            byte_offset <= old(self)@[row_idx as int].len(),
        ensures
            final(self)@ == split_at(old(self)@, row_idx as int, byte_offset as int),
            final(self).file_type == old(self).file_type,
            final(self).file_path == old(self).file_path,
    {
        self.split_line(row_idx, byte_offset);
    }

    /// Joins line `row_index` to the end of the line in front of it. The
    /// first line has no line in front of it and is left as it is.
    pub fn merge_with_previous(&mut self, row_index: usize)
        requires
            row_index < old(self)@.len(),
        ensures
            final(self)@ == if row_index == 0 {
                old(self)@
            } else {
                merged(old(self)@, row_index - 1)
            },
            final(self).file_type == old(self).file_type,
            final(self).file_path == old(self).file_path,
    {
        if row_index == 0 {
            return ;
        }
        let removed = self.rows.remove(row_index);
        let bytes = removed.to_bytes();
        let end = self.rows[row_index - 1].buffer_length();
        self.rows[row_index - 1].insert(end, bytes.as_slice());
        proof {
            let front = old(self)@[row_index - 1];
            assert(splice(front, end as int, bytes@) =~= front + bytes@);
        }
        assert(self@ =~= merged(old(self)@, row_index - 1));
    }

    /// Joins line `row_index` to the front of the line behind it. The last
    /// line has no line behind it and is left as it is.
    pub fn merge_with_next(&mut self, row_index: usize)
        requires
            row_index < old(self)@.len(),
        ensures
            final(self)@ == if row_index + 1 == old(self)@.len() {
                old(self)@
            } else {
                merged(old(self)@, row_index as int)
            },
            final(self).file_type == old(self).file_type,
            final(self).file_path == old(self).file_path,
    {
        if row_index >= self.rows.len() - 1 {
            return ;
        }
        let removed = self.rows.remove(row_index);
        let bytes = removed.to_bytes();
        self.rows[row_index].insert(0, bytes.as_slice());
        proof {
            let back = old(self)@[row_index + 1];
            assert(splice(back, 0, bytes@) =~= bytes@ + back);
        }
        assert(self@ =~= merged(old(self)@, row_index as int));
    }

    /// The greatest number of characters that a line displays, 0 without lines.
    pub fn cols(&self) -> (width: usize)
        ensures
            width == max_columns(self@),
    {
        let mut width: usize = 0;
        let mut i: usize = 0;
        while i < self.rows.len()
            invariant
                i <= self.rows@.len(),
                width == max_columns(self@.subrange(0, i as int)),
            decreases self.rows@.len() - i,
        {
            let len = self.rows[i].str_len();
            proof {
                let done = self@.subrange(0, i + 1);
                assert(done.drop_last() =~= self@.subrange(0, i as int));
            }
            if len > width {
                width = len;
            }
            i = i + 1;
        }
        assert(self@.subrange(0, i as int) =~= self@);
        width
    }

    /// The whole document as text: its lines as they display, one line feed
    /// between each two of them and none at the end.
    pub fn text(&self) -> (text: String)
        ensures
            text@ == join_text(self@),
    {
        let mut text = String::new();
        let mut i: usize = 0;
        while i < self.rows.len()
            invariant
                i <= self.rows@.len(),
                text@ == join_text(self@.subrange(0, i as int)),
            decreases self.rows@.len() - i,
        {
            if i > 0 {
                text.append("\n");
            }
            let line = self.rows[i].to_string();
            text.append(line.as_str());
            proof {
                reveal_strlit("\n");
                let done = self@.subrange(0, i + 1);
                assert(done.drop_last() =~= self@.subrange(0, i as int));
            }
            i = i + 1;
        }
        assert(self@.subrange(0, i as int) =~= self@);
        text
    }
}

} // verus!
