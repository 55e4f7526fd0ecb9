//! What the screen shows: the rows of the display and the status bars as
//! text, ready to be printed.

use crate::editor::Editor;
use crate::gap_buffer::clamped;
use crate::keys::{Key, Mode};
use crate::model::EditorView;
use crate::text::text_of;
use vstd::prelude::*;
use vstd::string::StrSliceExecFns;
use vstd::string::StringExecFns;

verus! {

/// Escape sequence that sets the background of the status bar.
pub const STATUS_BAR: &'static str = "\x1B[48;5;237m";

/// Escape sequence that sets the background of the sidebar.
pub const SIDEBAR: &'static str = "\x1B[48;5;234m";

/// Escape sequence that ends all styling.
pub const ANSI_END: &'static str = "\x1B[0m";

/// `n` times the character `c`.
pub open spec fn run_of(c: char, n: nat) -> Seq<char> {
    Seq::new(n, |i: int| c)
}

/// `n` spaces.
pub open spec fn spaces(n: nat) -> Seq<char> {
    run_of(' ', n)
}

/// `text`, with spaces behind it until it has `width` characters, if it
/// has fewer.
pub open spec fn padded(text: Seq<char>, width: nat) -> Seq<char> {
    if text.len() < width {
        text + spaces((width - text.len()) as nat)
    } else {
        text
    }
}

/// Puts spaces behind `text` until it has `width` characters.
pub fn pad(text: &mut String, width: usize)
    ensures
        final(text)@ == padded(old(text)@, width as nat),
{
    let mut count = text.as_str().unicode_len();
    let ghost start = count;
    assert(text@ =~= old(text)@ + spaces(0));
    while count < width
        invariant
            start == old(text)@.len(),
            start <= count,
            start < width ==> count <= width,
            start >= width ==> count == start,
            text@ == old(text)@ + spaces((count - start) as nat),
        decreases width - count,
    {
        proof {
            reveal_strlit(" ");
        }
        text.append(" ");
        count = count + 1;
        assert(text@ =~= old(text)@ + spaces((count - start) as nat));
    }
    assert(text@ =~= padded(old(text)@, width as nat));
}

/// `n` spaces.
pub fn blank(n: usize) -> (text: String)
    ensures
        text@ == spaces(n as nat),
{
    let mut text = String::new();
    pad(&mut text, n);
    assert(text@ =~= spaces(n as nat));
    text
}

/// `n` tildes.
pub fn tildes(n: usize) -> (text: String)
    ensures
        text@ == run_of('~', n as nat),
{
    let mut text = String::new();
    let mut count: usize = 0;
    assert(text@ =~= run_of('~', 0));
    while count < n
        invariant
            count <= n,
            text@ == run_of('~', count as nat),
        decreases n - count,
    {
        proof {
            reveal_strlit("~");
        }
        text.append("~");
        count = count + 1;
        assert(text@ =~= run_of('~', count as nat));
    }
    text
}

/// The decimal digits of `n`.
pub open spec fn decimal_text(n: nat) -> Seq<char>
    decreases n,
{
    if n < 10 {
        seq![digit_char(n)]
    } else {
        decimal_text(n / 10).push(digit_char(n % 10))
    }
}

/// The character of the digit `d`.
pub open spec fn digit_char(d: nat) -> char {
    if d == 0 {
        '0'
    } else if d == 1 {
        '1'
    } else if d == 2 {
        '2'
    } else if d == 3 {
        '3'
    } else if d == 4 {
        '4'
    } else if d == 5 {
        '5'
    } else if d == 6 {
        '6'
    } else if d == 7 {
        '7'
    } else if d == 8 {
        '8'
    } else {
        '9'
    }
}

fn digit(d: usize) -> (text: &'static str)
    requires
        d < 10,
    ensures
        text@ == seq![digit_char(d as nat)],
{
    proof {
        reveal_strlit("0");
        reveal_strlit("1");
        reveal_strlit("2");
        reveal_strlit("3");
        reveal_strlit("4");
        reveal_strlit("5");
        reveal_strlit("6");
        reveal_strlit("7");
        reveal_strlit("8");
        reveal_strlit("9");
    }
    let text = if d == 0 {
        "0"
    } else if d == 1 {
        "1"
    } else if d == 2 {
        "2"
    } else if d == 3 {
        "3"
    } else if d == 4 {
        "4"
    } else if d == 5 {
        "5"
    } else if d == 6 {
        "6"
    } else if d == 7 {
        "7"
    } else if d == 8 {
        "8"
    } else {
        "9"
    };
    assert(text@ =~= seq![digit_char(d as nat)]);
    text
}

/// `n` in decimal digits.
pub fn decimal(n: usize) -> (text: String)
    ensures
        text@ == decimal_text(n as nat),
    decreases n,
{
    if n < 10 {
        String::from_str(digit(n))
    } else {
        let mut text = decimal(n / 10);
        text.append(digit(n % 10));
        text
    }
}

/// What a screen row shows of row `row` of `lines`: its text at byte
/// offsets `start..end`, or a tilde where `lines` has no such row.
pub open spec fn shown(lines: Seq<Seq<u8>>, row: int, start: int, end: int) -> Seq<char> {
    if row < lines.len() {
        text_of(clamped(lines[row], start, end))
    } else {
        "~"@
    }
}

/// Number of columns that the plain screen leaves to the sidebar.
pub open spec fn sidebar_width(s: EditorView, terminal_width: usize) -> int {
    terminal_width - s.display_width - 3
}

/// Screen row `line` of the plain screen: the document's row, padded to
/// the width of the display, a dotted bar on the background of the status
/// bar, the sidebar's row, padded to its width, and a solid bar.
pub open spec fn plain_row(s: EditorView, line: int, terminal_width: usize) -> Seq<char> {
    padded(
        shown(s.document, s.display_y + line, s.display_x as int, s.display_x + s.display_width),
        s.display_width as nat,
    ) + STATUS_BAR@ + seq!['\u{250A}'] + padded(
        shown(s.sidebar, line, 0, sidebar_width(s, terminal_width)),
        sidebar_width(s, terminal_width) as nat,
    ) + seq!['\u{2503}'] + ANSI_END@
}

/// Whether the plain screen can be drawn: the rows and columns that it
/// shows are numbers that a `usize` holds, and the terminal is at least
/// three columns wider than the display.
pub open spec fn can_render_old(s: EditorView, terminal_width: usize) -> bool {
    &&& s.display_y + s.display_height <= usize::MAX
    &&& s.display_x + s.display_width <= usize::MAX
    &&& sidebar_width(s, terminal_width) >= 0
}

/// Number of columns that the line numbers take: as many as the row count
/// has digits, and at least three.
pub open spec fn line_number_width(s: EditorView) -> nat {
    if decimal_text(s.file_rows as nat).len() < 3 {
        3
    } else {
        decimal_text(s.file_rows as nat).len()
    }
}

/// Number of columns that the numbered screen leaves behind the display.
pub open spec fn numbered_sidebar_width(s: EditorView, terminal_width: usize) -> int {
    terminal_width - s.display_width - 2
}

/// The line number of row `row`, counted from 1 and set to the right of
/// `width` columns, or `width` tildes where the document has no such row.
pub open spec fn line_number(s: EditorView, row: int, width: nat) -> Seq<char> {
    if row < s.file_rows {
        let digits = decimal_text((row + 1) as nat);
        if digits.len() < width {
            spaces((width - digits.len()) as nat) + digits
        } else {
            digits
        }
    } else {
        run_of('~', width)
    }
}

/// `n` spaces, none where `n` is negative.
pub open spec fn gap(n: int) -> Seq<char> {
    if n > 0 {
        spaces(n as nat)
    } else {
        Seq::<char>::empty()
    }
}

/// Screen row `line` of the numbered screen: the document's row, padded to
/// the width of the display; on the background of the sidebar a dashed bar,
/// the line number, the scroll bar, a full block where `thumb` holds and a
/// thin bar elsewhere, a space, the sidebar's row and the spaces that fill
/// the sidebar; a solid bar on the background of the status bar; and a
/// carriage return.
pub open spec fn numbered_row(
    s: EditorView,
    line: int,
    terminal_width: usize,
    thumb: bool,
) -> Seq<char> {
    let width = line_number_width(s);
    let main_content = shown(
        s.document,
        s.display_y + line,
        s.display_x as int,
        s.display_x + s.display_width,
    );
    let sidebar_content = if line < s.sidebar.len() {
        text_of(clamped(s.sidebar[line], 0, numbered_sidebar_width(s, terminal_width) - width - 3))
    } else {
        Seq::<char>::empty()
    };
    main_content + gap(s.display_width - main_content.len()) + SIDEBAR@ + seq!['\u{2506}']
        + line_number(s, s.display_y + line, width) + seq![
        if thumb {
            '\u{2588}'
        } else {
            '\u{2502}'
        },
    ] + seq![' '] + sidebar_content + gap(
        numbered_sidebar_width(s, terminal_width) - (sidebar_content.len() + width + 2),
    ) + STATUS_BAR@ + seq!['\u{2503}'] + ANSI_END@ + seq!['\r']
}

/// Whether the numbered screen can be drawn with a scroll bar of
/// `scroll_height` rows from row `scroll_start` on: the rows and columns
/// that it shows and the end of the scroll bar are numbers that a `usize`
/// holds, and the terminal has room for the display, the line numbers and
/// five columns more.
pub open spec fn can_render_new(
    s: EditorView,
    terminal_width: usize,
    scroll_height: usize,
    scroll_start: usize,
) -> bool {
    &&& s.display_y + s.display_height <= usize::MAX
    &&& s.display_x + s.display_width <= usize::MAX
    &&& scroll_start + scroll_height <= usize::MAX
    &&& numbered_sidebar_width(s, terminal_width) >= line_number_width(s) + 3
}

/// The words of status bar `row`, before padding. Bar 0 names the file
/// and its number of rows, bar 1 shows the status line, bar 2 names the
/// mode and, after Ctrl-s, says where the file was saved; any other bar is
/// empty.
pub open spec fn status_words(s: EditorView, row: usize, key: Key) -> Seq<char> {
    if row == 0 {
        "File: "@ + s.file_path + " - "@ + decimal_text(s.file_rows as nat) + " lines"@
    } else if row == 1 {
        text_of(s.status_text)
    } else if row == 2 {
        (match s.mode {
            Mode::Edit => "EDIT MODE"@,
            Mode::Command => "COMMAND MODE"@,
        }) + (match key {
            Key::Ctrl(c) => if c == 's' {
                "File saved to "@ + s.file_path + "."@
            } else {
                Seq::<char>::empty()
            },
            _ => Seq::<char>::empty(),
        })
    } else {
        Seq::<char>::empty()
    }
}

/// Status bar `row` as it is printed: its words, padded to the width of
/// the terminal, on the background of the status bar.
pub open spec fn status_bar(s: EditorView, row: usize, key: Key, terminal_width: usize) -> Seq<
    char,
> {
    STATUS_BAR@ + padded(status_words(s, row, key), terminal_width as nat) + ANSI_END@
}

impl Editor {
    /// What a screen row shows of row `row` of `document`.
    fn shown(document: &crate::document::Document, row: usize, start: usize, end: usize) -> (text:
        String)
        ensures
            text@ == shown(document@, row as int, start as int, end as int),
    {
        match document.row(row) {
            Some(line) => line.render(start, end),
            None => String::from_str("~"),
        }
    }

    /// Whether the plain screen can be drawn on a terminal of this width.
    pub fn old_screen_fits(&self, terminal_width: usize) -> (ok: bool)
        ensures
            ok == can_render_old(self@, terminal_width),
    {
        self.display_y.checked_add(self.display_height).is_some() && self.display_x.checked_add(
            self.display_width,
        ).is_some() && terminal_width >= self.display_width && terminal_width - self.display_width
            >= 3
    }

    /// Whether the numbered screen can be drawn on a terminal of this width
    /// with this scroll bar.
    pub fn new_screen_fits(
        &self,
        terminal_width: usize,
        scroll_height: usize,
        scroll_start: usize,
    ) -> (ok: bool)
        ensures
            ok == can_render_new(self@, terminal_width, scroll_height, scroll_start),
    {
        let digits = decimal(self.file_rows).as_str().unicode_len();
        let number_width: usize = if digits < 3 { 3 } else { digits };
        self.display_y.checked_add(self.display_height).is_some() && self.display_x.checked_add(
            self.display_width,
        ).is_some() && scroll_start.checked_add(scroll_height).is_some() && terminal_width
            >= self.display_width && terminal_width - self.display_width >= 2 && terminal_width
            - self.display_width - 2 >= number_width && terminal_width - self.display_width - 2
            - number_width >= 3
    }

    /// Whether the words of status bar `row` fit into a terminal of this
    /// width.
    pub fn status_fits(&self, row: usize, key: Key, terminal_width: usize) -> (ok: bool)
        ensures
            ok == (status_words(self@, row, key).len() <= terminal_width),
    {
        self.status_words(row, key).as_str().unicode_len() <= terminal_width
    }

    /// The rows of the plain screen, first row first.
    pub fn render_old(&self, terminal_width: usize) -> (rows: Vec<String>)
        requires
            can_render_old(self@, terminal_width),
        ensures
            rows@.len() == self.display_height,
            forall|line: int|
                0 <= line < rows@.len() ==> (#[trigger] rows@[line])@ == plain_row(
                    self@,
                    line,
                    terminal_width,
                ),
    {
        let mut rows: Vec<String> = Vec::new();
        let mut line: usize = 0;
        while line < self.display_height
            invariant
                can_render_old(self@, terminal_width),
                line <= self.display_height,
                rows@.len() == line,
                forall|i: int|
                    0 <= i < rows@.len() ==> (#[trigger] rows@[i])@ == plain_row(
                        self@,
                        i,
                        terminal_width,
                    ),
            decreases self.display_height - line,
        {
            let main_row_num = self.display_y + line;
            let sidebar_row_num = line;
            let main_content = Editor::shown(
                &self.document,
                main_row_num,
                self.display_x,
                self.display_x + self.display_width,
            );
            let sidebar_content = Editor::shown(
                &self.sidebar,
                sidebar_row_num,
                0,
                terminal_width - self.display_width - 3,
            );
            let mut rendered = String::new();
            rendered.append(main_content.as_str());
            pad(&mut rendered, self.display_width);
            rendered.append(STATUS_BAR);
            rendered.append("\u{250A}");
            let mut sidebar_part = sidebar_content;
            pad(&mut sidebar_part, terminal_width - self.display_width - 3);
            rendered.append(sidebar_part.as_str());
            rendered.append("\u{2503}");
            rendered.append(ANSI_END);
            proof {
                reveal_strlit("\u{250A}");
                reveal_strlit("\u{2503}");
                assert("\u{250A}"@ =~= seq!['\u{250A}']);
                assert("\u{2503}"@ =~= seq!['\u{2503}']);
                assert(Seq::<char>::empty() + main_content@ =~= main_content@);
                assert(rendered@ =~= plain_row(self@, line as int, terminal_width));
            }
            rows.push(rendered);
            line = line + 1;
        }
        rows
    }

    /// The line number of row `row`, set to the right of `width` columns.
    fn line_number(&self, row: usize, width: usize) -> (text: String)
        ensures
            text@ == line_number(self@, row as int, width as nat),
    {
        if row < self.file_rows {
            let digits = decimal(row + 1);
            let count = digits.as_str().unicode_len();
            if count < width {
                let mut text = blank(width - count);
                text.append(digits.as_str());
                text
            } else {
                digits
            }
        } else {
            tildes(width)
        }
    }

    /// The rows of the numbered screen, first row first, with the thumb of
    /// the scroll bar in the `scroll_height` rows from row `scroll_start` on.
    pub fn render_new(&self, terminal_width: usize, scroll_height: usize, scroll_start: usize) -> (rows:
        Vec<String>)
        requires
            can_render_new(self@, terminal_width, scroll_height, scroll_start),
        ensures
            rows@.len() == self.display_height,
            forall|line: int|
                0 <= line < rows@.len() ==> (#[trigger] rows@[line])@ == numbered_row(
                    self@,
                    line,
                    terminal_width,
                    scroll_start <= line < scroll_start + scroll_height,
                ),
    {
        let digits = decimal(self.file_rows).as_str().unicode_len();
        let number_width: usize = if digits < 3 { 3 } else { digits };
        let total_sidebar_width = terminal_width - self.display_width - 2;
        let mut rows: Vec<String> = Vec::new();
        let mut line: usize = 0;
        while line < self.display_height
            invariant
                can_render_new(self@, terminal_width, scroll_height, scroll_start),
                number_width == line_number_width(self@),
                total_sidebar_width == numbered_sidebar_width(self@, terminal_width),
                line <= self.display_height,
                rows@.len() == line,
                forall|i: int|
                    0 <= i < rows@.len() ==> (#[trigger] rows@[i])@ == numbered_row(
                        self@,
                        i,
                        terminal_width,
                        scroll_start <= i < scroll_start + scroll_height,
                    ),
            decreases self.display_height - line,
        {
            let main_row = self.display_y + line;
            let is_scroll_thumb = line >= scroll_start && line < scroll_start + scroll_height;
            let main_content = Editor::shown(
                &self.document,
                main_row,
                self.display_x,
                self.display_x + self.display_width,
            );
            let line_num = self.line_number(main_row, number_width);
            let sidebar_content = match self.sidebar.row(line) {
                Some(row) => row.render(0, total_sidebar_width - number_width - 3),
                None => String::new(),
            };
            let main_count = main_content.as_str().unicode_len();
            let sidebar_count = sidebar_content.as_str().unicode_len();
            let mut rendered = String::new();
            rendered.append(main_content.as_str());
            rendered.append(blank(self.display_width.saturating_sub(main_count)).as_str());
            rendered.append(SIDEBAR);
            rendered.append("\u{2506}");
            rendered.append(line_num.as_str());
            rendered.append(if is_scroll_thumb { "\u{2588}" } else { "\u{2502}" });
            rendered.append(" ");
            rendered.append(sidebar_content.as_str());
            rendered.append(
                blank(
                    total_sidebar_width.saturating_sub(
                        sidebar_count.saturating_add(number_width).saturating_add(2),
                    ),
                ).as_str(),
            );
            rendered.append(STATUS_BAR);
            rendered.append("\u{2503}");
            rendered.append(ANSI_END);
            rendered.append("\r");
            proof {
                reveal_strlit("\u{2506}");
                reveal_strlit("\u{2588}");
                reveal_strlit("\u{2502}");
                reveal_strlit("\u{2503}");
                reveal_strlit(" ");
                reveal_strlit("\r");
                assert("\u{2506}"@ =~= seq!['\u{2506}']);
                assert("\u{2588}"@ =~= seq!['\u{2588}']);
                assert("\u{2502}"@ =~= seq!['\u{2502}']);
                assert("\u{2503}"@ =~= seq!['\u{2503}']);
                assert(" "@ =~= seq![' ']);
                assert("\r"@ =~= seq!['\r']);
                assert(Seq::<char>::empty() + main_content@ =~= main_content@);
                assert(spaces(0) =~= Seq::<char>::empty());
                assert(rendered@ =~= numbered_row(
                    self@,
                    line as int,
                    terminal_width,
                    is_scroll_thumb,
                ));
            }
            rows.push(rendered);
            line = line + 1;
        }
        rows
    }

    /// The words of status bar `row`, before padding.
    pub fn status_words(&self, row: usize, key: Key) -> (words: String)
        ensures
            words@ == status_words(self@, row, key),
    {
        let mut status = String::new();
        if row == 0 {
            status.append("File: ");
            status.append(self.document.file_path.as_str());
            status.append(" - ");
            status.append(decimal(self.file_rows).as_str());
            status.append(" lines");
        } else if row == 1 {
            status.append(self.status_text.to_string().as_str());
        } else if row == 2 {
            match self.mode {
                Mode::Edit => {
                    status.append("EDIT MODE");
                },
                Mode::Command => {
                    status.append("COMMAND MODE");
                },
            }
            match key {
                Key::Ctrl(c) => {
                    if c == 's' {
                        status.append("File saved to ");
                        status.append(self.document.file_path.as_str());
                        status.append(".");
                    }
                },
                _ => {},
            }
        }
        assert(status@ =~= status_words(self@, row, key));
        status
    }

    /// Status bar `row` as it is printed, or `None` if its words do not fit
    /// into a terminal of this width.
    pub fn try_status_bar(&self, row: usize, key: Key, terminal_width: usize) -> (bar: Option<
        String,
    >)
        ensures
            bar is Some <==> status_words(self@, row, key).len() <= terminal_width,
            bar is Some ==> bar->0@ == status_bar(self@, row, key, terminal_width),
    {
        if self.status_fits(row, key, terminal_width) {
            Some(self.status_bar(row, key, terminal_width))
        } else {
            None
        }
    }

    /// Status bar `row` as it is printed.
    pub fn status_bar(&self, row: usize, key: Key, terminal_width: usize) -> (bar: String)
        requires
            status_words(self@, row, key).len() <= terminal_width,
        ensures
            bar@ == status_bar(self@, row, key, terminal_width),
    {
        let mut status = self.status_words(row, key);
        pad(&mut status, terminal_width);
        let mut bar = String::from_str(STATUS_BAR);
        bar.append(status.as_str());
        bar.append(ANSI_END);
        bar
    }
}

} // verus!
