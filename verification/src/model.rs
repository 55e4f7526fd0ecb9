//! The editor as a state machine over plain values: for each key, when it
//! can be pressed and what state it leads to. The executable editor is
//! specified against these functions.

use crate::gap_buffer::{lemma_insert_at_column, lemma_remove_at_column, with_char, without_char};
use crate::keys::{Key, Mode, Request};
use crate::lines::{
    lemma_merged_well_formed, lemma_split_at_column, lemma_split_then_merge,
    lemma_with_char_well_formed, lemma_without_char_well_formed, max_columns, merged, split_at,
    well_formed,
};
use crate::text::{column_offset, lemma_column_offset, lemma_text_of_encoded, text_of};
use vstd::prelude::*;
use vstd::utf8::{decode_utf8_encode_utf8, encode_utf8, valid_utf8};

verus! {

/// What an editor holds, as plain values: the lines of its texts as byte
/// sequences, and its numbers as they are.
pub struct EditorView {
    pub document: Seq<Seq<u8>>,
    pub file_path: Seq<char>,
    pub file_type: Seq<char>,
    pub sidebar: Seq<Seq<u8>>,
    pub sidebar_path: Seq<char>,
    pub sidebar_type: Seq<char>,
    pub status_text: Seq<u8>,
    pub cursor_x: usize,
    pub cursor_y: usize,
    pub display_x: usize,
    pub display_y: usize,
    pub display_height: usize,
    pub display_width: usize,
    pub file_cols: usize,
    pub file_rows: usize,
    pub previous_positions: Seq<(usize, usize)>,
    pub mode: Mode,
    pub exit: bool,
    pub key_pressed: Option<Key>,
}

/// `n + 1`, or `n` where that is the greatest `usize`.
pub open spec fn succ(n: usize) -> usize {
    if n == usize::MAX {
        n
    } else {
        (n + 1) as usize
    }
}

/// `n - 1`, or 0 where `n` is 0.
pub open spec fn pred(n: usize) -> usize {
    if n == 0 {
        0
    } else {
        (n - 1) as usize
    }
}

/// The row of the document that the cursor stands on: the first row that
/// the screen shows, plus the cursor's row on the screen.
pub open spec fn cursor_row(s: EditorView) -> int {
    s.display_y + s.cursor_y
}

/// Whether the cursor stands on a row of the document.
pub open spec fn on_a_row(s: EditorView) -> bool {
    cursor_row(s) < s.document.len()
}

/// Number of characters that row `row` of the document displays.
pub open spec fn row_chars(s: EditorView, row: int) -> nat {
    text_of(s.document[row]).len()
}

/// The state with the row count and the greatest column count taken anew
/// from the document.
pub open spec fn measured(s: EditorView) -> EditorView {
    EditorView {
        file_rows: s.document.len() as usize,
        file_cols: max_columns(s.document) as usize,
        ..s
    }
}

/// Esc: from the document to the status line, with the cursor at its
/// start, and from the status line back to the document.
pub open spec fn escape(s: EditorView) -> EditorView {
    match s.mode {
        Mode::Edit => EditorView { mode: Mode::Command, cursor_x: 0, ..s },
        Mode::Command => EditorView { mode: Mode::Edit, ..s },
    }
}

/// Whether a character key can be typed into the document: the cursor
/// stands on a row, not behind the end of its text. Other keys can always
/// be given.
pub open spec fn can_insert_text_edit(s: EditorView, key: Key) -> bool {
    match key {
        Key::Char(_) => on_a_row(s) && s.cursor_x <= row_chars(s, cursor_row(s)),
        _ => true,
    }
}

/// A character key puts its character into the cursor's row in front of
/// column `cursor_x` and moves the cursor one column on; other keys do
/// nothing.
pub open spec fn insert_text_edit(s: EditorView, key: Key) -> EditorView {
    match key {
        Key::Char(c) => EditorView {
            document: s.document.update(
                cursor_row(s),
                with_char(s.document[cursor_row(s)], s.cursor_x as int, c),
            ),
            cursor_x: succ(s.cursor_x),
            ..s
        },
        _ => s,
    }
}

/// Whether a character key can be typed into the status line: the cursor
/// does not stand behind the end of its text.
pub open spec fn can_insert_text_command(s: EditorView, key: Key) -> bool {
    match key {
        Key::Char(_) => s.cursor_x <= text_of(s.status_text).len(),
        _ => true,
    }
}

/// A character key puts its character into the status line in front of
/// column `cursor_x` and moves the cursor one column on; other keys do
/// nothing.
pub open spec fn insert_text_command(s: EditorView, key: Key) -> EditorView {
    match key {
        Key::Char(c) => EditorView {
            status_text: with_char(s.status_text, s.cursor_x as int, c),
            cursor_x: succ(s.cursor_x),
            ..s
        },
        _ => s,
    }
}

/// Whether a character key can be typed where the keys act.
pub open spec fn can_insert_text(s: EditorView, key: Key) -> bool {
    match s.mode {
        Mode::Edit => can_insert_text_edit(s, key),
        Mode::Command => can_insert_text_command(s, key),
    }
}

/// What typing a key does where the keys act.
pub open spec fn insert_text(s: EditorView, key: Key) -> EditorView {
    match s.mode {
        Mode::Edit => insert_text_edit(s, key),
        Mode::Command => insert_text_command(s, key),
    }
}

/// Whether Backspace can be pressed in the status line: at its start, or
/// on one of its characters.
pub open spec fn can_backspace_command(s: EditorView) -> bool {
    s.cursor_x == 0 || s.cursor_x < text_of(s.status_text).len()
}

/// Backspace in the status line does nothing at its start; elsewhere it
/// removes the character at column `cursor_x` and moves the cursor one
/// column back.
pub open spec fn backspace_command(s: EditorView) -> EditorView {
    if s.cursor_x == 0 {
        s
    } else {
        EditorView {
            status_text: without_char(s.status_text, s.cursor_x as int),
            cursor_x: (s.cursor_x - 1) as usize,
            ..s
        }
    }
}

/// Whether Backspace can be pressed in the document: the cursor stands on
/// a row; away from the row's start the column in front of the cursor,
/// counted from the first column that the screen shows, is a number that a
/// `usize` holds, and the row has a character there.
pub open spec fn can_backspace_edit(s: EditorView) -> bool {
    &&& on_a_row(s)
    &&& s.cursor_x > 0 ==> s.display_x + s.cursor_x <= usize::MAX && s.display_x + s.cursor_x - 1
        < row_chars(s, cursor_row(s))
}

/// Backspace in the document. Away from the start of the row it removes
/// the character in front of the cursor and moves the cursor one column
/// back, or, where the screen does not show the first column, the screen
/// instead. At the start of a row it joins the row to the row in front of
/// it, puts the cursor where that row ended and moves up by one row: the
/// cursor if the screen shows the first row, else the screen. In the first
/// row it does nothing.
pub open spec fn backspace_edit(s: EditorView) -> EditorView {
    let row = cursor_row(s);
    if s.cursor_x > 0 {
        let removed = EditorView {
            document: s.document.update(
                row,
                without_char(s.document[row], s.display_x + s.cursor_x - 1),
            ),
            ..s
        };
        if s.display_x == 0 {
            EditorView { cursor_x: (s.cursor_x - 1) as usize, ..removed }
        } else {
            EditorView { display_x: (s.display_x - 1) as usize, ..removed }
        }
    } else if row > 0 {
        let joined = EditorView {
            document: merged(s.document, row - 1),
            cursor_x: row_chars(s, row - 1) as usize,
            ..s
        };
        if s.display_y == 0 {
            measured(EditorView { cursor_y: pred(s.cursor_y), ..joined })
        } else {
            measured(EditorView { display_y: pred(s.display_y), ..joined })
        }
    } else {
        s
    }
}

/// Whether Backspace can be pressed where the keys act.
pub open spec fn can_backspace(s: EditorView) -> bool {
    match s.mode {
        Mode::Edit => can_backspace_edit(s),
        Mode::Command => can_backspace_command(s),
    }
}

/// What Backspace does where the keys act.
pub open spec fn backspace(s: EditorView) -> EditorView {
    match s.mode {
        Mode::Edit => backspace_edit(s),
        Mode::Command => backspace_command(s),
    }
}

/// Whether Delete can be pressed in the status line: the cursor stands on
/// one of its characters.
pub open spec fn can_delete_command(s: EditorView) -> bool {
    s.cursor_x < text_of(s.status_text).len()
}

/// Delete in the status line removes the character at column `cursor_x`.
pub open spec fn delete_command(s: EditorView) -> EditorView {
    EditorView { status_text: without_char(s.status_text, s.cursor_x as int), ..s }
}

/// Whether Delete can be pressed in the document: the cursor stands on a
/// row; in front of the row's end the cursor's column, counted from the
/// first column that the screen shows, holds a character; at the end of
/// the row the row count is that of the document.
pub open spec fn can_delete_edit(s: EditorView) -> bool {
    &&& on_a_row(s)
    &&& s.cursor_x < row_chars(s, cursor_row(s)) ==> s.display_x + s.cursor_x < row_chars(
        s,
        cursor_row(s),
    )
    &&& s.cursor_x == row_chars(s, cursor_row(s)) ==> s.file_rows == s.document.len()
}

/// Delete in the document. In front of the end of the row it removes the
/// character under the cursor. At the end of a row it joins the row to the
/// front of the row behind it; at the end of the last row, and behind the
/// end of a row, it does nothing.
pub open spec fn delete_edit(s: EditorView) -> EditorView {
    let row = cursor_row(s);
    if s.cursor_x < row_chars(s, row) {
        EditorView {
            document: s.document.update(
                row,
                without_char(s.document[row], s.display_x + s.cursor_x),
            ),
            ..s
        }
    } else if s.cursor_x == row_chars(s, row) && row + 1 < s.file_rows {
        measured(EditorView { document: merged(s.document, row), ..s })
    } else {
        s
    }
}

/// Whether Delete can be pressed where the keys act.
pub open spec fn can_delete(s: EditorView) -> bool {
    match s.mode {
        Mode::Edit => can_delete_edit(s),
        Mode::Command => can_delete_command(s),
    }
}

/// What Delete does where the keys act.
pub open spec fn delete(s: EditorView) -> EditorView {
    match s.mode {
        Mode::Edit => delete_edit(s),
        Mode::Command => delete_command(s),
    }
}

/// The words that Enter puts in front of the status line.
pub open spec fn executed() -> Seq<char> {
    "Executed "@
}

/// Enter in the status line replaces it by `Executed ` and what it
/// displayed, and puts the cursor at its start.
pub open spec fn enter_command(s: EditorView) -> EditorView {
    EditorView {
        status_text: encode_utf8(executed() + text_of(s.status_text)),
        cursor_x: 0,
        ..s
    }
}

/// Whether Enter can be pressed in the document: the cursor's row is a
/// number that a `usize` holds.
pub open spec fn can_enter_edit(s: EditorView) -> bool {
    cursor_row(s) <= usize::MAX
}

/// Enter in the document cuts the cursor's row in two at the byte offset
/// of column `cursor_x`, puts the cursor at the start of its row and moves
/// the screen down by one row. Where the cursor stands on no row, the
/// document stays as it is.
pub open spec fn enter_edit(s: EditorView) -> EditorView {
    let row = cursor_row(s);
    let document = if on_a_row(s) {
        split_at(s.document, row, column_offset(s.document[row], s.cursor_x as int))
    } else {
        s.document
    };
    measured(EditorView { document, cursor_x: 0, display_y: succ(s.display_y), ..s })
}

/// Whether Enter can be pressed where the keys act.
pub open spec fn can_enter(s: EditorView) -> bool {
    match s.mode {
        Mode::Edit => can_enter_edit(s),
        Mode::Command => true,
    }
}

/// What Enter does where the keys act.
pub open spec fn enter(s: EditorView) -> EditorView {
    match s.mode {
        Mode::Edit => enter_edit(s),
        Mode::Command => enter_command(s),
    }
}

/// The column that the cursor takes when it comes to a row of `len`
/// characters, before it is held back to the row's end: the column that it
/// last left for a shorter row, if it has left one and fits into this row,
/// else the column it has.
pub open spec fn recalled_x(s: EditorView, len: usize) -> usize {
    if s.cursor_x <= len && s.previous_positions.len() > 0 {
        s.previous_positions.last().0
    } else {
        s.cursor_x
    }
}

/// The cursor comes to a row of `len` characters. If its column fits into
/// the row, it goes back to the column that it last left for a shorter
/// row, if there is one. If its column then lies behind the row's end, the
/// column is kept for later together with `left_y`, and the cursor goes to
/// the row's end.
pub open spec fn arrive(s: EditorView, len: usize, left_y: usize) -> EditorView {
    let recalled = if s.cursor_x <= len && s.previous_positions.len() > 0 {
        EditorView {
            cursor_x: s.previous_positions.last().0,
            previous_positions: s.previous_positions.drop_last(),
            ..s
        }
    } else {
        s
    };
    if recalled.cursor_x > len {
        EditorView {
            cursor_x: len,
            previous_positions: recalled.previous_positions.push((recalled.cursor_x, left_y)),
            ..recalled
        }
    } else {
        recalled
    }
}

/// The state after the Up key has moved screen and cursor and before the
/// cursor's column is settled: the screen moves up by one row, and where it
/// then shows the first row, the cursor moves up too.
pub open spec fn lifted(s: EditorView) -> EditorView {
    let display_y = pred(s.display_y);
    EditorView {
        display_y,
        cursor_y: if display_y == 0 {
            pred(s.cursor_y)
        } else {
            s.cursor_y
        },
        ..s
    }
}

/// Whether the Up key can be pressed in the document: the cursor comes to
/// a row of the document, and where its column has to be kept, the row
/// below the one it comes to has a number that a `usize` holds.
pub open spec fn can_move_up(s: EditorView) -> bool {
    let t = lifted(s);
    &&& on_a_row(t)
    &&& recalled_x(t, row_chars(t, cursor_row(t)) as usize) > row_chars(t, cursor_row(t))
        ==> t.cursor_y < usize::MAX
}

/// The Up key in the document: screen and cursor move up, and the cursor
/// arrives at its new row; a column that it cannot hold there is kept with
/// the screen row below.
pub open spec fn move_up(s: EditorView) -> EditorView {
    let t = lifted(s);
    arrive(t, row_chars(t, cursor_row(t)) as usize, (t.cursor_y + 1) as usize)
}

/// The last row that the screen may start at, plus one.
pub open spec fn max_y(s: EditorView) -> int {
    s.file_rows - s.display_height / 2
}

/// The state after the Down key has moved screen and cursor and before the
/// cursor's column is settled: the screen moves down by one row while the
/// cursor stands in the middle of the screen, and where the screen then
/// still shows the first row, the cursor moves down.
pub open spec fn lowered(s: EditorView) -> EditorView {
    let display_y = if s.display_y < max_y(s) && s.cursor_y == s.display_height / 2 {
        succ(s.display_y)
    } else {
        s.display_y
    };
    EditorView {
        display_y,
        cursor_y: if display_y == 0 {
            succ(s.cursor_y)
        } else {
            s.cursor_y
        },
        ..s
    }
}

/// Whether the Down key can be pressed in the document: there is a last
/// row that the screen may start at, and unless the screen starts there,
/// the cursor comes to a row of the document, and where its column has to
/// be kept, it has not come to the first row of the screen.
pub open spec fn can_move_down(s: EditorView) -> bool {
    let t = lowered(s);
    &&& max_y(s) >= 1
    &&& s.display_y != max_y(s) - 1 ==> {
        &&& on_a_row(t)
        &&& recalled_x(t, row_chars(t, cursor_row(t)) as usize) > row_chars(t, cursor_row(t))
            ==> t.cursor_y > 0
    }
}

/// The Down key in the document: nothing where the screen starts at the
/// last row that it may start at; else screen and cursor move down, and the
/// cursor arrives at its new row; a column that it cannot hold there is
/// kept with the screen row above.
pub open spec fn move_down(s: EditorView) -> EditorView {
    if s.display_y == max_y(s) - 1 {
        s
    } else {
        let t = lowered(s);
        arrive(t, row_chars(t, cursor_row(t)) as usize, (t.cursor_y - 1) as usize)
    }
}

/// The Left key in the document: the cursor moves one column back, and
/// where it then stands in the first column of the screen, the screen moves
/// one column back too. Kept columns are forgotten.
pub open spec fn move_left(s: EditorView) -> EditorView {
    let cursor_x = pred(s.cursor_x);
    EditorView {
        cursor_x,
        display_x: if cursor_x == 0 {
            pred(s.display_x)
        } else {
            s.display_x
        },
        previous_positions: Seq::empty(),
        ..s
    }
}

/// The Right key in the document: nothing at the end of the row; else the
/// cursor moves one column on unless it stands at the edge of the display,
/// and where it then stands at that edge, the screen moves one column on
/// unless it starts at the greatest column count. Kept columns are
/// forgotten.
pub open spec fn move_right(s: EditorView) -> EditorView {
    if s.cursor_x == row_chars(s, cursor_row(s)) {
        s
    } else {
        let cursor_x = if s.cursor_x < s.display_width {
            (s.cursor_x + 1) as usize
        } else {
            s.cursor_x
        };
        EditorView {
            cursor_x,
            display_x: if cursor_x == s.display_width && s.display_x < s.file_cols {
                (s.display_x + 1) as usize
            } else {
                s.display_x
            },
            previous_positions: Seq::empty(),
            ..s
        }
    }
}

/// The Home key in the document: cursor and screen go to the first column.
/// Kept columns are forgotten.
pub open spec fn move_home(s: EditorView) -> EditorView {
    EditorView { cursor_x: 0, display_x: 0, previous_positions: Seq::empty(), ..s }
}

/// The End key in the document: the cursor goes to the end of its row, and
/// the screen as far to the right as the row is longer than the display is
/// wide. Kept columns are forgotten.
pub open spec fn move_end(s: EditorView) -> EditorView {
    let len = row_chars(s, cursor_row(s)) as usize;
    EditorView {
        cursor_x: len,
        display_x: if len > s.display_width {
            (len - s.display_width) as usize
        } else {
            0
        },
        previous_positions: Seq::empty(),
        ..s
    }
}

/// Whether a key can be given to the cursor in the document: the document
/// has at least half as many rows as the screen; for Up and Down the row
/// that the cursor comes to is a row of the document, and a cursor row is
/// there to keep with a column that has to be kept; for Right and End the
/// cursor stands on a row.
pub open spec fn can_move_cursor_edit(s: EditorView, key: Key) -> bool {
    &&& max_y(s) >= 0
    &&& match key {
        Key::Up => can_move_up(s),
        Key::Down => can_move_down(s),
        Key::Right => on_a_row(s),
        Key::End => on_a_row(s),
        _ => true,
    }
}

/// What an arrow key, Home or End does to the cursor in the document;
/// other keys do nothing.
pub open spec fn move_cursor_edit(s: EditorView, key: Key) -> EditorView {
    match key {
        Key::Up => move_up(s),
        Key::Down => move_down(s),
        Key::Left => move_left(s),
        Key::Right => move_right(s),
        Key::Home => move_home(s),
        Key::End => move_end(s),
        _ => s,
    }
}

/// Whether a key can be given to the cursor where the keys act.
pub open spec fn can_move_cursor(s: EditorView, key: Key) -> bool {
    match s.mode {
        Mode::Edit => can_move_cursor_edit(s, key),
        Mode::Command => true,
    }
}

/// What a key does to the cursor where the keys act: in the status line
/// no key moves the cursor.
pub open spec fn move_cursor(s: EditorView, key: Key) -> EditorView {
    match s.mode {
        Mode::Edit => move_cursor_edit(s, key),
        Mode::Command => s,
    }
}

/// Whether `key` can be pressed in state `s`.
pub open spec fn can_process_keys(s: EditorView, key: Key) -> bool {
    let pressed = EditorView { key_pressed: Some(key), ..s };
    match key {
        Key::Up | Key::Down | Key::Left | Key::Right | Key::Home | Key::End => can_move_cursor(
            pressed,
            key,
        ),
        Key::Backspace => can_backspace(pressed),
        Key::Delete => can_delete(pressed),
        Key::Char(c) => if c == '\n' {
            can_enter(pressed)
        } else {
            can_insert_text(pressed, key)
        },
        _ => true,
    }
}

/// The state after `key` was pressed in state `s`. The key is kept as the
/// last key pressed. Esc switches between document and status line, Ctrl-q
/// asks to leave, arrows, Home and End move the cursor, Backspace and
/// Delete remove, Enter breaks a line, any other character is typed, and
/// every other key changes nothing more.
pub open spec fn process_keys(s: EditorView, key: Key) -> EditorView {
    let pressed = EditorView { key_pressed: Some(key), ..s };
    match key {
        Key::Esc => escape(pressed),
        Key::Ctrl(c) => if c == 'q' {
            EditorView { exit: true, ..pressed }
        } else {
            pressed
        },
        Key::Up | Key::Down | Key::Left | Key::Right | Key::Home | Key::End => move_cursor(
            pressed,
            key,
        ),
        Key::Backspace => backspace(pressed),
        Key::Delete => delete(pressed),
        Key::Char(c) => if c == '\n' {
            enter(pressed)
        } else {
            insert_text(pressed, key)
        },
        _ => pressed,
    }
}

/// What `key` asks of whoever runs the editor: Ctrl-s asks to save.
pub open spec fn request_of(key: Key) -> Request {
    match key {
        Key::Ctrl(c) => if c == 's' {
            Request::Save
        } else {
            Request::Nothing
        },
        _ => Request::Nothing,
    }
}

/// Pressing a key leaves every row of the document well-formed UTF-8
/// without a line feed, if every row was so before.
pub proof fn lemma_process_keys_well_formed(s: EditorView, key: Key)
    requires
        well_formed(s.document),
        can_process_keys(s, key),
    ensures
        well_formed(process_keys(s, key).document),
{
    let pressed = EditorView { key_pressed: Some(key), ..s };
    let row = cursor_row(pressed);
    match key {
        Key::Backspace => {
            if pressed.mode == Mode::Edit {
                if pressed.cursor_x > 0 {
                    lemma_without_char_well_formed(
                        pressed.document,
                        row,
                        pressed.display_x + pressed.cursor_x - 1,
                    );
                } else if row > 0 {
                    lemma_merged_well_formed(pressed.document, row - 1);
                }
            }
        },
        Key::Delete => {
            if pressed.mode == Mode::Edit {
                if pressed.cursor_x < row_chars(pressed, row) {
                    lemma_without_char_well_formed(
                        pressed.document,
                        row,
                        pressed.display_x + pressed.cursor_x,
                    );
                } else if pressed.cursor_x == row_chars(pressed, row) && row + 1
                    < pressed.file_rows {
                    lemma_merged_well_formed(pressed.document, row);
                }
            }
        },
        Key::Char(c) => {
            if pressed.mode == Mode::Edit {
                if c == '\n' {
                    if row < pressed.document.len() {
                        let chars = row_chars(pressed, row);
                        let cut = if pressed.cursor_x < chars {
                            pressed.cursor_x as int
                        } else {
                            chars as int
                        };
                        lemma_split_at_column(pressed.document, row, cut);
                    }
                } else {
                    lemma_with_char_well_formed(pressed.document, row, pressed.cursor_x as int, c);
                }
            }
        },
        _ => {},
    }
}

/// Pressing a key leaves the row count that of the document, if it was so
/// before.
pub proof fn lemma_process_keys_row_count(s: EditorView, key: Key)
    requires
        s.file_rows == s.document.len(),
        s.document.len() < usize::MAX,
        can_process_keys(s, key),
    ensures
        process_keys(s, key).file_rows == process_keys(s, key).document.len(),
{
}

/// Pressing Enter in a row of well-formed UTF-8 and then Backspace gives
/// back the state as it was, where the cursor stood in the row, the counts
/// of rows and columns were those of the document, and the numbers stay
/// within what a `usize` holds.
pub proof fn lemma_enter_then_backspace(s: EditorView)
    requires
        on_a_row(s),
        valid_utf8(s.document[cursor_row(s)]),
        s.cursor_x <= row_chars(s, cursor_row(s)),
        s.display_y < usize::MAX,
        s.document.len() < usize::MAX,
        measured(s) == s,
    ensures
        can_backspace_edit(enter_edit(s)),
        backspace_edit(enter_edit(s)) == s,
{
    let row = cursor_row(s);
    let line = s.document[row];
    let text = text_of(line);
    let cut = s.cursor_x as int;
    let entered = enter_edit(s);
    lemma_column_offset(line, cut);
    lemma_text_of_encoded(text.subrange(0, cut));
    lemma_split_then_merge(s.document, row, column_offset(line, cut));
}

/// Typing a character into a row of well-formed UTF-8 and pressing
/// Backspace gives back the state as it was, where the screen shows the
/// first column.
pub proof fn lemma_type_then_backspace(s: EditorView, c: char)
    requires
        on_a_row(s),
        valid_utf8(s.document[cursor_row(s)]),
        s.cursor_x <= row_chars(s, cursor_row(s)),
        s.cursor_x < usize::MAX,
        s.display_x == 0,
    ensures
        can_backspace_edit(insert_text_edit(s, Key::Char(c))),
        backspace_edit(insert_text_edit(s, Key::Char(c))) == s,
{
    let row = cursor_row(s);
    let line = s.document[row];
    let typed = insert_text_edit(s, Key::Char(c));
    let long = with_char(line, s.cursor_x as int, c);
    lemma_insert_at_column(line, s.cursor_x as int, c);
    lemma_remove_at_column(long, s.cursor_x as int);
    let short = without_char(long, s.cursor_x as int);
    assert(text_of(line).insert(s.cursor_x as int, c).remove(s.cursor_x as int) =~= text_of(line));
    decode_utf8_encode_utf8(line);
    decode_utf8_encode_utf8(short);
    assert(typed.document.update(row, short) =~= s.document);
}

} // verus!
