//! The editor: the state of an editing session and the key presses that
//! change it.

use crate::document::Document;
use crate::gap_buffer::GapBuffer;
use crate::keys::{Key, Mode, Request};
use crate::lines::max_columns;
use crate::model::{
    arrive, backspace, backspace_command, backspace_edit, can_backspace, can_backspace_command,
    can_backspace_edit, can_delete, can_delete_command, can_delete_edit, can_enter,
    can_enter_edit, can_insert_text, can_insert_text_command, can_insert_text_edit,
    can_move_cursor, can_move_cursor_edit, can_process_keys, cursor_row, delete, delete_command,
    delete_edit, enter, enter_command, enter_edit, escape, insert_text, insert_text_command,
    insert_text_edit, lifted, lowered, measured, move_cursor, move_cursor_edit, move_down,
    move_up, on_a_row, process_keys, recalled_x, request_of, row_chars, EditorView,
};
use std::collections::VecDeque;
use vstd::prelude::*;
use vstd::string::StringExecFns;

verus! {

/// The state of an editing session: the document, the sidebar, the status
/// line, where the cursor stands on the screen and which part of the
/// document the screen shows.
pub struct Editor {
    pub document: Document,
    pub sidebar: Document,
    pub status_text: GapBuffer,
    pub cursor_x: usize,
    pub cursor_y: usize,
    pub display_x: usize,
    pub display_y: usize,
    pub display_height: usize,
    pub display_width: usize,
    pub file_cols: usize,
    pub file_rows: usize,
    pub previous_positions: VecDeque<(usize, usize)>,
    pub mode: Mode,
    pub exit: bool,
    pub key_pressed: Option<Key>,
}

impl View for Editor {
    type V = EditorView;

    open spec fn view(&self) -> EditorView {
        EditorView {
            document: self.document@,
            file_path: self.document.file_path@,
            file_type: self.document.file_type@,
            sidebar: self.sidebar@,
            sidebar_path: self.sidebar.file_path@,
            sidebar_type: self.sidebar.file_type@,
            status_text: self.status_text@,
            cursor_x: self.cursor_x,
            cursor_y: self.cursor_y,
            display_x: self.display_x,
            display_y: self.display_y,
            display_height: self.display_height,
            display_width: self.display_width,
            file_cols: self.file_cols,
            file_rows: self.file_rows,
            previous_positions: self.previous_positions@,
            mode: self.mode,
            exit: self.exit,
            key_pressed: self.key_pressed,
        }
    }
}

impl Editor {
    /// An editor on `document` for a screen that shows `display_height` rows
    /// of `display_width` columns of it: in the document, with the cursor in
    /// the first column of the middle row of the screen, and the screen at
    /// the start of the document.
    pub fn new(
        document: Document,
        sidebar: Document,
        display_height: usize,
        display_width: usize,
    ) -> (editor: Editor)
        ensures
            editor@ == (EditorView {
                document: document@,
                file_path: document.file_path@,
                file_type: document.file_type@,
                sidebar: sidebar@,
                sidebar_path: sidebar.file_path@,
                sidebar_type: sidebar.file_type@,
                status_text: Seq::empty(),
                cursor_x: 0,
                cursor_y: (display_height / 2) as usize,
                display_x: 0,
                display_y: 0,
                display_height,
                display_width,
                file_cols: max_columns(document@) as usize,
                file_rows: document@.len() as usize,
                previous_positions: Seq::empty(),
                mode: Mode::Edit,
                exit: false,
                key_pressed: Some(Key::Null),
            }),
    {
        let doc_rows = document.rows();
        let doc_cols = document.cols();
        Editor {
            document,
            sidebar,
            status_text: GapBuffer::new(0),
            cursor_x: 0,
            cursor_y: display_height / 2,
            display_x: 0,
            display_y: 0,
            display_height,
            display_width,
            file_cols: doc_cols,
            file_rows: doc_rows,
            previous_positions: VecDeque::new(),
            mode: Mode::Edit,
            exit: false,
            key_pressed: Some(Key::Null),
        }
    }

    /// The row of the document that the cursor stands on, if it stands on one.
    pub fn cursor_row(&self) -> (row: Option<usize>)
        ensures
            row is Some <==> on_a_row(self@),
            row is Some ==> row->0 == cursor_row(self@),
    {
        assert(self.document.rows.len() == self.document@.len());
        match self.display_y.checked_add(self.cursor_y) {
            Some(row) => if row < self.document.rows() {
                Some(row)
            } else {
                None
            },
            None => None,
        }
    }

    /// Takes the row count and the greatest column count anew from the
    /// document.
    fn measure(&mut self)
        ensures
            final(self)@ == measured(old(self)@),
    {
        self.file_rows = self.document.rows();
        self.file_cols = self.document.cols();
    }

    /// Switches between the document and the status line.
    pub fn escape(&mut self)
        ensures
            final(self)@ == escape(old(self)@),
    {
        match self.mode {
            Mode::Edit => {
                self.mode = Mode::Command;
                self.cursor_x = 0;
            },
            Mode::Command => {
                self.mode = Mode::Edit;
            },
        }
    }

    /// Types a character key where the keys act.
    pub fn insert_text(&mut self, key: Key)
        requires
            can_insert_text(old(self)@, key),
        ensures
            final(self)@ == insert_text(old(self)@, key),
    {
        match self.mode {
            Mode::Edit => {
                self.insert_text_edit(key);
            },
            Mode::Command => {
                self.insert_text_command(key);
            },
        }
    }

    /// Types a character key into the cursor's row of the document.
    fn insert_text_edit(&mut self, key: Key)
        requires
            can_insert_text_edit(old(self)@, key),
        ensures
            final(self)@ == insert_text_edit(old(self)@, key),
    {
        match key {
            Key::Char(c) => {
                assert(self.document.rows.len() == self.document@.len());
                let row = self.display_y + self.cursor_y;
                self.document.rows[row].insert_at_column(self.cursor_x, c);
                self.cursor_x = self.cursor_x.saturating_add(1);
                assert(self.document@ =~= insert_text_edit(old(self)@, key).document);
            },
            _ => (),
        }
    }

    /// Types a character key into the status line.
    fn insert_text_command(&mut self, key: Key)
        requires
            can_insert_text_command(old(self)@, key),
        ensures
            final(self)@ == insert_text_command(old(self)@, key),
    {
        match key {
            Key::Char(c) => {
                self.status_text.insert_at_column(self.cursor_x, c);
                self.cursor_x = self.cursor_x.saturating_add(1);
            },
            _ => (),
        }
    }

    /// Backspace where the keys act.
    pub fn backspace(&mut self)
        requires
            can_backspace(old(self)@),
        ensures
            final(self)@ == backspace(old(self)@),
    {
        match self.mode {
            Mode::Edit => {
                self.backspace_edit();
            },
            Mode::Command => {
                self.backspace_command();
            },
        }
    }

    /// Backspace in the status line.
    fn backspace_command(&mut self)
        requires
            can_backspace_command(old(self)@),
        ensures
            final(self)@ == backspace_command(old(self)@),
    {
        if self.cursor_x == 0 {
            return ;
        }
        self.status_text.remove_at_column(self.cursor_x);
        self.cursor_x = self.cursor_x.saturating_sub(1);
    }

    /// Backspace in the document.
    fn backspace_edit(&mut self)
        requires
            can_backspace_edit(old(self)@),
        ensures
            final(self)@ == backspace_edit(old(self)@),
    {
        assert(self.document.rows.len() == self.document@.len());
        let current_row = self.display_y + self.cursor_y;
        if self.cursor_x > 0 {
            self.document.rows[current_row].remove_at_column(self.display_x + self.cursor_x - 1);
            if self.display_x == 0 {
                self.cursor_x = self.cursor_x.saturating_sub(1);
            } else {
                self.display_x = self.display_x.saturating_sub(1);
            }
            assert(self.document@ =~= backspace_edit(old(self)@).document);
        } else if current_row > 0 {
            let prev_char_len = self.document.rows[current_row - 1].str_len();
            self.document.merge_with_previous(current_row);
            if self.display_y == 0 {
                self.cursor_y = self.cursor_y.saturating_sub(1);
            } else {
                self.display_y = self.display_y.saturating_sub(1);
            }
            self.cursor_x = prev_char_len;
            self.measure();
        }
    }

    /// Delete where the keys act.
    pub fn delete(&mut self)
        requires
            can_delete(old(self)@),
        ensures
            final(self)@ == delete(old(self)@),
    {
        match self.mode {
            Mode::Edit => {
                self.delete_edit();
            },
            Mode::Command => {
                self.delete_command();
            },
        }
    }

    /// Delete in the status line.
    fn delete_command(&mut self)
        requires
            can_delete_command(old(self)@),
        ensures
            final(self)@ == delete_command(old(self)@),
    {
        self.status_text.remove_at_column(self.cursor_x);
    }

    /// Delete in the document.
    fn delete_edit(&mut self)
        requires
            can_delete_edit(old(self)@),
        ensures
            final(self)@ == delete_edit(old(self)@),
    {
        assert(self.document.rows.len() == self.document@.len());
        let current_row = self.display_y + self.cursor_y;
        let len = self.document.rows[current_row].str_len();
        if self.cursor_x < len {
            self.document.rows[current_row].remove_at_column(self.display_x + self.cursor_x);
            assert(self.document@ =~= delete_edit(old(self)@).document);
        } else if self.cursor_x == len {
            if current_row < self.file_rows - 1 {
                self.document.merge_with_next(current_row);
                self.measure();
            }
        }
    }

    /// Enter where the keys act.
    pub fn enter(&mut self)
        requires
            can_enter(old(self)@),
        ensures
            final(self)@ == enter(old(self)@),
    {
        match self.mode {
            Mode::Edit => {
                self.enter_edit();
            },
            Mode::Command => {
                self.enter_command();
            },
        }
    }

    /// Enter in the status line.
    fn enter_command(&mut self)
        ensures
            final(self)@ == enter_command(old(self)@),
    {
        let mut text = String::from_str("Executed ");
        text.append(self.status_text.to_string().as_str());
        self.status_text = GapBuffer::from_str(text.as_str());
        self.cursor_x = 0;
    }

    /// Enter in the document.
    fn enter_edit(&mut self)
        requires
            can_enter_edit(old(self)@),
        ensures
            final(self)@ == enter_edit(old(self)@),
    {
        let actual_row = self.display_y + self.cursor_y;
        let current_col = self.cursor_x;
        if actual_row < self.document.rows() {
            let byte_offset = self.document.rows[actual_row].byte_offset(current_col);
            self.document.new_line(actual_row, byte_offset);
        }
        self.measure();
        self.cursor_x = 0;
        self.display_y = self.display_y.saturating_add(1);
    }

    /// Gives an arrow key, Home or End to the cursor where the keys act.
    pub fn move_cursor(&mut self, key: Key)
        requires
            can_move_cursor(old(self)@, key),
        ensures
            final(self)@ == move_cursor(old(self)@, key),
    {
        match self.mode {
            Mode::Edit => {
                self.move_cursor_edit(key);
            },
            Mode::Command => {
                self.move_cursor_command(key);
            },
        }
    }

    /// In the status line no key moves the cursor.
    pub fn move_cursor_command(&mut self, _key: Key)
        ensures
            final(self)@ == old(self)@,
    {
    }

    /// The cursor has come to a row of `len` characters.
    fn arrive(&mut self, len: usize, left_y: usize)
        ensures
            final(self)@ == arrive(old(self)@, len, left_y),
    {
        if self.cursor_x <= len {
            match self.previous_positions.pop_back() {
                Some((x, _)) => {
                    self.cursor_x = x;
                    assert(self.previous_positions@ =~= old(self).previous_positions@.drop_last());
                },
                None => (),
            }
        }
        if self.cursor_x > len {
            self.previous_positions.push_back((self.cursor_x, left_y));
            self.cursor_x = len;
        }
    }

    /// Moves the cursor in the document as an arrow key, Home or End asks.
    pub fn move_cursor_edit(&mut self, key: Key)
        requires
            can_move_cursor_edit(old(self)@, key),
        ensures
            final(self)@ == move_cursor_edit(old(self)@, key),
    {
        assert(self.document.rows.len() == self.document@.len());
        let min_y = self.display_height / 2;
        let min_x: usize = 0;
        let max_y = self.file_rows - self.display_height / 2;
        let max_x = self.file_cols;
        match key {
            Key::Up => {
                self.display_y = self.display_y.saturating_sub(1);
                if self.display_y == 0 {
                    self.cursor_y = self.cursor_y.saturating_sub(1);
                }
                assert(self@ == lifted(old(self)@));
                let curr_row_len = self.document.row(self.display_y + self.cursor_y).unwrap().str_len();
                let left_y = self.cursor_y.saturating_add(1);
                self.arrive(curr_row_len, left_y);
                assert(self@.previous_positions =~= move_up(old(self)@).previous_positions);
            },
            Key::Down => {
                if self.display_y == max_y - 1 {
                    return ;
                }
                if self.display_y < max_y && self.cursor_y == min_y {
                    self.display_y = self.display_y.saturating_add(1);
                }
                if self.display_y == 0 {
                    self.cursor_y = self.cursor_y.saturating_add(1);
                }
                assert(self@ == lowered(old(self)@));
                let curr_row_len = self.document.row(self.display_y + self.cursor_y).unwrap().str_len();
                let left_y = self.cursor_y.saturating_sub(1);
                self.arrive(curr_row_len, left_y);
                assert(self@.previous_positions =~= move_down(old(self)@).previous_positions);
            },
            Key::Left => {
                if self.cursor_x > min_x {
                    self.cursor_x = self.cursor_x.saturating_sub(1);
                }
                if self.cursor_x == min_x && self.display_x > 0 {
                    self.display_x = self.display_x.saturating_sub(1);
                }
                self.previous_positions = VecDeque::new();
            },
            Key::Right => {
                if self.cursor_x == self.document.row(
                    self.display_y + self.cursor_y,
                ).unwrap().str_len() {
                    return ;
                }
                if self.cursor_x < self.display_width {
                    self.cursor_x = self.cursor_x.saturating_add(1);
                }
                if self.cursor_x == self.display_width && self.display_x < max_x {
                    self.display_x = self.display_x.saturating_add(1);
                }
                self.previous_positions = VecDeque::new();
            },
            Key::Home => {
                self.cursor_x = 0;
                self.display_x = 0;
                self.previous_positions = VecDeque::new();
            },
            Key::End => {
                self.cursor_x = self.document.row(self.display_y + self.cursor_y).unwrap().str_len();
                self.display_x = self.cursor_x.saturating_sub(self.display_width);
                self.previous_positions = VecDeque::new();
            },
            _ => (),
        }
    }

    /// Whether a character key can be typed where the keys act.
    fn accepts_text(&self, key: Key) -> (ok: bool)
        ensures
            ok == can_insert_text(self@, key),
    {
        match key {
            Key::Char(_) => match self.mode {
                Mode::Edit => match self.cursor_row() {
                    Some(row) => self.cursor_x <= self.document.rows[row].str_len(),
                    None => false,
                },
                Mode::Command => self.cursor_x <= self.status_text.str_len(),
            },
            _ => true,
        }
    }

    /// Whether Backspace can be pressed where the keys act.
    fn accepts_backspace(&self) -> (ok: bool)
        ensures
            ok == can_backspace(self@),
    {
        match self.mode {
            Mode::Edit => match self.cursor_row() {
                Some(row) => {
                    if self.cursor_x > 0 {
                        let len = self.document.rows[row].str_len();
                        match self.display_x.checked_add(self.cursor_x) {
                            Some(column) => column - 1 < len,
                            None => false,
                        }
                    } else {
                        true
                    }
                },
                None => false,
            },
            Mode::Command => self.cursor_x == 0 || self.cursor_x < self.status_text.str_len(),
        }
    }

    /// Whether Delete can be pressed where the keys act.
    fn accepts_delete(&self) -> (ok: bool)
        ensures
            ok == can_delete(self@),
    {
        match self.mode {
            Mode::Edit => match self.cursor_row() {
                Some(row) => {
                    let len = self.document.rows[row].str_len();
                    if self.cursor_x < len {
                        match self.display_x.checked_add(self.cursor_x) {
                            Some(column) => column < len,
                            None => false,
                        }
                    } else if self.cursor_x == len {
                        self.file_rows == self.document.rows()
                    } else {
                        true
                    }
                },
                None => false,
            },
            Mode::Command => self.cursor_x < self.status_text.str_len(),
        }
    }

    /// Whether the cursor, at screen row `cursor_y` of a screen that starts
    /// at row `display_y`, can come to its row, where it keeps `cursor_y`
    /// with a column that it cannot hold unless `cursor_y` is `barred`.
    fn accepts_arrival(&self, display_y: usize, cursor_y: usize, barred: usize) -> (ok: bool)
        ensures
            ok == ({
                let t = EditorView { display_y, cursor_y, ..self@ };
                &&& on_a_row(t)
                &&& recalled_x(t, row_chars(t, cursor_row(t)) as usize) > row_chars(
                    t,
                    cursor_row(t),
                ) ==> cursor_y != barred
            }),
    {
        assert(self.document.rows.len() == self.document@.len());
        match display_y.checked_add(cursor_y) {
            Some(row) => {
                if row < self.document.rows() {
                    let len = self.document.rows[row].str_len();
                    let count = self.previous_positions.len();
                    let recalled = if self.cursor_x <= len && count > 0 {
                        self.previous_positions[count - 1].0
                    } else {
                        self.cursor_x
                    };
                    recalled <= len || cursor_y != barred
                } else {
                    false
                }
            },
            None => false,
        }
    }

    /// Whether an arrow key, Home or End can be given to the cursor where
    /// the keys act.
    fn accepts_move(&self, key: Key) -> (ok: bool)
        ensures
            ok == can_move_cursor(self@, key),
    {
        match self.mode {
            Mode::Edit => {
                if self.file_rows < self.display_height / 2 {
                    return false;
                }
                let max_y = self.file_rows - self.display_height / 2;
                match key {
                    Key::Up => {
                        let display_y = self.display_y.saturating_sub(1);
                        let cursor_y = if display_y == 0 {
                            self.cursor_y.saturating_sub(1)
                        } else {
                            self.cursor_y
                        };
                        assert(EditorView { display_y, cursor_y, ..self@ } == lifted(self@));
                        self.accepts_arrival(display_y, cursor_y, usize::MAX)
                    },
                    Key::Down => {
                        if max_y < 1 {
                            false
                        } else if self.display_y == max_y - 1 {
                            true
                        } else {
                            let display_y = if self.display_y < max_y && self.cursor_y
                                == self.display_height / 2 {
                                self.display_y.saturating_add(1)
                            } else {
                                self.display_y
                            };
                            let cursor_y = if display_y == 0 {
                                self.cursor_y.saturating_add(1)
                            } else {
                                self.cursor_y
                            };
                            assert(EditorView { display_y, cursor_y, ..self@ } == lowered(self@));
                            self.accepts_arrival(display_y, cursor_y, 0)
                        }
                    },
                    Key::Right | Key::End => self.cursor_row().is_some(),
                    _ => true,
                }
            },
            Mode::Command => true,
        }
    }

    /// Whether `key` can be pressed in this state, that is whether
    /// `process_keys` may be called with it.
    pub fn accepts(&self, key: Key) -> (ok: bool)
        ensures
            ok == can_process_keys(self@, key),
    {
        match key {
            Key::Up | Key::Down | Key::Left | Key::Right | Key::Home | Key::End => {
                self.accepts_move(key)
            },
            Key::Backspace => self.accepts_backspace(),
            Key::Delete => self.accepts_delete(),
            Key::Char(c) => {
                if c == '\n' {
                    match self.mode {
                        Mode::Edit => self.display_y.checked_add(self.cursor_y).is_some(),
                        Mode::Command => true,
                    }
                } else {
                    self.accepts_text(key)
                }
            },
            _ => true,
        }
    }

    /// Takes a key press if it can be taken in this state, and says what it
    /// asks for; else leaves the state as it is and returns `None`.
    pub fn try_process_keys(&mut self, key: Key) -> (request: Option<Request>)
        ensures
            request is Some <==> can_process_keys(old(self)@, key),
            request is Some ==> final(self)@ == process_keys(old(self)@, key) && request->0
                == request_of(key),
            request is None ==> final(self)@ == old(self)@,
    {
        if self.accepts(key) {
            Some(self.process_keys(key))
        } else {
            None
        }
    }

    /// Takes a key press: keeps the key as the last key pressed and does
    /// what the key stands for. What the editor cannot do by itself comes
    /// back as a request.
    pub fn process_keys(&mut self, key: Key) -> (request: Request)
        requires
            can_process_keys(old(self)@, key),
        ensures
            final(self)@ == process_keys(old(self)@, key),
            request == request_of(key),
    {
        self.key_pressed = Some(key);
        match key {
            Key::Esc => {
                self.escape();
            },
            Key::Ctrl(c) => {
                if c == 'q' {
                    self.exit = true;
                } else if c == 's' {
                    return Request::Save;
                }
            },
            Key::Up | Key::Down | Key::Left | Key::Right | Key::Home | Key::End => {
                self.move_cursor(key);
            },
            Key::Backspace => {
                self.backspace();
            },
            Key::Delete => {
                self.delete();
            },
            Key::Char(c) => {
                if c == '\n' {
                    self.enter();
                } else {
                    self.insert_text(key);
                }
            },
            _ => (),
        }
        Request::Nothing
    }
}

} // verus!
