use gap_editor::document::Document;
use gap_editor::editor::Editor;
use gap_editor::gap_buffer::GapBuffer;
use gap_editor::keys::{Key, Mode, Request};

fn editor_on(content: &str) -> Editor {
    Editor::new(
        Document::from_text("notes.txt", content),
        Document::from_text("side.txt", "one\ntwo"),
        10,
        40,
    )
}

/// An editor for a screen of one row whose cursor stands on row `row`,
/// column `col` of `content`, with the screen at the start of the document.
fn editor_at(content: &str, row: usize, col: usize) -> Editor {
    let mut editor = Editor::new(
        Document::from_text("notes.txt", content),
        Document::from_text("side.txt", "one\ntwo"),
        1,
        40,
    );
    editor.cursor_y = row;
    editor.cursor_x = col;
    editor
}

fn lines(editor: &Editor) -> Vec<String> {
    (0..editor.document.rows()).map(|i| editor.document.row(i).unwrap().to_string()).collect()
}

fn twenty_rows() -> String {
    (0..20).map(|i| format!("row {i}")).collect::<Vec<_>>().join("\n")
}

#[test]
fn new_editor_starts_in_the_middle_of_the_screen() {
    let editor = editor_on("abc\nde\nfghij");
    assert_eq!(editor.cursor_x, 0);
    assert_eq!(editor.cursor_y, 5);
    assert_eq!(editor.display_x, 0);
    assert_eq!(editor.display_y, 0);
    assert_eq!(editor.display_height, 10);
    assert_eq!(editor.display_width, 40);
    assert_eq!(editor.file_rows, 3);
    assert_eq!(editor.file_cols, 5);
    assert_eq!(editor.mode, Mode::Edit);
    assert!(!editor.exit);
    assert_eq!(editor.key_pressed, Some(Key::Null));
    assert!(editor.previous_positions.is_empty());
    assert_eq!(editor.status_text.to_string(), "");
    assert_eq!(editor.sidebar.rows(), 2);
}

#[test]
fn cursor_row_is_screen_start_plus_screen_row() {
    let mut editor = editor_on(&twenty_rows());
    assert_eq!(editor.cursor_row(), Some(5));
    editor.display_y = 12;
    assert_eq!(editor.cursor_row(), Some(17));
    editor.display_y = 15;
    assert_eq!(editor.cursor_row(), None);
    editor.display_y = usize::MAX;
    assert_eq!(editor.cursor_row(), None);
}

#[test]
fn escape_switches_between_document_and_status_line() {
    let mut editor = editor_at("abc", 0, 2);
    editor.escape();
    assert_eq!(editor.mode, Mode::Command);
    assert_eq!(editor.cursor_x, 0);
    editor.cursor_x = 3;
    editor.escape();
    assert_eq!(editor.mode, Mode::Edit);
    assert_eq!(editor.cursor_x, 3);
}

#[test]
fn typing_puts_characters_at_the_cursor() {
    let mut editor = editor_at("ac\nxyz", 0, 1);
    editor.insert_text(Key::Char('b'));
    assert_eq!(lines(&editor), vec!["abc", "xyz"]);
    assert_eq!(editor.cursor_x, 2);
    editor.insert_text(Key::Char('!'));
    assert_eq!(lines(&editor), vec!["ab!c", "xyz"]);
    assert_eq!(editor.cursor_x, 3);
}

#[test]
fn typing_counts_columns_in_characters() {
    let mut editor = editor_at("日本", 0, 1);
    editor.insert_text(Key::Char('の'));
    assert_eq!(lines(&editor), vec!["日の本"]);
    assert_eq!(editor.cursor_x, 2);
    editor.insert_text(Key::Char('x'));
    assert_eq!(lines(&editor), vec!["日のx本"]);
    editor.cursor_x = 4;
    editor.insert_text(Key::Char('é'));
    assert_eq!(lines(&editor), vec!["日のx本é"]);
    assert_eq!(editor.cursor_x, 5);
}

#[test]
fn typing_other_keys_changes_nothing() {
    let mut editor = editor_at("abc", 0, 1);
    editor.insert_text(Key::Up);
    editor.insert_text(Key::Ctrl('x'));
    editor.insert_text(Key::Other);
    assert_eq!(lines(&editor), vec!["abc"]);
    assert_eq!(editor.cursor_x, 1);
}

#[test]
fn typing_in_the_status_line() {
    let mut editor = editor_at("abc", 0, 0);
    editor.escape();
    editor.insert_text(Key::Char('w'));
    editor.insert_text(Key::Char('q'));
    assert_eq!(editor.status_text.to_string(), "wq");
    assert_eq!(editor.cursor_x, 2);
    assert_eq!(lines(&editor), vec!["abc"]);
}

#[test]
fn backspace_removes_the_character_in_front_of_the_cursor() {
    let mut editor = editor_at("abcd", 0, 2);
    editor.backspace();
    assert_eq!(lines(&editor), vec!["acd"]);
    assert_eq!(editor.cursor_x, 1);
    editor.backspace();
    assert_eq!(lines(&editor), vec!["cd"]);
    assert_eq!(editor.cursor_x, 0);
}

#[test]
fn backspace_removes_a_whole_character() {
    let mut editor = editor_at("a日b", 0, 2);
    editor.backspace();
    assert_eq!(lines(&editor), vec!["ab"]);
    assert_eq!(editor.document.row(0).unwrap().to_bytes(), b"ab".to_vec());
    assert_eq!(editor.cursor_x, 1);
}

#[test]
fn backspace_with_the_screen_moved_right_moves_the_screen() {
    let mut editor = editor_at("abcdef", 0, 2);
    editor.display_x = 3;
    editor.backspace();
    assert_eq!(lines(&editor), vec!["abcdf"]);
    assert_eq!(editor.cursor_x, 2);
    assert_eq!(editor.display_x, 2);
}

#[test]
fn backspace_at_the_start_of_a_row_joins_it_to_the_row_in_front() {
    let mut editor = editor_at("abc\nde\nf", 1, 0);
    editor.backspace();
    assert_eq!(lines(&editor), vec!["abcde", "f"]);
    assert_eq!(editor.cursor_x, 3);
    assert_eq!(editor.cursor_y, 0);
    assert_eq!(editor.display_y, 0);
    assert_eq!(editor.file_rows, 2);
    assert_eq!(editor.file_cols, 5);
}

#[test]
fn backspace_at_the_start_of_a_row_moves_the_screen_if_it_can() {
    let mut editor = editor_at(&twenty_rows(), 2, 0);
    editor.display_y = 3;
    editor.backspace();
    assert_eq!(editor.document.rows(), 19);
    assert_eq!(editor.document.row(4).unwrap().to_string(), "row 4row 5");
    assert_eq!(editor.cursor_x, 5);
    assert_eq!(editor.cursor_y, 2);
    assert_eq!(editor.display_y, 2);
    assert_eq!(editor.file_rows, 19);
    assert_eq!(editor.file_cols, 10);
}

#[test]
fn backspace_at_the_start_of_the_document_changes_nothing() {
    let mut editor = editor_at("abc\nde", 0, 0);
    editor.backspace();
    assert_eq!(lines(&editor), vec!["abc", "de"]);
    assert_eq!(editor.cursor_x, 0);
    assert_eq!(editor.cursor_y, 0);
}

#[test]
fn backspace_in_the_status_line() {
    let mut editor = editor_at("abc", 0, 0);
    editor.mode = Mode::Command;
    editor.status_text = GapBuffer::from_str("write");
    editor.backspace();
    assert_eq!(editor.status_text.to_string(), "write");
    editor.cursor_x = 2;
    editor.backspace();
    assert_eq!(editor.status_text.to_string(), "wrte");
    assert_eq!(editor.cursor_x, 1);
}

#[test]
fn delete_removes_the_character_under_the_cursor() {
    let mut editor = editor_at("abcd", 0, 1);
    editor.delete();
    assert_eq!(lines(&editor), vec!["acd"]);
    assert_eq!(editor.cursor_x, 1);
    let mut editor = editor_at("a日b", 0, 1);
    editor.delete();
    assert_eq!(lines(&editor), vec!["ab"]);
}

#[test]
fn delete_at_the_end_of_a_row_joins_the_row_behind() {
    let mut editor = editor_at("abc\nde\nf", 0, 3);
    editor.delete();
    assert_eq!(lines(&editor), vec!["abcde", "f"]);
    assert_eq!(editor.cursor_x, 3);
    assert_eq!(editor.file_rows, 2);
    assert_eq!(editor.file_cols, 5);
}

#[test]
fn delete_at_the_end_of_the_document_changes_nothing() {
    let mut editor = editor_at("abc\nde", 1, 2);
    editor.delete();
    assert_eq!(lines(&editor), vec!["abc", "de"]);
    assert_eq!(editor.file_rows, 2);
}

#[test]
fn delete_in_the_status_line() {
    let mut editor = editor_at("abc", 0, 0);
    editor.mode = Mode::Command;
    editor.status_text = GapBuffer::from_str("write");
    editor.cursor_x = 4;
    editor.delete();
    assert_eq!(editor.status_text.to_string(), "writ");
    assert_eq!(editor.cursor_x, 4);
}

#[test]
fn enter_breaks_the_row_at_the_cursor() {
    let mut editor = editor_at("hello world\nnext", 0, 5);
    editor.enter();
    assert_eq!(lines(&editor), vec!["hello", " world", "next"]);
    assert_eq!(editor.cursor_x, 0);
    assert_eq!(editor.display_y, 1);
    assert_eq!(editor.cursor_y, 0);
    assert_eq!(editor.file_rows, 3);
    assert_eq!(editor.file_cols, 6);
}

#[test]
fn enter_counts_the_cursor_column_in_characters() {
    let mut editor = editor_at("héllo wörld", 0, 2);
    editor.enter();
    assert_eq!(lines(&editor), vec!["hé", "llo wörld"]);
    assert_eq!(editor.document.row(0).unwrap().to_bytes(), "hé".as_bytes().to_vec());
    let mut editor = editor_at("日本語", 0, 3);
    editor.enter();
    assert_eq!(lines(&editor), vec!["日本語", ""]);
    let mut editor = editor_at("日本語", 0, 7);
    editor.enter();
    assert_eq!(lines(&editor), vec!["日本語", ""]);
    assert_eq!(editor.file_rows, 2);
}

#[test]
fn enter_off_the_document_only_moves_the_screen() {
    let mut editor = editor_on("abc");
    editor.cursor_x = 2;
    editor.enter();
    assert_eq!(lines(&editor), vec!["abc"]);
    assert_eq!(editor.cursor_x, 0);
    assert_eq!(editor.display_y, 1);
}

#[test]
fn enter_in_the_status_line_says_what_was_executed() {
    let mut editor = editor_at("abc", 0, 0);
    editor.mode = Mode::Command;
    editor.status_text = GapBuffer::from_str("save all");
    editor.cursor_x = 4;
    editor.enter();
    assert_eq!(editor.status_text.to_string(), "Executed save all");
    assert_eq!(editor.cursor_x, 0);
    assert_eq!(editor.mode, Mode::Command);
}

#[test]
fn left_moves_the_cursor_then_the_screen() {
    let mut editor = editor_at("abcdef", 0, 2);
    editor.display_x = 2;
    editor.previous_positions.push_back((7, 1));
    editor.move_cursor(Key::Left);
    assert_eq!((editor.cursor_x, editor.display_x), (1, 2));
    assert!(editor.previous_positions.is_empty());
    editor.move_cursor(Key::Left);
    assert_eq!((editor.cursor_x, editor.display_x), (0, 1));
    editor.move_cursor(Key::Left);
    assert_eq!((editor.cursor_x, editor.display_x), (0, 0));
    editor.move_cursor(Key::Left);
    assert_eq!((editor.cursor_x, editor.display_x), (0, 0));
}

#[test]
fn right_moves_the_cursor_up_to_the_end_of_the_row() {
    let mut editor = editor_at("abc", 0, 1);
    editor.move_cursor(Key::Right);
    assert_eq!(editor.cursor_x, 2);
    editor.move_cursor(Key::Right);
    assert_eq!(editor.cursor_x, 3);
    editor.previous_positions.push_back((9, 9));
    editor.move_cursor(Key::Right);
    assert_eq!(editor.cursor_x, 3);
    assert_eq!(editor.previous_positions.len(), 1);
}

#[test]
fn right_at_the_edge_of_the_display_moves_the_screen() {
    let mut editor = editor_at("abcdefghij", 0, 3);
    editor.display_width = 4;
    editor.move_cursor(Key::Right);
    assert_eq!((editor.cursor_x, editor.display_x), (4, 1));
    editor.move_cursor(Key::Right);
    assert_eq!((editor.cursor_x, editor.display_x), (4, 2));
    editor.display_x = 10;
    editor.move_cursor(Key::Right);
    assert_eq!((editor.cursor_x, editor.display_x), (4, 10));
}

#[test]
fn home_and_end() {
    let mut editor = editor_at("abcdef", 0, 3);
    editor.display_x = 2;
    editor.move_cursor(Key::Home);
    assert_eq!((editor.cursor_x, editor.display_x), (0, 0));
    editor.move_cursor(Key::End);
    assert_eq!((editor.cursor_x, editor.display_x), (6, 0));
    editor.display_width = 4;
    editor.move_cursor(Key::End);
    assert_eq!((editor.cursor_x, editor.display_x), (6, 2));
}

#[test]
fn up_at_the_start_of_the_document_moves_the_cursor() {
    let mut editor = editor_on(&twenty_rows());
    editor.move_cursor(Key::Up);
    assert_eq!((editor.display_y, editor.cursor_y), (0, 4));
    editor.move_cursor(Key::Up);
    assert_eq!((editor.display_y, editor.cursor_y), (0, 3));
}

#[test]
fn up_further_down_moves_the_screen() {
    let mut editor = editor_on(&twenty_rows());
    editor.display_y = 4;
    editor.move_cursor(Key::Up);
    assert_eq!((editor.display_y, editor.cursor_y), (3, 5));
    editor.display_y = 1;
    editor.move_cursor(Key::Up);
    assert_eq!((editor.display_y, editor.cursor_y), (0, 4));
}

#[test]
fn down_moves_the_screen_while_the_cursor_is_in_the_middle() {
    let mut editor = editor_on(&twenty_rows());
    editor.move_cursor(Key::Down);
    assert_eq!((editor.display_y, editor.cursor_y), (1, 5));
    editor.move_cursor(Key::Down);
    assert_eq!((editor.display_y, editor.cursor_y), (2, 5));
}

#[test]
fn down_above_the_middle_moves_the_cursor() {
    let mut editor = editor_on(&twenty_rows());
    editor.cursor_y = 2;
    editor.move_cursor(Key::Down);
    assert_eq!((editor.display_y, editor.cursor_y), (0, 3));
}

#[test]
fn down_stops_at_the_last_screen_start() {
    let mut editor = editor_on(&twenty_rows());
    editor.display_y = 14;
    editor.previous_positions.push_back((3, 3));
    editor.move_cursor(Key::Down);
    assert_eq!((editor.display_y, editor.cursor_y), (14, 5));
    assert_eq!(editor.previous_positions.len(), 1);
}

#[test]
fn a_shorter_row_holds_the_cursor_back_and_a_longer_one_lets_it_return() {
    let content = "0123456789abc\nxy\n0123456789abc\n\n\n\n\n\n\n\n\n\n";
    let mut editor = editor_on(content);
    editor.cursor_y = 2;
    editor.cursor_x = 10;
    editor.move_cursor(Key::Up);
    assert_eq!((editor.cursor_y, editor.cursor_x), (1, 2));
    assert_eq!(editor.previous_positions.back(), Some(&(10, 2)));
    editor.move_cursor(Key::Up);
    assert_eq!((editor.cursor_y, editor.cursor_x), (0, 10));
    assert!(editor.previous_positions.is_empty());
    editor.move_cursor(Key::Down);
    assert_eq!((editor.cursor_y, editor.cursor_x), (1, 2));
    assert_eq!(editor.previous_positions.back(), Some(&(10, 0)));
    editor.move_cursor(Key::Down);
    assert_eq!((editor.cursor_y, editor.cursor_x), (2, 10));
    assert!(editor.previous_positions.is_empty());
}

#[test]
fn no_key_moves_the_cursor_in_the_status_line() {
    let mut editor = editor_at("abc", 0, 1);
    editor.mode = Mode::Command;
    for key in [Key::Up, Key::Down, Key::Left, Key::Right, Key::Home, Key::End] {
        editor.move_cursor(key);
        editor.move_cursor_command(key);
    }
    assert_eq!((editor.cursor_x, editor.cursor_y), (1, 0));
    assert_eq!((editor.display_x, editor.display_y), (0, 0));
}

#[test]
fn move_cursor_edit_ignores_other_keys() {
    let mut editor = editor_at("abc", 0, 1);
    editor.previous_positions.push_back((4, 4));
    editor.move_cursor_edit(Key::Char('x'));
    editor.move_cursor_edit(Key::Esc);
    assert_eq!((editor.cursor_x, editor.cursor_y), (1, 0));
    assert_eq!(editor.previous_positions.len(), 1);
}

#[test]
fn process_key_keeps_the_key_and_does_what_it_stands_for() {
    let mut editor = editor_at("ab\ncd", 0, 1);
    assert_eq!(editor.process_keys(Key::Char('x')), Request::Nothing);
    assert_eq!(editor.key_pressed, Some(Key::Char('x')));
    assert_eq!(lines(&editor), vec!["axb", "cd"]);
    assert_eq!(editor.process_keys(Key::Backspace), Request::Nothing);
    assert_eq!(lines(&editor), vec!["ab", "cd"]);
    assert_eq!(editor.process_keys(Key::Delete), Request::Nothing);
    assert_eq!(lines(&editor), vec!["a", "cd"]);
    assert_eq!(editor.process_keys(Key::Home), Request::Nothing);
    assert_eq!(editor.cursor_x, 0);
    assert_eq!(editor.process_keys(Key::End), Request::Nothing);
    assert_eq!(editor.cursor_x, 1);
    assert_eq!(editor.process_keys(Key::Left), Request::Nothing);
    assert_eq!(editor.cursor_x, 0);
    assert_eq!(editor.process_keys(Key::Right), Request::Nothing);
    assert_eq!(editor.cursor_x, 1);
    assert_eq!(editor.process_keys(Key::Char('\n')), Request::Nothing);
    assert_eq!(lines(&editor), vec!["a", "", "cd"]);
    assert_eq!(editor.key_pressed, Some(Key::Char('\n')));
    assert_eq!(editor.process_keys(Key::Esc), Request::Nothing);
    assert_eq!(editor.mode, Mode::Command);
    assert_eq!(editor.process_keys(Key::Other), Request::Nothing);
    assert_eq!(editor.process_keys(Key::Null), Request::Nothing);
    assert_eq!(editor.key_pressed, Some(Key::Null));
    assert!(!editor.exit);
}

#[test]
fn ctrl_q_asks_to_leave_and_ctrl_s_to_save() {
    let mut editor = editor_at("ab", 0, 1);
    assert_eq!(editor.process_keys(Key::Ctrl('s')), Request::Save);
    assert!(!editor.exit);
    assert_eq!(editor.key_pressed, Some(Key::Ctrl('s')));
    assert_eq!(editor.process_keys(Key::Ctrl('x')), Request::Nothing);
    assert!(!editor.exit);
    assert_eq!(editor.process_keys(Key::Ctrl('q')), Request::Nothing);
    assert!(editor.exit);
    assert_eq!(lines(&editor), vec!["ab"]);
}

#[test]
fn typing_a_word_and_taking_it_back() {
    let mut editor = editor_at("say: !", 0, 5);
    for c in "héllo".chars() {
        assert!(editor.accepts(Key::Char(c)));
        editor.process_keys(Key::Char(c));
    }
    assert_eq!(lines(&editor), vec!["say: héllo!"]);
    assert_eq!(editor.cursor_x, 10);
    for _ in 0..5 {
        assert!(editor.accepts(Key::Backspace));
        editor.process_keys(Key::Backspace);
    }
    assert_eq!(lines(&editor), vec!["say: !"]);
    assert_eq!(editor.cursor_x, 5);
}

#[test]
fn enter_then_backspace_restores_the_document() {
    let mut editor = editor_at("abc\ndefgh\nij", 1, 2);
    editor.process_keys(Key::Char('\n'));
    assert_eq!(lines(&editor), vec!["abc", "de", "fgh", "ij"]);
    assert_eq!((editor.display_y, editor.cursor_y, editor.cursor_x), (1, 1, 0));
    editor.process_keys(Key::Backspace);
    assert_eq!(lines(&editor), vec!["abc", "defgh", "ij"]);
    assert_eq!((editor.display_y, editor.cursor_y, editor.cursor_x), (0, 1, 2));
    assert_eq!(editor.file_rows, 3);
}

#[test]
fn accepts_says_which_keys_can_be_pressed() {
    let editor = editor_at("abc\nde", 0, 1);
    for key in [
        Key::Char('x'),
        Key::Char('\n'),
        Key::Backspace,
        Key::Delete,
        Key::Left,
        Key::Right,
        Key::Home,
        Key::End,
        Key::Esc,
        Key::Ctrl('q'),
        Key::Ctrl('s'),
        Key::Null,
        Key::Other,
    ] {
        assert!(editor.accepts(key), "{key:?}");
    }
}

#[test]
fn accepts_refuses_keys_off_the_document() {
    let editor = editor_on("abc\nde");
    assert_eq!(editor.cursor_row(), None);
    assert!(!editor.accepts(Key::Char('x')));
    assert!(!editor.accepts(Key::Backspace));
    assert!(!editor.accepts(Key::Delete));
    assert!(!editor.accepts(Key::Right));
    assert!(!editor.accepts(Key::End));
    assert!(!editor.accepts(Key::Up));
    assert!(!editor.accepts(Key::Down));
    assert!(!editor.accepts(Key::Left));
    assert!(editor.accepts(Key::Char('\n')));
    assert!(editor.accepts(Key::Esc));
    assert!(editor.accepts(Key::Ctrl('q')));
}

#[test]
fn accepts_refuses_columns_without_a_character() {
    let mut editor = editor_at("abc", 0, 4);
    editor.display_height = 0;
    assert!(!editor.accepts(Key::Char('x')));
    assert!(!editor.accepts(Key::Backspace));
    assert!(editor.accepts(Key::Delete));
    editor.cursor_x = 3;
    assert!(editor.accepts(Key::Char('x')));
    assert!(editor.accepts(Key::Backspace));
    editor.display_x = 1;
    assert!(!editor.accepts(Key::Backspace));
    editor.cursor_x = 2;
    assert!(!editor.accepts(Key::Delete));
    editor.display_x = usize::MAX;
    assert!(!editor.accepts(Key::Backspace));
    assert!(!editor.accepts(Key::Delete));
}

#[test]
fn accepts_refuses_a_row_count_that_is_not_the_documents() {
    let mut editor = editor_at("abc\nde", 0, 3);
    assert!(editor.accepts(Key::Delete));
    editor.file_rows = 5;
    assert!(!editor.accepts(Key::Delete));
    editor.cursor_x = 1;
    assert!(editor.accepts(Key::Delete));
}

#[test]
fn accepts_in_the_status_line() {
    let mut editor = editor_on("abc");
    editor.mode = Mode::Command;
    editor.cursor_x = 0;
    assert!(editor.accepts(Key::Char('x')));
    assert!(editor.accepts(Key::Backspace));
    assert!(!editor.accepts(Key::Delete));
    assert!(editor.accepts(Key::Up));
    assert!(editor.accepts(Key::Char('\n')));
    editor.status_text = GapBuffer::from_str("ab");
    editor.cursor_x = 2;
    assert!(editor.accepts(Key::Char('x')));
    assert!(!editor.accepts(Key::Backspace));
    assert!(!editor.accepts(Key::Delete));
    editor.cursor_x = 1;
    assert!(editor.accepts(Key::Backspace));
    assert!(editor.accepts(Key::Delete));
    editor.cursor_x = 3;
    assert!(!editor.accepts(Key::Char('x')));
}

#[test]
fn accepts_up_and_down_where_the_cursor_comes_to_a_row() {
    let mut editor = editor_on(&twenty_rows());
    assert!(editor.accepts(Key::Up));
    assert!(editor.accepts(Key::Down));
    editor.display_y = 14;
    assert!(editor.accepts(Key::Down));
    editor.display_y = 20;
    assert!(!editor.accepts(Key::Up));
    editor.cursor_y = 0;
    editor.display_y = 0;
    editor.file_rows = 4;
    assert!(!editor.accepts(Key::Up));
    assert!(!editor.accepts(Key::Home));
    editor.file_rows = 5;
    assert!(editor.accepts(Key::Up));
    assert!(!editor.accepts(Key::Down));
    editor.file_rows = 6;
    assert!(editor.accepts(Key::Down));
}

#[test]
fn try_process_key_takes_the_keys_that_can_be_pressed() {
    let mut editor = editor_at("ab", 0, 1);
    assert_eq!(editor.try_process_keys(Key::Char('x')), Some(Request::Nothing));
    assert_eq!(lines(&editor), vec!["axb"]);
    assert_eq!(editor.try_process_keys(Key::Ctrl('s')), Some(Request::Save));
    assert_eq!(editor.try_process_keys(Key::Ctrl('q')), Some(Request::Nothing));
    assert!(editor.exit);
}

#[test]
fn try_process_key_leaves_the_state_where_the_key_cannot_be_pressed() {
    let mut editor = editor_on("ab\ncd");
    editor.cursor_x = 1;
    for key in [Key::Char('x'), Key::Backspace, Key::Delete, Key::Up, Key::Down, Key::End] {
        assert_eq!(editor.try_process_keys(key), None);
        assert_eq!(lines(&editor), vec!["ab", "cd"]);
        assert_eq!(editor.key_pressed, Some(Key::Null));
        assert_eq!((editor.cursor_x, editor.cursor_y), (1, 5));
        assert_eq!((editor.display_x, editor.display_y), (0, 0));
    }
}
