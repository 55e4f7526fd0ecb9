use gap_editor::document::{file_type_of, Document};

fn lines(doc: &Document) -> Vec<String> {
    (0..doc.rows()).map(|i| doc.row(i).unwrap().to_string()).collect()
}

#[test]
fn from_text_splits_at_line_feeds() {
    let doc = Document::from_text("notes.txt", "abc\n\nde");
    assert_eq!(lines(&doc), vec!["abc", "", "de"]);
    assert_eq!(doc.rows(), 3);
    assert_eq!(doc.file_path, "notes.txt");
    assert_eq!(doc.file_type, "txt");
}

#[test]
fn from_text_of_nothing_is_one_empty_line() {
    let doc = Document::from_text("empty", "");
    assert_eq!(lines(&doc), vec![""]);
}

#[test]
fn from_text_keeps_a_last_empty_line() {
    let doc = Document::from_text("a.txt", "one\ntwo\n");
    assert_eq!(lines(&doc), vec!["one", "two", ""]);
    let doc = Document::from_text("a.txt", "\n");
    assert_eq!(lines(&doc), vec!["", ""]);
    let doc = Document::from_text("a.txt", "\n\n\n");
    assert_eq!(lines(&doc), vec!["", "", "", ""]);
}

#[test]
fn from_text_keeps_carriage_returns() {
    let doc = Document::from_text("dos.txt", "one\r\ntwo\r\n");
    assert_eq!(lines(&doc), vec!["one\r", "two\r", ""]);
    assert_eq!(doc.text(), "one\r\ntwo\r\n");
}

#[test]
fn text_joins_with_line_feeds() {
    let doc = Document::from_text("a.txt", "abc\n\nde");
    assert_eq!(doc.text(), "abc\n\nde");
}

#[test]
fn text_after_from_text_is_the_same_text() {
    for content in [
        "",
        "x",
        "\n",
        "a\n",
        "\na",
        "a\nb",
        "a\nb\n",
        "a\n\n\nb\n\n",
        "héllo\nwörld\n日本語\n",
        "tabs\tand\rreturns\r\n",
        "😀\n😀",
    ] {
        assert_eq!(Document::from_text("f", content).text(), content);
    }
}

#[test]
fn text_of_a_document_without_lines_is_empty() {
    let mut doc = Document::from_text("f", "only");
    doc.rows.remove(0);
    assert_eq!(doc.rows(), 0);
    assert_eq!(doc.text(), "");
    assert_eq!(doc.cols(), 0);
}

#[test]
fn file_type_is_what_stands_behind_the_last_dot() {
    assert_eq!(file_type_of("main.rs"), "rs");
    assert_eq!(file_type_of("src/editor/editor.rs"), "rs");
    assert_eq!(file_type_of("archive.tar.gz"), "gz");
    assert_eq!(file_type_of("Makefile"), "Makefile");
    assert_eq!(file_type_of("trailing."), "");
    assert_eq!(file_type_of(".hidden"), "hidden");
    assert_eq!(file_type_of(""), "");
    assert_eq!(file_type_of("."), "");
    assert_eq!(file_type_of("résumé.döc"), "döc");
    assert_eq!(file_type_of("日本.語"), "語");
}

#[test]
fn split_line_then_merge_with_previous() {
    let mut doc = Document::from_text("f.txt", "abc\n\nde");
    doc.split_line(0, 1);
    assert_eq!(lines(&doc), vec!["a", "bc", "", "de"]);
    doc.merge_with_previous(1);
    assert_eq!(lines(&doc), vec!["abc", "", "de"]);
}

#[test]
fn split_line_then_merge_with_next_restores_the_line() {
    let content = "first\nthe line to split\nlast";
    for offset in 0..="the line to split".len() {
        let mut doc = Document::from_text("f.txt", content);
        doc.split_line(1, offset);
        assert_eq!(doc.rows(), 4);
        assert_eq!(doc.row(1).unwrap().to_string(), "the line to split"[..offset]);
        assert_eq!(doc.row(2).unwrap().to_string(), "the line to split"[offset..]);
        doc.merge_with_next(1);
        assert_eq!(lines(&doc), vec!["first", "the line to split", "last"]);
        assert_eq!(doc.text(), content);
    }
}

#[test]
fn split_line_at_both_ends() {
    let mut doc = Document::from_text("f", "abc");
    doc.split_line(0, 0);
    assert_eq!(lines(&doc), vec!["", "abc"]);
    doc.split_line(1, 3);
    assert_eq!(lines(&doc), vec!["", "abc", ""]);
    assert_eq!(doc.text(), "\nabc\n");
}

#[test]
fn split_line_counts_bytes() {
    let mut doc = Document::from_text("f", "éa");
    doc.split_line(0, 2);
    assert_eq!(lines(&doc), vec!["é", "a"]);
    let mut doc = Document::from_text("f", "éa");
    doc.split_line(0, 1);
    assert_eq!(doc.row(0).unwrap().to_bytes(), vec![0xC3]);
    assert_eq!(doc.row(1).unwrap().to_bytes(), vec![0xA9, b'a']);
    doc.merge_with_next(0);
    assert_eq!(lines(&doc), vec!["éa"]);
}

#[test]
fn merge_with_previous_appends_to_the_line_in_front() {
    let mut doc = Document::from_text("f", "ab\ncd\nef");
    doc.merge_with_previous(2);
    assert_eq!(lines(&doc), vec!["ab", "cdef"]);
    doc.merge_with_previous(1);
    assert_eq!(lines(&doc), vec!["abcdef"]);
}

#[test]
fn merge_with_next_prepends_to_the_line_behind() {
    let mut doc = Document::from_text("f", "ab\ncd\nef");
    doc.merge_with_next(0);
    assert_eq!(lines(&doc), vec!["abcd", "ef"]);
    doc.merge_with_next(0);
    assert_eq!(lines(&doc), vec!["abcdef"]);
}

#[test]
fn merge_at_the_ends_of_the_document_changes_nothing() {
    let mut doc = Document::from_text("f", "ab\ncd");
    doc.merge_with_previous(0);
    assert_eq!(lines(&doc), vec!["ab", "cd"]);
    doc.merge_with_next(1);
    assert_eq!(lines(&doc), vec!["ab", "cd"]);
    let mut doc = Document::from_text("f", "single");
    doc.merge_with_previous(0);
    doc.merge_with_next(0);
    assert_eq!(lines(&doc), vec!["single"]);
}

#[test]
fn new_line_cuts_at_a_byte_offset() {
    let mut doc = Document::from_text("f", "hello world\nnext");
    doc.new_line(0, 5);
    assert_eq!(lines(&doc), vec!["hello", " world", "next"]);
    doc.new_line(2, 0);
    assert_eq!(lines(&doc), vec!["hello", " world", "", "next"]);
    doc.new_line(3, 4);
    assert_eq!(lines(&doc), vec!["hello", " world", "", "next", ""]);
    assert_eq!(doc.rows(), 5);
}

#[test]
fn new_line_counts_bytes_not_characters() {
    let mut doc = Document::from_text("f", "héllo");
    doc.new_line(0, 3);
    assert_eq!(lines(&doc), vec!["hé", "llo"]);
    assert_eq!(doc.rows(), 2);
    let mut doc = Document::from_text("f", "日本語テキスト");
    doc.new_line(0, 9);
    assert_eq!(lines(&doc), vec!["日本語", "テキスト"]);
}

#[test]
fn new_line_at_the_end_of_the_line() {
    let mut doc = Document::from_text("f", "abc");
    doc.new_line(0, 3);
    assert_eq!(lines(&doc), vec!["abc", ""]);
    let mut doc = Document::from_text("f", "");
    doc.new_line(0, 0);
    assert_eq!(lines(&doc), vec!["", ""]);
}

#[test]
fn new_line_changes_no_byte() {
    let mut doc = Document::from_text("f", "x");
    doc.row_mut(0).unwrap().insert(1, &[0xFF, b'y', 0xC3, 0xA9]);
    doc.new_line(0, 2);
    assert_eq!(doc.row(0).unwrap().to_bytes(), vec![b'x', 0xFF]);
    assert_eq!(doc.row(1).unwrap().to_bytes(), vec![b'y', 0xC3, 0xA9]);
    doc.new_line(1, 2);
    assert_eq!(doc.row(1).unwrap().to_bytes(), vec![b'y', 0xC3]);
    assert_eq!(doc.row(2).unwrap().to_bytes(), vec![0xA9]);
    doc.merge_with_next(1);
    doc.merge_with_next(0);
    assert_eq!(doc.row(0).unwrap().to_bytes(), vec![b'x', 0xFF, b'y', 0xC3, 0xA9]);
    assert_eq!(doc.rows(), 1);
}

#[test]
fn new_line_then_merge_restores_the_line() {
    let content = "first\nthe line to split\nlast";
    for offset in 0..="the line to split".len() {
        let mut doc = Document::from_text("f.txt", content);
        doc.new_line(1, offset);
        doc.merge_with_previous(2);
        assert_eq!(doc.text(), content);
    }
}

#[test]
fn row_and_row_mut_give_none_past_the_end() {
    let mut doc = Document::from_text("f", "a\nb");
    assert!(doc.row(0).is_some());
    assert!(doc.row(1).is_some());
    assert!(doc.row(2).is_none());
    assert!(doc.row(usize::MAX).is_none());
    assert!(doc.row_mut(1).is_some());
    assert!(doc.row_mut(2).is_none());
}

#[test]
fn row_mut_edits_the_line_in_place() {
    let mut doc = Document::from_text("f", "ac\nxyz");
    doc.row_mut(0).unwrap().insert_char(1, 'b');
    doc.row_mut(1).unwrap().remove_char(1);
    assert_eq!(lines(&doc), vec!["abc", "xz"]);
    assert_eq!(doc.text(), "abc\nxz");
}

#[test]
fn rows_counts_lines() {
    assert_eq!(Document::from_text("f", "").rows(), 1);
    assert_eq!(Document::from_text("f", "a\nb\nc").rows(), 3);
    assert_eq!(Document::from_text("f", "a\nb\nc\n").rows(), 4);
}

#[test]
fn cols_is_the_longest_line_in_characters() {
    assert_eq!(Document::from_text("f", "").cols(), 0);
    assert_eq!(Document::from_text("f", "a\nbcd\nef").cols(), 3);
    assert_eq!(Document::from_text("f", "日本語テキスト\nabcdefgh").cols(), 8);
    assert_eq!(Document::from_text("f", "abcdefgh\n日本語テキスト!!").cols(), 9);
}

#[test]
fn edits_leave_path_and_type_alone() {
    let mut doc = Document::from_text("dir/file.md", "a\nb");
    doc.split_line(0, 1);
    doc.merge_with_next(0);
    doc.new_line(1, 0);
    doc.merge_with_previous(2);
    assert_eq!(doc.file_path, "dir/file.md");
    assert_eq!(doc.file_type, "md");
}
