//! The text editor.
use rode::editor::{next_word_boundary, previous_word_boundary, Editor, EditorEvent, LineSpan};

fn typed(text: &str) -> Editor {
    let mut editor = Editor::new("", "Say something");
    editor.replace_text_in_range(None, text);
    editor
}

#[test]
fn word_boundaries_follow_linux_style_deletion() {
    let text = "alpha  beta gamma";
    assert_eq!(previous_word_boundary(text, text.len()), 12);
    assert_eq!(previous_word_boundary(text, 12), 7);
    assert_eq!(next_word_boundary(text, 0), 7);
    assert_eq!(next_word_boundary(text, 7), 12);
}

#[test]
fn word_boundaries_are_valid_for_unicode() {
    let text = "hello  мир  世界";
    let world_start = text.find('世').expect("world start");
    assert_eq!(previous_word_boundary(text, text.len()), world_start);
    assert_eq!(next_word_boundary(text, 0), text.find('м').expect("Cyrillic start"));
}

#[test]
fn whole_clusters_are_deleted_and_passed() {
    let mut editor = typed("ae\u{301}👨‍👩‍👧");
    editor.left();
    assert_eq!(editor.delete(), Some(EditorEvent::Changed));
    assert_eq!(editor.text(), "ae\u{301}");
    assert_eq!(editor.backspace(), Some(EditorEvent::Changed));
    assert_eq!(editor.text(), "a");
    editor.left();
    assert_eq!(editor.backspace(), None);
    editor.right();
    assert_eq!(editor.delete(), None);
    assert_eq!(editor.text(), "a");
}

#[test]
fn typed_text_is_found_in_place() {
    let mut editor = typed("ab");
    editor.left();
    editor.replace_text_in_range(None, "xy");
    assert_eq!(editor.text(), "axyb");
    assert_eq!(editor.selected_text_range(), (3, 3));
    assert_eq!(editor.text_for_range(1, 3), ("xy".to_owned(), (1, 3)));
}

#[test]
fn ranges_count_utf16_units() {
    let mut editor = typed("a👍b");
    assert_eq!(editor.selected_text_range(), (4, 4));
    assert_eq!(editor.text_for_range(1, 3), ("👍".to_owned(), (1, 3)));
    editor.replace_text_in_range(Some((1, 3)), "-");
    assert_eq!(editor.text(), "a-b");
}

#[test]
fn words_are_deleted_both_ways() {
    let mut editor = typed("one two  three");
    assert_eq!(editor.delete_word_backward(), Some(EditorEvent::Changed));
    assert_eq!(editor.text(), "one two  ");
    editor.home();
    assert_eq!(editor.delete_word_forward(), Some(EditorEvent::Changed));
    assert_eq!(editor.text(), "two  ");
}

#[test]
fn lines_have_their_own_ends() {
    let mut editor = typed("first");
    assert_eq!(editor.insert_newline(), EditorEvent::Changed);
    editor.replace_text_in_range(None, "second");
    assert_eq!(editor.shown_lines(), ["first", "second"]);
    assert_eq!(editor.shown_cursor(true), Some((1, 6)));
    assert_eq!(editor.shown_cursor(false), None);
    editor.home();
    assert_eq!(editor.shown_cursor(true), Some((1, 0)));
    editor.left();
    assert_eq!(editor.shown_cursor(true), Some((0, 5)));
    editor.home();
    editor.end();
    assert_eq!(editor.shown_cursor(true), Some((0, 5)));
}

#[test]
fn a_selection_is_shown_and_replaced() {
    let mut editor = typed("ab\ncd");
    editor.select_all();
    assert_eq!(editor.shown_cursor(true), None);
    assert_eq!(editor.shown_selection(true), Some((0, 1)));
    assert_eq!(editor.shown_selection(false), None);
    assert_eq!(editor.selection_span(0, 2), Some(LineSpan { line: 0, start: 0, end: 2 }));
    assert_eq!(editor.selection_span(1, 2), Some(LineSpan { line: 1, start: 0, end: 2 }));
    assert_eq!(editor.backspace(), Some(EditorEvent::Changed));
    assert_eq!(editor.text(), "");
    assert!(editor.shows_placeholder());
    assert_eq!(editor.shown_lines(), ["Say something"]);
}

#[test]
fn the_cursor_blinks_until_it_moves() {
    let mut editor = typed("a");
    editor.start_blink();
    assert!(editor.shown_cursor(true).is_some());
    editor.blink();
    assert!(editor.shown_cursor(true).is_none());
    editor.left();
    assert!(editor.shown_cursor(true).is_some());
    editor.stop_blink();
    assert!(editor.shown_cursor(true).is_none());
    editor.set_text("new");
    assert_eq!(editor.text(), "new");
    editor.clear();
    assert_eq!(editor.text(), "");
}
