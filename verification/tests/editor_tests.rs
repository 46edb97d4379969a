use opencode_gpui::editor::{is_word, normalize_newlines, TextEditor};

fn editor_with(text: &str) -> TextEditor {
    let mut editor = TextEditor::new("placeholder");
    editor.content = text.into();
    editor
}

#[test]
fn cursor_navigation_uses_grapheme_boundaries() {
    let editor = editor_with("a👨‍👩‍👧b");
    assert_eq!(editor.next_boundary(1), 19);
    assert_eq!(editor.previous_boundary(19), 1);
}

#[test]
fn word_navigation_skips_whitespace_and_preserves_unicode() {
    let editor = editor_with("alpha  βeta.gamma");
    assert_eq!(editor.next_word_boundary(0), 7);
    assert_eq!(editor.previous_word_boundary(12), 7);
    assert_eq!(editor.next_word_boundary(11), 12);
}

#[test]
fn word_boundaries_at_the_ends() {
    let editor = editor_with("  one two  ");
    assert_eq!(editor.previous_word_boundary(0), 0);
    assert_eq!(editor.previous_word_boundary(2), 0);
    assert_eq!(editor.next_word_boundary(0), 2);
    assert_eq!(editor.next_word_boundary(9), 11);
    assert_eq!(editor.next_word_boundary(11), 11);
    assert_eq!(editor.previous_word_boundary(11), 6);
}

#[test]
fn grapheme_boundaries_at_the_ends() {
    let editor = editor_with("héllo");
    assert_eq!(editor.previous_boundary(0), 0);
    assert_eq!(editor.next_boundary(6), 6);
    assert_eq!(editor.next_boundary(1), 3);
    assert_eq!(editor.previous_boundary(3), 1);
}

#[test]
fn word_clusters_are_letters_digits_and_underscores() {
    assert!(is_word("abc_9"));
    assert!(is_word("β"));
    assert!(!is_word("a-b"));
    assert!(!is_word(" "));
}

#[test]
fn replacing_a_range_puts_the_cursor_after_the_new_text() {
    let mut editor = editor_with("hello world");
    editor.replace_range(6..11, "there");
    assert_eq!(editor.text(), "hello there");
    assert_eq!(editor.selected_range, 11..11);
    editor.replace_range(0..0, "¡");
    assert_eq!(editor.text(), "¡hello there");
    assert_eq!(editor.cursor_offset(), 2);
}

#[test]
fn restore_puts_the_cursor_at_the_end_and_clear_empties() {
    let mut editor = TextEditor::new("prompt");
    editor.restore_text("draft ✓");
    assert_eq!(editor.selected_range, 9..9);
    assert!(!editor.selection_reversed);
    editor.clear();
    assert_eq!(editor.text(), "");
    assert_eq!(editor.selected_range, 0..0);
}

#[test]
fn submit_clears_unless_preserved() {
    let mut editor = TextEditor::new("prompt");
    editor.restore_text("go");
    let (submitted, changed) = editor.submit();
    assert_eq!(submitted.text, "go");
    assert!(changed.is_some());
    assert_eq!(editor.text(), "");
    let mut kept = TextEditor::new("directory").preserve_on_submit();
    kept.restore_text("/work");
    let (submitted, changed) = kept.submit();
    assert_eq!(submitted.text, "/work");
    assert!(changed.is_none());
    assert_eq!(kept.text(), "/work");
}

#[test]
fn selecting_past_the_anchor_turns_the_selection_around() {
    let mut editor = editor_with("abcdef");
    editor.move_to(3);
    editor.select_to(5);
    assert_eq!(editor.selected_range, 3..5);
    assert!(!editor.selection_reversed);
    editor.select_to(1);
    assert_eq!(editor.selected_range, 1..3);
    assert!(editor.selection_reversed);
    assert_eq!(editor.cursor_offset(), 1);
    editor.select_to(3);
    assert_eq!(editor.selected_range, 3..3);
}

#[test]
fn arrows_collapse_a_selection_before_moving() {
    let mut editor = editor_with("abc");
    editor.move_to(1);
    editor.select_to(2);
    editor.left();
    assert_eq!(editor.selected_range, 1..1);
    editor.left();
    assert_eq!(editor.selected_range, 0..0);
    editor.select_right();
    assert_eq!(editor.selected_range, 0..1);
    editor.right();
    assert_eq!(editor.selected_range, 1..1);
    editor.right();
    assert_eq!(editor.selected_range, 2..2);
}

#[test]
fn word_moves_and_selections() {
    let mut editor = editor_with("one two three");
    editor.document_end();
    editor.word_left();
    assert_eq!(editor.cursor_offset(), 8);
    editor.select_word_left();
    assert_eq!(editor.selected_range, 4..8);
    editor.word_right();
    assert_eq!(editor.cursor_offset(), 8);
    editor.select_word_right();
    assert_eq!(editor.selected_range, 8..13);
    editor.select_all();
    assert_eq!(editor.selected_range, 0..13);
}

#[test]
fn home_and_end_stay_on_the_cursor_line() {
    let mut editor = editor_with("one\ntwo\nthree");
    editor.move_to(5);
    editor.home();
    assert_eq!(editor.cursor_offset(), 4);
    editor.end();
    assert_eq!(editor.cursor_offset(), 7);
    editor.document_home();
    editor.end();
    assert_eq!(editor.cursor_offset(), 3);
    editor.move_to(9);
    editor.select_home();
    assert_eq!(editor.selected_range, 0..9);
    editor.move_to(9);
    editor.select_end();
    assert_eq!(editor.selected_range, 9..13);
}

fn editor_at(text: &str, cursor: usize) -> TextEditor {
    let mut editor = editor_with(text);
    editor.selected_range = cursor..cursor;
    editor
}

#[test]
fn backspace_and_delete_remove_whole_graphemes() {
    let mut editor = editor_at("a👨‍👩‍👧b", 19);
    editor.backspace();
    assert_eq!(editor.text(), "ab");
    assert_eq!(editor.selected_range, 1..1);
    editor.delete();
    assert_eq!(editor.text(), "a");
    assert_eq!(editor.selected_range, 1..1);
    editor.delete();
    assert_eq!(editor.text(), "a");
    let mut editor = editor_at("", 0);
    editor.backspace();
    assert_eq!(editor.text(), "");
}

#[test]
fn backspace_with_a_selection_removes_only_it() {
    let mut editor = editor_with("hello world");
    editor.selected_range = 5..11;
    editor.backspace();
    assert_eq!(editor.text(), "hello");
    assert_eq!(editor.selected_range, 5..5);
}

#[test]
fn word_deletion_in_both_directions() {
    let mut editor = editor_at("alpha beta gamma", 10);
    editor.delete_word_backward();
    assert_eq!(editor.text(), "alpha  gamma");
    assert_eq!(editor.selected_range, 6..6);
    editor.delete_word_forward();
    assert_eq!(editor.text(), "alpha gamma");
    editor.delete_word_forward();
    assert_eq!(editor.text(), "alpha ");
}

#[test]
fn copy_and_cut_hand_out_the_selection() {
    let mut editor = editor_at("héllo", 3);
    assert_eq!(editor.copy(), None);
    assert_eq!(editor.cut(), None);
    assert_eq!(editor.text(), "héllo");
    editor.selected_range = 1..4;
    assert_eq!(editor.copy().as_deref(), Some("él"));
    assert_eq!(editor.cut().as_deref(), Some("él"));
    assert_eq!(editor.text(), "hlo");
    assert_eq!(editor.selected_range, 1..1);
}

#[test]
fn paste_normalizes_line_ends_and_newline_breaks_the_line() {
    assert_eq!(normalize_newlines("a\r\nb\rc\n\r\r\n"), "a\nb\nc\n\n\n");
    let mut editor = editor_at("ab", 1);
    editor.paste("x\r\ny");
    assert_eq!(editor.text(), "ax\nyb");
    assert_eq!(editor.selected_range, 4..4);
    editor.newline();
    assert_eq!(editor.text(), "ax\ny\nb");
    assert_eq!(editor.selected_range, 5..5);
}

#[test]
fn typing_replaces_the_composed_text_first() {
    let mut editor = editor_at("abcd", 4);
    editor.marked_range = Some(1..3);
    editor.replace_selection("X");
    assert_eq!(editor.text(), "aXd");
    assert_eq!(editor.selected_range, 2..2);
    assert_eq!(editor.marked_range, None);
}

#[test]
fn cut_then_paste_gives_the_text_back() {
    let mut editor = editor_with("naïve café");
    editor.selected_range = 4..8;
    let cut = editor.cut().unwrap();
    assert_eq!(cut, "ve c");
    editor.paste(&cut);
    assert_eq!(editor.text(), "naïve café");
    assert_eq!(editor.selected_range, 8..8);
}

#[test]
fn explicit_newlines_grow_layout_without_waiting_for_paint() {
    let mut editor = TextEditor::new("placeholder");
    editor.content = "one\ntwo\nthree".into();
    assert_eq!(editor.explicit_lines(), 3);
}

#[test]
fn editor_height_follows_its_lines_up_to_the_limit() {
    let mut editor = TextEditor::new("placeholder");
    assert_eq!(editor.explicit_lines(), 1);
    assert_eq!(editor.layout_lines(), 1);
    editor.content = "a\nb\nc\n".into();
    assert_eq!(editor.layout_lines(), 4);
    editor.visible_lines = 6;
    assert_eq!(editor.layout_lines(), 6);
    editor.content = "\n".repeat(20);
    assert_eq!(editor.layout_lines(), 8);
}

#[test]
fn replacing_a_range_hands_on_one_change_notice() {
    let mut editor = TextEditor::new("prompt");
    let notice: opencode_gpui::editor::Changed = editor.replace_range(0..0, "hi");
    let _ = format!("{notice:?}");
    assert_eq!(editor.text(), "hi");
    let _cleared: opencode_gpui::editor::Changed = editor.clear();
    assert_eq!(editor.text(), "");
}
