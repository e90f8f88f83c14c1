use mdedit::document::Document;
use mdedit::editor::{chars_equal, strip_artifacts, Editor, Key};

fn chars(s: &str) -> Vec<char> {
    s.chars().collect()
}

fn text_of(e: &Editor) -> String {
    e.content_string()
}

/// Inserting text at a valid offset and deleting the same range restores
/// the original content.
#[test]
fn insert_then_delete_round_trips() {
    let original = "hello world";
    for p in 0..=original.len() {
        let mut d = Document::new(chars(original));
        let t = chars("XYZ");
        d.insert(p, &t);
        d.delete_range(p, p + t.len());
        assert_eq!(d.chars().iter().collect::<String>(), original);
    }
}

#[test]
fn undo_is_strict_lifo() {
    let mut e = Editor::new(chars("base"));
    e.click(4);
    e.insert_text(&chars("1"));
    e.insert_text(&chars("2"));
    e.insert_text(&chars("3"));
    assert_eq!(text_of(&e), "base123");
    e.undo();
    assert_eq!(text_of(&e), "base12");
    e.undo();
    assert_eq!(text_of(&e), "base1");
    e.undo();
    assert_eq!(text_of(&e), "base");
    // A further undo with no history left is a no-op.
    e.undo();
    assert_eq!(text_of(&e), "base");
}

#[test]
fn undo_clamps_caret_into_restored_content() {
    let mut e = Editor::new(chars("ab"));
    e.click(2);
    e.insert_text(&chars("cdef"));
    assert_eq!(e.caret(), Some(6));
    e.undo();
    assert_eq!(text_of(&e), "ab");
    assert_eq!(e.caret(), Some(2));
}

/// Moving down clamps the column to the destination line's length.
#[test]
fn vertical_move_clamps_column() {
    let mut e = Editor::new(chars("abcdef\nab\nwxyz"));
    e.click(4);
    let r = e.handle_key(&Key::ArrowDown, false);
    // Line "ab" starts at 7 and has length 2: column min(4, 2) = 2.
    assert_eq!(r, Some(9));
    assert_eq!(e.caret(), Some(9));
    let r = e.handle_key(&Key::ArrowDown, false);
    // Line "wxyz" starts at 10: column min(2, 4) = 2.
    assert_eq!(r, Some(12));
    let r = e.handle_key(&Key::ArrowUp, false);
    assert_eq!(r, Some(9));
}

#[test]
fn vertical_move_is_noop_at_first_and_last_line() {
    let mut e = Editor::new(chars("one\ntwo"));
    e.click(1);
    assert_eq!(e.handle_key(&Key::ArrowUp, false), None);
    assert_eq!(e.caret(), Some(1));
    e.click(5);
    assert_eq!(e.handle_key(&Key::ArrowDown, false), None);
    assert_eq!(e.caret(), Some(5));
}

/// Home and End resolve to the boundaries of the line containing the
/// caret; an offset at a line's end belongs to that line.
#[test]
fn home_and_end_resolve_line_boundaries() {
    let mut e = Editor::new(chars("abcdef\nab\nwxyz"));
    e.click(8);
    assert_eq!(e.handle_key(&Key::Home, false), Some(7));
    assert_eq!(e.handle_key(&Key::End, false), Some(9));
    // Offset 9 sits exactly at the end of "ab": it still belongs to that
    // line, so Home goes back to 7, not to 10.
    assert_eq!(e.handle_key(&Key::Home, false), Some(7));
    // Offset 6 is the end of the first line.
    e.click(6);
    assert_eq!(e.handle_key(&Key::Home, false), Some(0));
    assert_eq!(e.handle_key(&Key::End, false), Some(6));
}

/// Shift-modified moves keep the anchor; an unmodified move clears the
/// selection.
#[test]
fn selection_extension_preserves_anchor() {
    let mut e = Editor::new(chars("abcdef\nxyz"));
    e.click(2);
    e.handle_key(&Key::ArrowRight, true);
    assert_eq!(e.selection(), Some((2, 3)));
    e.handle_key(&Key::ArrowRight, true);
    assert_eq!(e.selection(), Some((2, 4)));
    e.handle_key(&Key::End, true);
    assert_eq!(e.selection(), Some((2, 6)));
    e.handle_key(&Key::ArrowDown, true);
    assert_eq!(e.selection(), Some((2, 10)));
    // An unmodified move clears it.
    e.handle_key(&Key::ArrowLeft, false);
    assert_eq!(e.selection(), None);
}

#[test]
fn unmodified_edit_clears_selection() {
    let mut e = Editor::new(chars("abc"));
    e.click(0);
    e.handle_key(&Key::ArrowRight, true);
    assert_eq!(e.selection(), Some((0, 1)));
    e.handle_key(&Key::Character(chars("Z")), false);
    assert_eq!(e.selection(), None);
    assert_eq!(text_of(&e), "aZbc");
}

/// Deleting the selection (2, 5) over "abcdef" yields "abf" with the
/// caret at 2.
#[test]
fn deleting_selection_takes_range_and_moves_caret() {
    let mut e = Editor::new(chars("abcdef"));
    e.click(2);
    e.handle_key(&Key::ArrowRight, true);
    e.handle_key(&Key::ArrowRight, true);
    e.handle_key(&Key::ArrowRight, true);
    assert_eq!(e.selection(), Some((2, 5)));
    let r = e.handle_key(&Key::Backspace, false);
    assert_eq!(text_of(&e), "abf");
    assert_eq!(e.caret(), Some(2));
    assert_eq!(r, Some(2));
    assert_eq!(e.selection(), None);
}

#[test]
fn backspace_and_delete_at_boundaries_do_nothing() {
    let mut e = Editor::new(chars("ab"));
    e.click(0);
    assert_eq!(e.handle_key(&Key::Backspace, false), None);
    assert_eq!(text_of(&e), "ab");
    e.click(2);
    assert_eq!(e.handle_key(&Key::Delete, false), None);
    assert_eq!(text_of(&e), "ab");
}

#[test]
fn keys_without_caret_do_nothing() {
    let mut e = Editor::new(chars("ab"));
    assert_eq!(e.handle_key(&Key::Character(chars("x")), false), None);
    assert_eq!(e.handle_key(&Key::Backspace, false), None);
    assert_eq!(e.undo(), None);
    assert_eq!(text_of(&e), "ab");
}

#[test]
fn enter_inserts_line_break() {
    let mut e = Editor::new(chars("abcd"));
    e.click(2);
    let r = e.handle_key(&Key::Enter, false);
    assert_eq!(text_of(&e), "ab\ncd");
    assert_eq!(r, Some(3));
}

#[test]
fn copy_cut_paste_flow() {
    let mut e = Editor::new(chars("abcdef"));
    e.click(1);
    e.handle_key(&Key::ArrowRight, true);
    e.handle_key(&Key::ArrowRight, true);
    // Copy reads the selected range without mutating.
    let copied: String = e.selected_text().unwrap().iter().collect();
    assert_eq!(copied, "bc");
    assert_eq!(text_of(&e), "abcdef");
    // Cut deletes it after a successful copy.
    let r = e.delete_selection();
    assert_eq!(r, Some(1));
    assert_eq!(text_of(&e), "adef");
    // Paste inserts at the caret.
    e.paste(&chars("bc"));
    assert_eq!(text_of(&e), "abcdef");
    assert_eq!(e.caret(), Some(3));
}

#[test]
fn selected_text_none_without_selection() {
    let e = Editor::new(chars("abc"));
    assert!(e.selected_text().is_none());
}

#[test]
fn sync_tick_requeues_caret_once_after_click() {
    let mut e = Editor::new(chars("abc"));
    assert_eq!(e.sync_tick(), None);
    e.click(2);
    assert_eq!(e.sync_tick(), Some(2));
    // The interaction flag is consumed by the first tick.
    assert_eq!(e.sync_tick(), None);
}

#[test]
fn click_clamps_to_content_length() {
    let mut e = Editor::new(chars("abc"));
    assert_eq!(e.click(10), Some(3));
    assert_eq!(e.caret(), Some(3));
}

#[test]
fn adopt_surface_text_strips_artifacts_and_replaces() {
    let mut e = Editor::new(chars("old"));
    e.click(3);
    let surface: Vec<char> = "ne\u{200b}w text".chars().collect();
    let r = e.adopt_surface_text(&surface);
    assert_eq!(text_of(&e), "new text");
    assert_eq!(r, Some(3));
    // The same text again differs no longer: a no-op.
    let again: Vec<char> = "new text".chars().collect();
    assert_eq!(e.adopt_surface_text(&again), None);
    // Empty surface text is never adopted.
    let empty: Vec<char> = "\u{200b}".chars().collect();
    assert_eq!(e.adopt_surface_text(&empty), None);
    assert_eq!(text_of(&e), "new text");
}

#[test]
fn strip_artifacts_removes_zero_width_characters() {
    let v: Vec<char> = "a\u{200b}b\u{200b}".chars().collect();
    let r: String = strip_artifacts(&v).iter().collect();
    assert_eq!(r, "ab");
}

#[test]
fn chars_equal_compares_contents() {
    assert!(chars_equal(&chars("abc"), &chars("abc")));
    assert!(!chars_equal(&chars("abc"), &chars("abd")));
    assert!(!chars_equal(&chars("abc"), &chars("ab")));
}

#[test]
fn paste_keeps_selection() {
    let mut e = Editor::new(chars("abc"));
    e.click(0);
    e.handle_key(&Key::ArrowRight, true);
    assert_eq!(e.selection(), Some((0, 1)));
    // The caret sits at 1 after the extension; paste inserts there.
    e.paste(&chars("xy"));
    assert_eq!(text_of(&e), "axybc");
    assert_eq!(e.caret(), Some(3));
    assert_eq!(e.selection(), Some((0, 1)));
}

#[test]
fn empty_editor_handles_every_key_quietly() {
    let mut e = Editor::new(Vec::new());
    e.click(0);
    assert_eq!(e.handle_key(&Key::Backspace, false), None);
    assert_eq!(e.handle_key(&Key::Delete, false), None);
    assert_eq!(e.handle_key(&Key::ArrowLeft, false), None);
    assert_eq!(e.handle_key(&Key::ArrowRight, false), None);
    assert_eq!(e.handle_key(&Key::ArrowUp, false), None);
    assert_eq!(e.handle_key(&Key::ArrowDown, false), None);
    assert_eq!(e.handle_key(&Key::Home, false), Some(0));
    assert_eq!(e.handle_key(&Key::End, false), Some(0));
    assert_eq!(text_of(&e), "");
}

#[test]
fn multibyte_characters_count_as_single_units() {
    let mut e = Editor::new(chars("aüb"));
    e.click(3);
    e.handle_key(&Key::Backspace, false);
    assert_eq!(text_of(&e), "aü");
    e.handle_key(&Key::Backspace, false);
    assert_eq!(text_of(&e), "a");
}
