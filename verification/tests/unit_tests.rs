use mdedit::caret::{down_target, end_target, home_target, left_target, right_target, up_target};
use mdedit::document::Document;
use mdedit::lines::{line_end, line_start};
use mdedit::text::{join_strings, mark_breaks, token_before_space};

fn chars(s: &str) -> Vec<char> {
    s.chars().collect()
}

#[test]
fn line_boundaries_use_end_of_line_tie_break() {
    let t = chars("ab\n\ncd");
    // Ranges: "ab" covers [0, 2], the empty line covers [3, 3], "cd"
    // covers [4, 6].
    assert_eq!(line_start(&t, 0), 0);
    assert_eq!(line_start(&t, 2), 0);
    assert_eq!(line_end(&t, 2), 2);
    assert_eq!(line_start(&t, 3), 3);
    assert_eq!(line_end(&t, 3), 3);
    assert_eq!(line_start(&t, 4), 4);
    assert_eq!(line_end(&t, 4), 6);
    assert_eq!(line_end(&t, 6), 6);
}

#[test]
fn horizontal_targets_clamp() {
    let t = chars("ab");
    assert_eq!(left_target(0), None);
    assert_eq!(left_target(2), Some(1));
    assert_eq!(right_target(&t, 2), None);
    assert_eq!(right_target(&t, 1), Some(2));
}

#[test]
fn vertical_targets_track_columns() {
    let t = chars("abcdef\nab\nwxyz");
    assert_eq!(up_target(&t, 3), None);
    assert_eq!(down_target(&t, 4), Some(9));
    assert_eq!(up_target(&t, 9), Some(2));
    assert_eq!(down_target(&t, 12), None);
    assert_eq!(home_target(&t, 8), 7);
    assert_eq!(end_target(&t, 8), 9);
}

#[test]
fn document_normalizes_delete_range() {
    let mut d = Document::new(chars("abcdef"));
    d.delete_range(5, 2);
    assert_eq!(d.chars().iter().collect::<String>(), "abf");
    // An empty range still snapshots but changes nothing.
    d.delete_range(1, 1);
    assert_eq!(d.chars().iter().collect::<String>(), "abf");
    assert_eq!(d.history_len(), 2);
    d.undo();
    d.undo();
    assert_eq!(d.chars().iter().collect::<String>(), "abcdef");
}

#[test]
fn document_replace_keeps_history() {
    let mut d = Document::new(chars("one"));
    d.insert(3, &chars("!"));
    d.replace(chars("surface"));
    assert_eq!(d.history_len(), 1);
    d.undo();
    assert_eq!(d.chars().iter().collect::<String>(), "one");
}

#[test]
fn join_strings_inserts_separator() {
    assert_eq!(join_strings(&vec![], ' '), None);
    assert_eq!(join_strings(&vec!["a".to_string()], ' '), Some("a".to_string()));
    assert_eq!(
        join_strings(&vec!["a".to_string(), "b".to_string(), "c".to_string()], ' '),
        Some("a b c".to_string())
    );
}

#[test]
fn mark_breaks_replaces_newlines() {
    assert_eq!(mark_breaks("a\nb\n"), "a<br />\nb<br />\n");
    assert_eq!(mark_breaks("plain"), "plain");
    assert_eq!(mark_breaks(""), "");
}

#[test]
fn token_before_space_takes_first_token() {
    assert_eq!(token_before_space("rust extra words"), "rust");
    assert_eq!(token_before_space("rust"), "rust");
    assert_eq!(token_before_space(""), "");
    assert_eq!(token_before_space(" leading"), "");
}
