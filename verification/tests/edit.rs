use fullmoon::edit::{EditAction, EditBuffer};

fn buffer(text: &str, cursor: usize) -> EditBuffer {
    let mut b = EditBuffer::with_text(text);
    for _ in 0..cursor {
        b.perform(EditAction::MoveRight);
    }
    b
}

#[test]
fn new_buffer_is_empty() {
    let b = EditBuffer::new();
    assert_eq!(b.text(), "");
    assert_eq!(b.cursor(), 0);
}

#[test]
fn with_text_puts_cursor_at_start() {
    let b = EditBuffer::with_text("hello");
    assert_eq!(b.text(), "hello");
    assert_eq!(b.cursor(), 0);
}

#[test]
fn insert_puts_character_at_cursor() {
    let mut b = buffer("held", 3);
    b.perform(EditAction::Insert('l'));
    assert_eq!(b.text(), "helld");
    assert_eq!(b.cursor(), 4);
    let mut start = EditBuffer::with_text("bc");
    start.perform(EditAction::Insert('a'));
    assert_eq!(start.text(), "abc");
    assert_eq!(start.cursor(), 1);
}

#[test]
fn backspace_removes_before_cursor() {
    let mut b = buffer("abc", 2);
    b.perform(EditAction::Backspace);
    assert_eq!(b.text(), "ac");
    assert_eq!(b.cursor(), 1);
    b.perform(EditAction::Backspace);
    assert_eq!(b.text(), "c");
    assert_eq!(b.cursor(), 0);
    b.perform(EditAction::Backspace);
    assert_eq!(b.text(), "c");
    assert_eq!(b.cursor(), 0);
}

#[test]
fn delete_removes_at_cursor() {
    let mut b = buffer("abc", 1);
    b.perform(EditAction::Delete);
    assert_eq!(b.text(), "ac");
    assert_eq!(b.cursor(), 1);
    b.perform(EditAction::Delete);
    assert_eq!(b.text(), "a");
    assert_eq!(b.cursor(), 1);
    b.perform(EditAction::Delete);
    assert_eq!(b.text(), "a");
    assert_eq!(b.cursor(), 1);
}

#[test]
fn cursor_moves_stop_at_the_ends() {
    let mut b = EditBuffer::with_text("ab");
    b.perform(EditAction::MoveLeft);
    assert_eq!(b.cursor(), 0);
    b.perform(EditAction::MoveRight);
    assert_eq!(b.cursor(), 1);
    b.perform(EditAction::MoveRight);
    b.perform(EditAction::MoveRight);
    assert_eq!(b.cursor(), 2);
    b.perform(EditAction::MoveLeft);
    assert_eq!(b.cursor(), 1);
    b.perform(EditAction::MoveEnd);
    assert_eq!(b.cursor(), 2);
    b.perform(EditAction::MoveStart);
    assert_eq!(b.cursor(), 0);
    assert_eq!(b.text(), "ab");
}

#[test]
fn replace_sets_text_and_cursor_at_end() {
    let mut b = buffer("old text", 3);
    b.perform(EditAction::Replace("new".to_string()));
    assert_eq!(b.text(), "new");
    assert_eq!(b.cursor(), 3);
    b.perform(EditAction::Replace(String::new()));
    assert_eq!(b.text(), "");
    assert_eq!(b.cursor(), 0);
}

#[test]
fn cursor_counts_characters_not_bytes() {
    let mut b = EditBuffer::with_text("né");
    b.perform(EditAction::MoveEnd);
    assert_eq!(b.cursor(), 2);
    b.perform(EditAction::Insert('é'));
    assert_eq!(b.text(), "néé");
    assert_eq!(b.cursor(), 3);
    b.perform(EditAction::MoveLeft);
    b.perform(EditAction::Backspace);
    assert_eq!(b.text(), "né");
}
