use fullmoon::chat::{Chat, ChatError, MessageRow};
use fullmoon::edit::EditAction;
use fullmoon::message::{Message, OwnerType};
use fullmoon::persona::{Basic, Card, Persona};

fn user(text: &str) -> Message {
    Message::from_user(text.to_string())
}

fn assistant(text: &str) -> Message {
    Message::from_char(text.to_string())
}

fn path(chat: &Chat) -> Vec<(OwnerType, String)> {
    chat.get_current_chat().into_iter().map(|m| (m.owner_type, m.text)).collect()
}

fn turns(items: &[(OwnerType, &str)]) -> Vec<(OwnerType, String)> {
    items.iter().map(|(o, t)| (*o, t.to_string())).collect()
}

fn row_numbers(rows: &[MessageRow]) -> Vec<(usize, usize)> {
    rows.iter().map(|r| (r.position, r.alternatives)).collect()
}

fn greeted(greetings: &[&str]) -> Chat {
    let list: Vec<String> = greetings.iter().map(|g| g.to_string()).collect();
    let character = Persona::new(Card::new("Luna", "A friend.", list), None);
    Chat::with_messages(&character, &Persona::default_user())
}

fn type_text(chat: &mut Chat, idx: usize, text: &str) {
    for c in text.chars() {
        assert_eq!(chat.perform_action(idx, EditAction::Insert(c)), Ok(()));
    }
}

#[test]
fn empty_chat_has_empty_path() {
    let chat = Chat::new();
    assert!(chat.get_current_chat().is_empty());
    assert!(chat.get_current_chat_until(3).is_empty());
    assert!(chat.create_column_view().is_empty());
    assert!(Chat::default().get_current_chat().is_empty());
}

#[test]
fn pushes_form_the_path_in_order() {
    let mut chat = Chat::new();
    chat.push(user("one"));
    chat.push(assistant("two"));
    chat.push(user("three"));
    chat.push(assistant("four"));
    assert_eq!(
        path(&chat),
        turns(&[
            (OwnerType::User, "one"),
            (OwnerType::Char, "two"),
            (OwnerType::User, "three"),
            (OwnerType::Char, "four"),
        ])
    );
    assert_eq!(row_numbers(&chat.create_column_view()), vec![(1, 1), (1, 1), (1, 1), (1, 1)]);
}

#[test]
fn streamed_pieces_reach_the_last_message() {
    let mut chat = Chat::new();
    chat.push(user("hi"));
    chat.push(Message::empty_from_char());
    assert_eq!(chat.append_last_message("He"), Ok(()));
    assert_eq!(chat.append_last_message("llo"), Ok(()));
    assert_eq!(path(&chat), turns(&[(OwnerType::User, "hi"), (OwnerType::Char, "Hello")]));
}

#[test]
fn append_keeps_the_piece_as_it_is() {
    let mut chat = Chat::new();
    chat.push(Message::empty_from_char());
    assert_eq!(chat.append_last_message("  two\n"), Ok(()));
    assert_eq!(chat.append_last_message(" words "), Ok(()));
    assert_eq!(path(&chat), turns(&[(OwnerType::Char, "  two\n words ")]));
}

#[test]
fn append_to_empty_chat_is_an_error() {
    let mut chat = Chat::new();
    assert_eq!(chat.append_last_message("lost"), Err(ChatError::NoActiveLeaf));
    assert!(chat.get_current_chat().is_empty());
}

#[test]
fn next_moves_to_existing_greeting() {
    let mut chat = greeted(&["Hi!", "Hey there!"]);
    assert_eq!(path(&chat), turns(&[(OwnerType::Char, "Hi!")]));
    assert_eq!(row_numbers(&chat.create_column_view()), vec![(1, 2)]);
    let created = chat.next(0, Message::empty_from_char());
    assert!(!created);
    assert_eq!(path(&chat), turns(&[(OwnerType::Char, "Hey there!")]));
    assert_eq!(row_numbers(&chat.create_column_view()), vec![(2, 2)]);
}

#[test]
fn greetings_are_trimmed_and_first_is_selected() {
    let chat = greeted(&["  Hi!\n", "Hey there!  ", "\tYo"]);
    assert_eq!(path(&chat), turns(&[(OwnerType::Char, "Hi!")]));
    assert_eq!(row_numbers(&chat.create_column_view()), vec![(1, 3)]);
}

#[test]
fn no_greetings_give_an_empty_chat() {
    let character = Persona::new(Basic::new("Luna", "A friend."), None);
    let chat = Chat::with_messages(&character, &Persona::default_user());
    assert!(chat.get_current_chat().is_empty());
    let silent = greeted(&[]);
    assert!(silent.get_current_chat().is_empty());
}

#[test]
fn prefix_of_one_is_the_first_turn() {
    let mut chat = Chat::new();
    chat.push(user("a"));
    chat.push(assistant("b"));
    chat.push(user("c"));
    let prefix: Vec<(OwnerType, String)> =
        chat.get_current_chat_until(1).into_iter().map(|m| (m.owner_type, m.text)).collect();
    assert_eq!(prefix, turns(&[(OwnerType::User, "a")]));
}

#[test]
fn prefix_lengths() {
    let mut chat = Chat::new();
    chat.push(user("a"));
    chat.push(assistant("b"));
    chat.push(user("c"));
    assert_eq!(chat.get_current_chat_until(0).len(), 0);
    assert_eq!(chat.get_current_chat_until(2).len(), 2);
    assert_eq!(chat.get_current_chat_until(3).len(), 3);
    assert_eq!(chat.get_current_chat_until(4).len(), 3);
    assert_eq!(chat.get_current_chat_until(usize::MAX).len(), 3);
    assert_eq!(chat.get_current_chat_until(2)[1].text, "b");
}

#[test]
fn next_at_last_creates_a_branch_and_keeps_the_rest() {
    let mut chat = Chat::new();
    chat.push(user("question"));
    chat.push(assistant("first answer"));
    chat.push(user("follow up"));
    let created = chat.next(1, Message::empty_from_char());
    assert!(created);
    assert_eq!(path(&chat), turns(&[(OwnerType::User, "question"), (OwnerType::Char, "")]));
    assert_eq!(row_numbers(&chat.create_column_view()), vec![(1, 1), (2, 2)]);
    chat.previous(1);
    assert_eq!(
        path(&chat),
        turns(&[
            (OwnerType::User, "question"),
            (OwnerType::Char, "first answer"),
            (OwnerType::User, "follow up"),
        ])
    );
    assert_eq!(row_numbers(&chat.create_column_view()), vec![(1, 1), (1, 2), (1, 1)]);
}

#[test]
fn next_adds_the_message_it_is_given() {
    let mut chat = Chat::new();
    chat.push(user("one"));
    assert!(chat.next(0, user("other")));
    assert_eq!(path(&chat), turns(&[(OwnerType::User, "other")]));
    assert_eq!(row_numbers(&chat.create_column_view()), vec![(2, 2)]);
}

#[test]
fn next_then_next_again_creates_each_time_at_the_end() {
    let mut chat = Chat::new();
    chat.push(user("a"));
    assert!(chat.next(0, assistant("b")));
    assert!(chat.next(0, assistant("c")));
    assert_eq!(row_numbers(&chat.create_column_view()), vec![(3, 3)]);
    chat.previous(0);
    chat.previous(0);
    assert_eq!(path(&chat), turns(&[(OwnerType::User, "a")]));
    assert!(!chat.next(0, assistant("d")));
    assert_eq!(path(&chat), turns(&[(OwnerType::Char, "b")]));
    assert_eq!(row_numbers(&chat.create_column_view()), vec![(2, 3)]);
}

#[test]
fn previous_at_first_changes_nothing() {
    let mut chat = greeted(&["Hi!", "Hey there!"]);
    chat.previous(0);
    assert_eq!(path(&chat), turns(&[(OwnerType::Char, "Hi!")]));
    assert_eq!(row_numbers(&chat.create_column_view()), vec![(1, 2)]);
    chat.previous(0);
    assert_eq!(row_numbers(&chat.create_column_view()), vec![(1, 2)]);
}

#[test]
fn previous_does_not_wrap_around() {
    let mut chat = greeted(&["Hi!", "Hey there!", "Yo"]);
    assert!(!chat.next(0, Message::empty_from_char()));
    assert!(!chat.next(0, Message::empty_from_char()));
    assert_eq!(path(&chat), turns(&[(OwnerType::Char, "Yo")]));
    chat.previous(0);
    chat.previous(0);
    chat.previous(0);
    chat.previous(0);
    assert_eq!(path(&chat), turns(&[(OwnerType::Char, "Hi!")]));
}

#[test]
fn commands_beyond_the_path_change_nothing() {
    let mut chat = Chat::new();
    chat.push(user("a"));
    chat.push(assistant("b"));
    assert!(!chat.next(2, Message::empty_from_char()));
    assert!(!chat.next(7, Message::empty_from_char()));
    chat.previous(2);
    assert!(!chat.toggle_edit(2));
    chat.abort_edit(5);
    chat.delete(2);
    assert_eq!(path(&chat), turns(&[(OwnerType::User, "a"), (OwnerType::Char, "b")]));
    assert_eq!(row_numbers(&chat.create_column_view()), vec![(1, 1), (1, 1)]);
    let mut empty = Chat::new();
    assert!(!empty.next(0, Message::empty_from_char()));
    assert!(!empty.toggle_edit(0));
    empty.previous(0);
    empty.abort_edit(0);
    empty.delete(0);
    assert!(empty.get_current_chat().is_empty());
}

#[test]
fn toggle_edit_seeds_the_buffer_with_the_text() {
    let mut chat = Chat::new();
    chat.push(user("hello"));
    assert!(!chat.toggle_edit(0));
    let rows = chat.create_column_view();
    assert_eq!(rows.len(), 1);
    assert_eq!(rows[0].draft, Some("hello".to_string()));
    assert_eq!(rows[0].message.text, "hello");
    assert_eq!(path(&chat), turns(&[(OwnerType::User, "hello")]));
}

#[test]
fn toggle_then_abort_restores_the_path() {
    let mut chat = Chat::new();
    chat.push(user("question"));
    chat.push(assistant("hello"));
    let before = path(&chat);
    assert!(!chat.toggle_edit(1));
    type_text(&mut chat, 1, "abc");
    chat.abort_edit(1);
    assert_eq!(path(&chat), before);
    let rows = chat.create_column_view();
    assert_eq!(rows[1].draft, None);
    assert_eq!(row_numbers(&rows), vec![(1, 1), (1, 1)]);
}

#[test]
fn abort_without_edit_changes_nothing() {
    let mut chat = Chat::new();
    chat.push(user("a"));
    chat.abort_edit(0);
    assert_eq!(path(&chat), turns(&[(OwnerType::User, "a")]));
    assert_eq!(chat.create_column_view()[0].draft, None);
}

#[test]
fn commit_forks_hello_into_world() {
    let mut chat = Chat::new();
    chat.push(user("question"));
    chat.push(assistant("hello"));
    assert!(!chat.toggle_edit(1));
    assert_eq!(chat.perform_action(1, EditAction::MoveEnd), Ok(()));
    for _ in 0..5 {
        assert_eq!(chat.perform_action(1, EditAction::Backspace), Ok(()));
    }
    type_text(&mut chat, 1, "world");
    assert_eq!(chat.create_column_view()[1].draft, Some("world".to_string()));
    let created = chat.toggle_edit(1);
    assert!(created);
    assert_eq!(path(&chat), turns(&[(OwnerType::User, "question"), (OwnerType::Char, "world")]));
    let rows = chat.create_column_view();
    assert_eq!(row_numbers(&rows), vec![(1, 1), (2, 2)]);
    assert_eq!(rows[1].draft, None);
    chat.previous(1);
    assert_eq!(path(&chat), turns(&[(OwnerType::User, "question"), (OwnerType::Char, "hello")]));
    assert_eq!(chat.create_column_view()[1].draft, None);
}

#[test]
fn commit_does_not_copy_the_continuation() {
    let mut chat = Chat::new();
    chat.push(user("first"));
    chat.push(assistant("answer"));
    chat.push(user("second"));
    assert!(!chat.toggle_edit(0));
    assert_eq!(chat.perform_action(0, EditAction::Replace("changed".to_string())), Ok(()));
    assert!(chat.toggle_edit(0));
    assert_eq!(path(&chat), turns(&[(OwnerType::User, "changed")]));
    chat.previous(0);
    assert_eq!(
        path(&chat),
        turns(&[
            (OwnerType::User, "first"),
            (OwnerType::Char, "answer"),
            (OwnerType::User, "second"),
        ])
    );
}

#[test]
fn perform_action_errors() {
    let mut empty = Chat::new();
    assert_eq!(empty.perform_action(0, EditAction::Insert('x')), Err(ChatError::NoActiveLeaf));
    assert_eq!(empty.perform_action(3, EditAction::Insert('x')), Err(ChatError::NoActiveLeaf));
    let mut chat = Chat::new();
    chat.push(user("a"));
    chat.push(assistant("b"));
    assert_eq!(chat.perform_action(2, EditAction::Insert('x')), Err(ChatError::InvalidDepth));
    assert_eq!(chat.perform_action(0, EditAction::Insert('x')), Err(ChatError::NoActiveLeaf));
    assert!(!chat.toggle_edit(1));
    assert_eq!(chat.perform_action(0, EditAction::Insert('x')), Err(ChatError::NoActiveLeaf));
    assert_eq!(chat.perform_action(1, EditAction::Insert('x')), Ok(()));
    assert_eq!(chat.create_column_view()[1].draft, Some("xb".to_string()));
    assert_eq!(path(&chat), turns(&[(OwnerType::User, "a"), (OwnerType::Char, "b")]));
}

#[test]
fn delete_removes_the_shown_alternative() {
    let mut chat = greeted(&["one", "two", "three"]);
    assert!(!chat.next(0, Message::empty_from_char()));
    chat.delete(0);
    assert_eq!(path(&chat), turns(&[(OwnerType::Char, "three")]));
    assert_eq!(row_numbers(&chat.create_column_view()), vec![(2, 2)]);
    chat.delete(0);
    assert_eq!(path(&chat), turns(&[(OwnerType::Char, "one")]));
    assert_eq!(row_numbers(&chat.create_column_view()), vec![(1, 1)]);
    chat.delete(0);
    assert!(chat.get_current_chat().is_empty());
    chat.push(user("again"));
    assert_eq!(path(&chat), turns(&[(OwnerType::User, "again")]));
}

#[test]
fn delete_takes_the_continuation_along() {
    let mut chat = Chat::new();
    chat.push(user("a"));
    chat.push(assistant("b"));
    chat.push(user("c"));
    chat.delete(1);
    assert_eq!(path(&chat), turns(&[(OwnerType::User, "a")]));
    chat.push(assistant("new"));
    assert_eq!(path(&chat), turns(&[(OwnerType::User, "a"), (OwnerType::Char, "new")]));
}

#[test]
fn push_after_branching_goes_to_the_selected_branch() {
    let mut chat = Chat::new();
    chat.push(user("a"));
    chat.push(assistant("b"));
    assert!(chat.next(1, assistant("b2")));
    chat.push(user("c"));
    assert_eq!(
        path(&chat),
        turns(&[(OwnerType::User, "a"), (OwnerType::Char, "b2"), (OwnerType::User, "c")])
    );
    chat.previous(1);
    assert_eq!(path(&chat), turns(&[(OwnerType::User, "a"), (OwnerType::Char, "b")]));
}

#[test]
fn copies_of_messages_carry_no_edit_buffer() {
    let mut chat = Chat::new();
    chat.push(user("a"));
    assert!(!chat.toggle_edit(0));
    let messages = chat.get_current_chat();
    assert!(messages[0].editing.is_none());
    let copy = messages[0].clone();
    assert_eq!(copy.text, "a");
    assert_eq!(copy.owner_type, OwnerType::User);
}

#[test]
fn revising_is_seen_on_and_off_the_active_path() {
    let mut chat = Chat::new();
    assert!(!chat.is_revising());
    chat.push(user("a"));
    chat.push(assistant("b"));
    assert!(!chat.is_revising());
    assert!(!chat.toggle_edit(1));
    assert!(chat.is_revising());
    chat.abort_edit(1);
    assert!(!chat.is_revising());
    assert!(!chat.toggle_edit(0));
    assert!(chat.next(0, user("other")));
    assert_eq!(path(&chat), turns(&[(OwnerType::User, "other")]));
    assert!(chat.is_revising());
    chat.previous(0);
    assert!(chat.toggle_edit(0));
    assert!(!chat.is_revising());
    assert_eq!(row_numbers(&chat.create_column_view()), vec![(3, 3)]);
}
