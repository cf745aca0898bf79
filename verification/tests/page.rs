use fullmoon::application::{App, AppCommand, AppTask, CharSelectorPage};
use fullmoon::chat::ChatError;
use fullmoon::chat_page::{
    from_key_press, ChatCommand, ChatPage, ChatTask, InputBinding, MessageCommand,
};
use fullmoon::edit::EditAction;
use fullmoon::message::{Message, OwnerType};
use fullmoon::persona::{Basic, Card, Persona};
use llm::chat::{ChatMessage, ChatRole, MessageType};

fn history(messages: &[ChatMessage]) -> Vec<(ChatRole, String)> {
    messages.iter().map(|m| (m.role.clone(), m.content.clone())).collect()
}

fn path(page: &ChatPage) -> Vec<(OwnerType, String)> {
    page.chat().get_current_chat().into_iter().map(|m| (m.owner_type, m.text)).collect()
}

fn type_input(page: &mut ChatPage, text: &str) {
    for c in text.chars() {
        assert!(matches!(page.update(ChatCommand::InputChange(EditAction::Insert(c))), ChatTask::Idle));
    }
}

fn luna(greetings: &[&str]) -> Persona {
    Persona::new(
        Card::new("Luna", "A friend.", greetings.iter().map(|g| g.to_string()).collect()),
        None,
    )
}

#[test]
fn to_chat_message_keeps_role_and_text() {
    let m = Message::from_user("hello there".to_string()).to_chat_message();
    assert_eq!(m.role, ChatRole::User);
    assert_eq!(m.content, "hello there");
    assert_eq!(m.message_type, MessageType::Text);
    let m = Message::from_char("  hi  ".to_string()).to_chat_message();
    assert_eq!(m.role, ChatRole::Assistant);
    assert_eq!(m.content, "hi");
    assert_eq!(m.message_type, MessageType::Text);
    let m = Message::empty_from_char().to_chat_message();
    assert_eq!(m.role, ChatRole::Assistant);
    assert_eq!(m.content, "");
}

#[test]
fn message_constructors() {
    let m = Message::from_user("  kept as is ".to_string());
    assert_eq!(m.owner_type, OwnerType::User);
    assert_eq!(m.text, "  kept as is ");
    assert!(m.editing.is_none());
    let m = Message::from_char("\n trimmed \t".to_string());
    assert_eq!(m.owner_type, OwnerType::Char);
    assert_eq!(m.text, "trimmed");
    let m = Message::empty_from_char();
    assert_eq!(m.owner_type, OwnerType::Char);
    assert_eq!(m.text, "");
}

#[test]
fn default_page_is_empty() {
    let page = ChatPage::default();
    assert!(page.chat().get_current_chat().is_empty());
    assert_eq!(page.input_text(), "");
    assert_eq!(page.title(), "User's chat with Luna");
    assert_eq!(page.character().get_name(), "Luna");
    assert_eq!(page.user().get_name(), "User");
}

#[test]
fn new_page_opens_with_greetings() {
    let page = ChatPage::new(luna(&["Hi {{user}}!", "Hey"]), Persona::new(Basic::new("Sam", ""), None));
    assert_eq!(path(&page), vec![(OwnerType::Char, "Hi Sam!".to_string())]);
    assert_eq!(page.title(), "Sam's chat with Luna");
}

#[test]
fn submit_pushes_trimmed_input_and_asks_for_the_next_message() {
    let mut page = ChatPage::default();
    type_input(&mut page, "  hello  ");
    assert_eq!(page.input_text(), "  hello  ");
    assert!(matches!(page.update(ChatCommand::InputSubmit), ChatTask::GenerateNext));
    assert_eq!(path(&page), vec![(OwnerType::User, "hello".to_string())]);
    assert_eq!(page.input_text(), "");
}

#[test]
fn submit_of_blank_input_pushes_nothing() {
    let mut page = ChatPage::default();
    type_input(&mut page, "   ");
    assert!(matches!(page.update(ChatCommand::InputSubmit), ChatTask::GenerateNext));
    assert!(page.chat().get_current_chat().is_empty());
    assert_eq!(page.input_text(), "   ");
}

#[test]
fn generate_sends_history_and_adds_a_placeholder() {
    let mut page = ChatPage::new(luna(&["Hi!"]), Persona::default_user());
    type_input(&mut page, "how are you");
    page.update(ChatCommand::InputSubmit);
    match page.update(ChatCommand::GenerateNextMessage) {
        ChatTask::Respond(messages) => assert_eq!(
            history(&messages),
            vec![
                (ChatRole::Assistant, "Hi!".to_string()),
                (ChatRole::User, "how are you".to_string()),
            ]
        ),
        other => panic!("unexpected task {:?}", other),
    }
    assert_eq!(
        path(&page),
        vec![
            (OwnerType::Char, "Hi!".to_string()),
            (OwnerType::User, "how are you".to_string()),
            (OwnerType::Char, String::new()),
        ]
    );
    assert!(matches!(page.update(ChatCommand::StreamOk("Fi".to_string())), ChatTask::Idle));
    assert!(matches!(page.update(ChatCommand::StreamOk("ne.".to_string())), ChatTask::Idle));
    assert_eq!(path(&page)[2], (OwnerType::Char, "Fine.".to_string()));
}

#[test]
fn stream_into_empty_chat_is_reported() {
    let mut page = ChatPage::default();
    assert!(matches!(
        page.update(ChatCommand::StreamOk("lost".to_string())),
        ChatTask::Report(ChatError::NoActiveLeaf)
    ));
    assert!(page.chat().get_current_chat().is_empty());
}

#[test]
fn next_at_the_end_asks_for_an_answer_to_what_came_before() {
    let mut page = ChatPage::default();
    type_input(&mut page, "question");
    page.update(ChatCommand::InputSubmit);
    page.update(ChatCommand::GenerateNextMessage);
    page.update(ChatCommand::StreamOk("answer".to_string()));
    match page.update(ChatCommand::MessageCommand(MessageCommand::Next(1))) {
        ChatTask::Respond(messages) => {
            assert_eq!(history(&messages), vec![(ChatRole::User, "question".to_string())])
        }
        other => panic!("unexpected task {:?}", other),
    }
    assert_eq!(path(&page)[1], (OwnerType::Char, String::new()));
    assert!(matches!(
        page.update(ChatCommand::MessageCommand(MessageCommand::Previous(1))),
        ChatTask::Idle
    ));
    assert_eq!(path(&page)[1], (OwnerType::Char, "answer".to_string()));
    assert!(matches!(
        page.update(ChatCommand::MessageCommand(MessageCommand::Next(1))),
        ChatTask::Idle
    ));
    assert_eq!(path(&page)[1], (OwnerType::Char, String::new()));
}

#[test]
fn edit_commands_through_the_page() {
    let mut page = ChatPage::default();
    type_input(&mut page, "helo");
    page.update(ChatCommand::InputSubmit);
    assert!(matches!(
        page.update(ChatCommand::MessageCommand(MessageCommand::EditAction(0, EditAction::MoveEnd))),
        ChatTask::Report(ChatError::NoActiveLeaf)
    ));
    assert!(matches!(
        page.update(ChatCommand::MessageCommand(MessageCommand::EditAction(4, EditAction::MoveEnd))),
        ChatTask::Report(ChatError::InvalidDepth)
    ));
    assert!(matches!(
        page.update(ChatCommand::MessageCommand(MessageCommand::ToggleEdit(0))),
        ChatTask::Idle
    ));
    assert!(matches!(
        page.update(ChatCommand::MessageCommand(MessageCommand::EditAction(
            0,
            EditAction::Replace("hello".to_string())
        ))),
        ChatTask::Idle
    ));
    assert!(matches!(
        page.update(ChatCommand::MessageCommand(MessageCommand::ToggleEdit(0))),
        ChatTask::GenerateNext
    ));
    assert_eq!(path(&page), vec![(OwnerType::User, "hello".to_string())]);
    assert!(matches!(
        page.update(ChatCommand::MessageCommand(MessageCommand::ToggleEdit(0))),
        ChatTask::Idle
    ));
    assert!(matches!(
        page.update(ChatCommand::MessageCommand(MessageCommand::AbortEdit(0))),
        ChatTask::Idle
    ));
    assert!(matches!(
        page.update(ChatCommand::MessageCommand(MessageCommand::Delete(0))),
        ChatTask::Idle
    ));
    assert_eq!(path(&page), vec![(OwnerType::User, "helo".to_string())]);
}

#[test]
fn set_char_starts_a_new_chat() {
    let mut page = ChatPage::default();
    type_input(&mut page, "old");
    page.update(ChatCommand::InputSubmit);
    page.set_char(luna(&["Welcome, {{user}}."]));
    assert_eq!(path(&page), vec![(OwnerType::Char, "Welcome, User.".to_string())]);
    assert_eq!(page.character().get_name(), "Luna");
    type_input(&mut page, "x");
    page.update(ChatCommand::InputSubmit);
    page.new_chat();
    assert_eq!(path(&page), vec![(OwnerType::Char, "Welcome, User.".to_string())]);
}

#[test]
fn app_shows_an_error_until_it_is_dismissed() {
    let mut app = App::new(ChatPage::default());
    app.update(AppCommand::ChatCommand(ChatCommand::InputChange(EditAction::Insert('q'))));
    app.update(AppCommand::ChatCommand(ChatCommand::InputSubmit));
    app.update(AppCommand::ChatCommand(ChatCommand::GenerateNextMessage));
    app.update(AppCommand::ChatCommand(ChatCommand::StreamOk("part".to_string())));
    assert!(app.error().is_none());
    assert!(matches!(app.update(AppCommand::Error("stream broke".to_string())), AppTask::DismissLater));
    assert_eq!(app.error(), &Some("stream broke".to_string()));
    assert_eq!(
        path(app.chat_page()),
        vec![(OwnerType::User, "q".to_string()), (OwnerType::Char, "part".to_string())]
    );
    assert!(matches!(app.update(AppCommand::DismissError), AppTask::Idle));
    assert!(app.error().is_none());
}

#[test]
fn app_toggles_settings_and_characters() {
    let mut app = App::new(ChatPage::default());
    assert!(!app.show_settings());
    assert!(matches!(app.update(AppCommand::ToggleSettings), AppTask::Idle));
    assert!(app.show_settings());
    assert!(matches!(app.update(AppCommand::ToggleSettings), AppTask::Idle));
    assert!(!app.show_settings());
    assert!(app.char_selector_page().is_none());
    assert!(matches!(app.update(AppCommand::ToggleChars), AppTask::LoadChars));
    assert!(app.char_selector_page().is_none());
    let list = vec![Persona::default_char(), luna(&["Hello!"])];
    assert!(matches!(app.update(AppCommand::CharsLoaded(list)), AppTask::Idle));
    assert_eq!(app.char_selector_page().as_ref().map(|l| l.len()), Some(2));
    assert!(matches!(app.update(AppCommand::SelectedChar(5)), AppTask::Idle));
    assert!(app.chat_page().chat().get_current_chat().is_empty());
    assert!(matches!(app.update(AppCommand::SelectedChar(1)), AppTask::Idle));
    assert_eq!(path(app.chat_page()), vec![(OwnerType::Char, "Hello!".to_string())]);
    assert_eq!(app.char_selector_page().as_ref().map(|l| l.len()), Some(2));
    assert!(matches!(app.update(AppCommand::ToggleChars), AppTask::Idle));
    assert!(app.char_selector_page().is_none());
    assert!(matches!(app.update(AppCommand::SelectedChar(0)), AppTask::Idle));
    assert_eq!(path(app.chat_page()), vec![(OwnerType::Char, "Hello!".to_string())]);
}

#[test]
fn app_passes_chat_tasks_on() {
    let mut app = App::new(ChatPage::default());
    assert!(matches!(
        app.update(AppCommand::ChatCommand(ChatCommand::InputSubmit)),
        AppTask::Chat(ChatTask::GenerateNext)
    ));
    match app.update(AppCommand::ChatCommand(ChatCommand::GenerateNextMessage)) {
        AppTask::Chat(ChatTask::Respond(messages)) => assert!(messages.is_empty()),
        other => panic!("unexpected task {:?}", other),
    }
}

#[test]
fn stream_failure_is_reported_and_keeps_the_partial_answer() {
    let mut page = ChatPage::default();
    type_input(&mut page, "q");
    page.update(ChatCommand::InputSubmit);
    page.update(ChatCommand::GenerateNextMessage);
    page.update(ChatCommand::StreamOk("half an".to_string()));
    match page.update(ChatCommand::StreamFailed("connection lost".to_string())) {
        ChatTask::Report(error) => {
            assert_eq!(error, ChatError::GenerationFailed("connection lost".to_string()))
        }
        other => panic!("unexpected task {:?}", other),
    }
    assert_eq!(
        path(&page),
        vec![(OwnerType::User, "q".to_string()), (OwnerType::Char, "half an".to_string())]
    );
}

#[test]
fn app_shows_what_the_page_reports() {
    let mut app = App::new(ChatPage::default());
    assert!(matches!(
        app.update(AppCommand::ChatCommand(ChatCommand::StreamOk("lost".to_string()))),
        AppTask::DismissLater
    ));
    assert_eq!(app.error(), &Some("There is no message to work on.".to_string()));
    assert!(matches!(app.update(AppCommand::DismissError), AppTask::Idle));
    assert!(matches!(
        app.update(AppCommand::ChatCommand(ChatCommand::StreamFailed("timeout".to_string()))),
        AppTask::DismissLater
    ));
    assert_eq!(
        app.error(),
        &Some("The answer could not be generated: timeout".to_string())
    );
}

#[test]
fn errors_describe_themselves() {
    assert_eq!(ChatError::NoActiveLeaf.describe(), "There is no message to work on.");
    assert_eq!(
        ChatError::InvalidDepth.describe(),
        "The conversation has no message at that place."
    );
    assert_eq!(
        ChatError::GenerationFailed("boom".to_string()).describe(),
        "The answer could not be generated: boom"
    );
}

#[test]
fn enter_key_in_the_input_line() {
    assert_eq!(from_key_press(true, true, false), InputBinding::Submit);
    assert_eq!(from_key_press(true, true, true), InputBinding::Enter);
    assert_eq!(from_key_press(false, true, false), InputBinding::Standard);
    assert_eq!(from_key_press(false, true, true), InputBinding::Standard);
    assert_eq!(from_key_press(true, false, false), InputBinding::Standard);
    assert_eq!(from_key_press(true, false, true), InputBinding::Standard);
}

#[test]
fn selector_page_hands_out_copies() {
    let page = CharSelectorPage::new(vec![Persona::default_char(), luna(&["Hello!"])]);
    assert_eq!(page.len(), 2);
    assert_eq!(page.chars().len(), 2);
    assert_eq!(page.get(0).get_name(), "Luna");
    assert_eq!(page.get(1).get_description(), "A friend.");
    let empty = CharSelectorPage::new(Vec::new());
    assert_eq!(empty.len(), 0);
}
