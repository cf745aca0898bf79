//! The conversation as it is driven from outside: commands come in one at a
//! time, each changes the conversation and the input line, and each says
//! what has to be done next.

use crate::chat::{edit_outcome, Chat, ChatError, ChatErrorView};
use crate::edit::{EditAction, EditActionView, EditBuffer, EditState};
use crate::message::{chat_messages_of, Message, MessageView, OwnerType};
use crate::persona::{CharData, Persona};
use crate::text::{trim, trimmed};
use crate::tree::{Level, LevelOp};
use llm::chat::ChatMessage;
use vstd::prelude::*;

verus! {

/// A command on the message at some depth of the active path.
#[derive(Debug)]
pub enum MessageCommand {
    /// Show the next alternative, or ask for a new one.
    Next(usize),
    /// Show the previous alternative.
    Previous(usize),
    /// Start revising the message, or commit the revision.
    ToggleEdit(usize),
    /// Drop the revision.
    AbortEdit(usize),
    /// Edit the revision.
    EditAction(usize, EditAction),
    /// Remove the alternative that is shown.
    Delete(usize),
}

/// A command on the conversation.
#[derive(Debug)]
pub enum ChatCommand {
    /// Edit the input line.
    InputChange(EditAction),
    /// Send what the input line holds.
    InputSubmit,
    /// Ask the backend for the next message.
    GenerateNextMessage,
    /// A piece of the answer has arrived.
    StreamOk(String),
    /// The backend has failed in the middle of an answer, and said this.
    StreamFailed(String),
    /// A command on one message.
    MessageCommand(MessageCommand),
}

/// What has to be done after a command.
#[derive(Debug)]
pub enum ChatTask {
    /// Nothing.
    Idle,
    /// Give the command `GenerateNextMessage`.
    GenerateNext,
    /// Ask the backend for an answer to this history, and give each piece
    /// that arrives as `StreamOk`.
    Respond(Vec<ChatMessage>),
    /// Tell the user that the command could not be carried out.
    Report(ChatError),
}

/// A message command as a mathematical value.
pub enum MessageCommandView {
    Next(nat),
    Previous(nat),
    ToggleEdit(nat),
    AbortEdit(nat),
    EditAction(nat, EditActionView),
    Delete(nat),
}

/// A command as a mathematical value.
pub enum ChatCommandView {
    InputChange(EditActionView),
    InputSubmit,
    GenerateNextMessage,
    StreamOk(Seq<char>),
    StreamFailed(Seq<char>),
    MessageCommand(MessageCommandView),
}

/// A task as a mathematical value.
pub enum ChatTaskView {
    Idle,
    GenerateNext,
    Respond(Seq<ChatMessage>),
    Report(ChatErrorView),
}

impl View for MessageCommand {
    type V = MessageCommandView;

    open spec fn view(&self) -> MessageCommandView {
        match *self {
            MessageCommand::Next(idx) => MessageCommandView::Next(idx as nat),
            MessageCommand::Previous(idx) => MessageCommandView::Previous(idx as nat),
            MessageCommand::ToggleEdit(idx) => MessageCommandView::ToggleEdit(idx as nat),
            MessageCommand::AbortEdit(idx) => MessageCommandView::AbortEdit(idx as nat),
            MessageCommand::EditAction(idx, action) => MessageCommandView::EditAction(
                idx as nat,
                action@,
            ),
            MessageCommand::Delete(idx) => MessageCommandView::Delete(idx as nat),
        }
    }
}

impl View for ChatCommand {
    type V = ChatCommandView;

    open spec fn view(&self) -> ChatCommandView {
        match *self {
            ChatCommand::InputChange(action) => ChatCommandView::InputChange(action@),
            ChatCommand::InputSubmit => ChatCommandView::InputSubmit,
            ChatCommand::GenerateNextMessage => ChatCommandView::GenerateNextMessage,
            ChatCommand::StreamOk(text) => ChatCommandView::StreamOk(text@),
            ChatCommand::StreamFailed(said) => ChatCommandView::StreamFailed(said@),
            ChatCommand::MessageCommand(command) => ChatCommandView::MessageCommand(command@),
        }
    }
}

impl View for ChatTask {
    type V = ChatTaskView;

    open spec fn view(&self) -> ChatTaskView {
        match *self {
            ChatTask::Idle => ChatTaskView::Idle,
            ChatTask::GenerateNext => ChatTaskView::GenerateNext,
            ChatTask::Respond(history) => ChatTaskView::Respond(history@),
            ChatTask::Report(error) => ChatTaskView::Report(error@),
        }
    }
}

/// The message that an answer is streamed into: an empty one of the
/// character.
pub open spec fn placeholder() -> MessageView {
    MessageView::plain(OwnerType::Char, Seq::empty())
}

/// The conversation after a command, given what the input line holds.
pub open spec fn chat_after(chat: Level, input: EditState, command: ChatCommandView) -> Level {
    match command {
        ChatCommandView::InputChange(_) => chat,
        ChatCommandView::InputSubmit => if trimmed(input.text).len() > 0 {
            chat.pushed(MessageView::plain(OwnerType::User, trimmed(input.text)))
        } else {
            chat
        },
        ChatCommandView::GenerateNextMessage => chat.pushed(placeholder()),
        ChatCommandView::StreamOk(text) => chat.appended(text),
        ChatCommandView::StreamFailed(_) => chat,
        ChatCommandView::MessageCommand(command) => match command {
            MessageCommandView::Next(idx) => chat.apply_at(idx, LevelOp::Next(placeholder())),
            MessageCommandView::Previous(idx) => chat.apply_at(idx, LevelOp::Previous),
            MessageCommandView::ToggleEdit(idx) => chat.apply_at(idx, LevelOp::ToggleEdit),
            MessageCommandView::AbortEdit(idx) => chat.apply_at(idx, LevelOp::AbortEdit),
            MessageCommandView::EditAction(idx, action) => chat.apply_at(
                idx,
                LevelOp::Edit(action),
            ),
            MessageCommandView::Delete(idx) => chat.apply_at(idx, LevelOp::Remove),
        },
    }
}

/// The input line after a command.
pub open spec fn input_after(input: EditState, command: ChatCommandView) -> EditState {
    match command {
        ChatCommandView::InputChange(action) => input.apply(action),
        ChatCommandView::InputSubmit => if trimmed(input.text).len() > 0 {
            EditState::fresh(Seq::empty())
        } else {
            input
        },
        _ => input,
    }
}

/// What has to be done after a command.
///
/// Sending the input line is always followed by asking for the next message.
/// Asking for the next message sends the backend the conversation as it was
/// before the empty message for the answer was added. Asking for a new
/// alternative at a depth sends the messages before that depth. Committing a
/// revision is followed by asking for the next message. A piece of an answer
/// that finds no message, an editing action that finds no revision, and a
/// failure of the backend are reported.
pub open spec fn task_after(chat: Level, command: ChatCommandView) -> ChatTaskView {
    match command {
        ChatCommandView::InputChange(_) => ChatTaskView::Idle,
        ChatCommandView::InputSubmit => ChatTaskView::GenerateNext,
        ChatCommandView::GenerateNextMessage => ChatTaskView::Respond(
            chat_messages_of(chat.transcript()),
        ),
        ChatCommandView::StreamOk(_) => if chat.nodes.len() == 0 {
            ChatTaskView::Report(ChatErrorView::NoActiveLeaf)
        } else {
            ChatTaskView::Idle
        },
        ChatCommandView::StreamFailed(said) => ChatTaskView::Report(
            ChatErrorView::GenerationFailed(said),
        ),
        ChatCommandView::MessageCommand(command) => match command {
            MessageCommandView::Next(idx) => if chat.creates_at(
                idx,
                LevelOp::Next(placeholder()),
            ) {
                ChatTaskView::Respond(
                    chat_messages_of(
                        chat.apply_at(idx, LevelOp::Next(placeholder())).transcript_until(idx),
                    ),
                )
            } else {
                ChatTaskView::Idle
            },
            MessageCommandView::ToggleEdit(idx) => if chat.creates_at(idx, LevelOp::ToggleEdit) {
                ChatTaskView::GenerateNext
            } else {
                ChatTaskView::Idle
            },
            MessageCommandView::EditAction(idx, _) => match edit_outcome(chat, idx) {
                Ok(_) => ChatTaskView::Idle,
                Err(error) => ChatTaskView::Report(error@),
            },
            _ => ChatTaskView::Idle,
        },
    }
}

/// What a key does in the input line.
#[derive(Clone, Copy, Debug, PartialEq, Eq, Structural)]
pub enum InputBinding {
    /// Start a new line.
    Enter,
    /// Send what the line holds.
    Submit,
    /// What the key does in any text.
    Standard,
}

/// What a key does in the input line: while the line has the focus, the
/// enter key sends the line, and with shift held it starts a new line; every
/// other key does what it does in any text.
pub fn from_key_press(focused: bool, enter: bool, shift: bool) -> (binding: InputBinding)
    ensures
        binding == (if focused && enter {
            if shift {
                InputBinding::Enter
            } else {
                InputBinding::Submit
            }
        } else {
            InputBinding::Standard
        }),
{
    if focused && enter {
        return match shift {
            true => InputBinding::Enter,
            false => InputBinding::Submit,
        };
    }
    InputBinding::Standard
}

/// A conversation between a character and a user, with the line in which
/// the user writes.
pub struct ChatPage {
    chat: Chat,
    input_message: EditBuffer,
    char: Persona,
    user: Persona,
}

impl ChatPage {
    /// The conversation.
    pub closed spec fn chat_view(&self) -> Level {
        self.chat@
    }

    /// The input line.
    pub closed spec fn input_view(&self) -> EditState {
        self.input_message@
    }

    /// The character.
    pub closed spec fn char_view(&self) -> Persona {
        self.char
    }

    /// The user.
    pub closed spec fn user_view(&self) -> Persona {
        self.user
    }

    /// The conversation and the input line are well formed.
    pub open spec fn wf(&self) -> bool {
        self.chat_view().wf() && self.input_view().wf()
    }

    /// A page for a conversation of `char` with `user`: it opens with the
    /// greetings of the character, and the input line is empty.
    pub fn new(char: Persona, user: Persona) -> (page: ChatPage)
        ensures
            page.wf(),
            page.chat_view() == Level::seeded(
                crate::chat::greeting_messages(char.greetings_view(Some(user.name_view()))),
            ),
            page.input_view() == EditState::fresh(Seq::empty()),
            page.char_view() == char,
            page.user_view() == user,
    {
        ChatPage {
            input_message: EditBuffer::new(),
            chat: Chat::with_messages(&char, &user),
            char,
            user,
        }
    }

    /// Takes another character and starts a new conversation with it.
    pub fn set_char(&mut self, char: Persona)
        requires
            old(self).wf(),
        ensures
            final(self).wf(),
            final(self).chat_view() == Level::seeded(
                crate::chat::greeting_messages(
                    char.greetings_view(Some(old(self).user_view().name_view())),
                ),
            ),
            final(self).input_view() == old(self).input_view(),
            final(self).char_view() == char,
            final(self).user_view() == old(self).user_view(),
    {
        self.char = char;
        self.new_chat();
    }

    /// Starts a new conversation with the same character.
    pub fn new_chat(&mut self)
        requires
            old(self).wf(),
        ensures
            final(self).wf(),
            final(self).chat_view() == Level::seeded(
                crate::chat::greeting_messages(
                    old(self).char_view().greetings_view(Some(old(self).user_view().name_view())),
                ),
            ),
            final(self).input_view() == old(self).input_view(),
            final(self).char_view() == old(self).char_view(),
            final(self).user_view() == old(self).user_view(),
    {
        self.chat = Chat::with_messages(&self.char, &self.user);
    }

    /// The conversation, to read it.
    pub fn chat(&self) -> (chat: &Chat)
        ensures
            chat@ == self.chat_view(),
    {
        &self.chat
    }

    /// What the input line holds.
    pub fn input_text(&self) -> (text: String)
        ensures
            text@ == self.input_view().text,
    {
        self.input_message.text()
    }

    /// The character.
    pub fn character(&self) -> (character: &Persona)
        ensures
            *character == self.char_view(),
    {
        &self.char
    }

    /// The user.
    pub fn user(&self) -> (user: &Persona)
        ensures
            *user == self.user_view(),
    {
        &self.user
    }

    /// The title of the page: who talks with whom.
    pub fn title(&self) -> (title: String)
        ensures
            title@ == self.user_view().name_view() + "'s chat with "@
                + self.char_view().name_view(),
    {
        let mut title = CharData::name(&self.user).to_owned();
        title.push_str("'s chat with ");
        title.push_str(CharData::name(&self.char));
        title
    }

    /// Carries out one command and says what has to be done next.
    pub fn update(&mut self, chat_command: ChatCommand) -> (task: ChatTask)
        requires
            old(self).wf(),
        ensures
            final(self).wf(),
            final(self).chat_view() == chat_after(
                old(self).chat_view(),
                old(self).input_view(),
                chat_command@,
            ),
            final(self).input_view() == input_after(old(self).input_view(), chat_command@),
            task@ == task_after(old(self).chat_view(), chat_command@),
            final(self).char_view() == old(self).char_view(),
            final(self).user_view() == old(self).user_view(),
    {
        match chat_command {
            ChatCommand::InputChange(action) => {
                self.input_message.perform(action);
                ChatTask::Idle
            },
            ChatCommand::InputSubmit => {
                let text = trim(self.input_message.text().as_str());
                if !text.as_str().is_empty() {
                    self.chat.push(Message::from_user(text));
                    self.input_message = EditBuffer::new();
                }
                ChatTask::GenerateNext
            },
            ChatCommand::GenerateNextMessage => {
                let chat_history = self.chat.get_chat_messages();
                self.chat.push(Message::empty_from_char());
                ChatTask::Respond(chat_history)
            },
            ChatCommand::StreamOk(text) => {
                match self.chat.append_last_message(text.as_str()) {
                    Ok(_) => ChatTask::Idle,
                    Err(error) => ChatTask::Report(error),
                }
            },
            ChatCommand::StreamFailed(said) => ChatTask::Report(ChatError::GenerationFailed(said)),
            ChatCommand::MessageCommand(message_command) => match message_command {
                MessageCommand::Next(idx) => {
                    if self.chat.next(idx, Message::empty_from_char()) {
                        ChatTask::Respond(self.chat.get_chat_messages_until(idx))
                    } else {
                        ChatTask::Idle
                    }
                },
                MessageCommand::Previous(idx) => {
                    self.chat.previous(idx);
                    ChatTask::Idle
                },
                MessageCommand::ToggleEdit(idx) => {
                    if self.chat.toggle_edit(idx) {
                        ChatTask::GenerateNext
                    } else {
                        ChatTask::Idle
                    }
                },
                MessageCommand::AbortEdit(idx) => {
                    self.chat.abort_edit(idx);
                    ChatTask::Idle
                },
                MessageCommand::EditAction(idx, action) => {
                    match self.chat.perform_action(idx, action) {
                        Ok(_) => ChatTask::Idle,
                        Err(error) => ChatTask::Report(error),
                    }
                },
                MessageCommand::Delete(idx) => {
                    self.chat.delete(idx);
                    ChatTask::Idle
                },
            },
        }
    }
}

impl Default for ChatPage {
    /// A page for a conversation of the stock character with the stock
    /// user.
    fn default() -> (page: ChatPage)
        ensures
            page.wf(),
            page.chat_view() == Level::empty(),
            page.input_view() == EditState::fresh(Seq::empty()),
    {
        ChatPage {
            input_message: EditBuffer::new(),
            chat: Chat::default(),
            char: Persona::default_char(),
            user: Persona::default_user(),
        }
    }
}

} // verus!
