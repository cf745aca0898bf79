//! One message of a conversation: who wrote it, its text, and the edit
//! buffer it carries while it is being revised.

use crate::backend::{
    assistant_chat_message, build_assistant_message, build_user_message, user_chat_message,
};
use crate::edit::{EditBuffer, EditState};
use crate::text::{trim, trimmed};
use llm::chat::ChatMessage;
use vstd::prelude::*;

verus! {

/// Who wrote a message.
#[derive(Clone, Copy, Debug, PartialEq, Eq, Structural)]
pub enum OwnerType {
    /// The person at the keyboard.
    User,
    /// The character played by the backend.
    Char,
}

/// One message of the conversation.
#[derive(Debug)]
pub struct Message {
    pub owner_type: OwnerType,
    pub text: String,
    /// Present while the message is being revised.
    pub editing: Option<EditBuffer>,
}

/// A message as a mathematical value.
pub struct MessageView {
    pub owner_type: OwnerType,
    pub text: Seq<char>,
    pub editing: Option<EditState>,
}

impl MessageView {
    /// The edit buffer, if there is one, has its cursor inside its text.
    pub open spec fn wf(self) -> bool {
        self.editing matches Some(buffer) ==> buffer.wf()
    }

    /// The message without its edit buffer.
    pub open spec fn committed(self) -> MessageView {
        MessageView { owner_type: self.owner_type, text: self.text, editing: None }
    }

    /// A message of `owner_type` with `text` that is not being revised.
    pub open spec fn plain(owner_type: OwnerType, text: Seq<char>) -> MessageView {
        MessageView { owner_type, text, editing: None }
    }

    /// What the backend is sent for this message.
    pub open spec fn chat_message(self) -> ChatMessage {
        match self.owner_type {
            OwnerType::User => user_chat_message(self.text),
            OwnerType::Char => assistant_chat_message(self.text),
        }
    }
}

impl View for Message {
    type V = MessageView;

    open spec fn view(&self) -> MessageView {
        MessageView {
            owner_type: self.owner_type,
            text: self.text@,
            editing: match self.editing {
                Some(buffer) => Some(buffer@),
                None => None,
            },
        }
    }
}

/// The values of a sequence of messages, one for one.
pub open spec fn views_of(messages: Seq<Message>) -> Seq<MessageView> {
    Seq::new(messages.len(), |i: int| messages[i]@)
}

/// The sequence without the edit buffers.
pub open spec fn committed_all(messages: Seq<MessageView>) -> Seq<MessageView> {
    Seq::new(messages.len(), |i: int| messages[i].committed())
}

/// What the backend is sent for a sequence of messages, one for one.
pub open spec fn chat_messages_of(messages: Seq<MessageView>) -> Seq<ChatMessage> {
    Seq::new(messages.len(), |i: int| messages[i].chat_message())
}

impl Clone for Message {
    /// A copy keeps the author and the text; it is never under revision.
    fn clone(&self) -> (copy: Self)
        ensures
            copy@ == self@.committed(),
    {
        Message { owner_type: self.owner_type, text: self.text.clone(), editing: None }
    }
}

impl Message {
    /// A message of the user, with the text as given.
    pub fn from_user(text: String) -> (message: Message)
        ensures
            message@ == MessageView::plain(OwnerType::User, text@),
    {
        Message { owner_type: OwnerType::User, text, editing: None }
    }

    /// A message of the character: the text without the whitespace around it.
    pub fn from_char(text: String) -> (message: Message)
        ensures
            message@ == MessageView::plain(OwnerType::Char, trimmed(text@)),
    {
        Message { owner_type: OwnerType::Char, text: trim(text.as_str()), editing: None }
    }

    /// The empty message of the character that a reply is streamed into.
    pub fn empty_from_char() -> (message: Message)
        ensures
            message@ == MessageView::plain(OwnerType::Char, Seq::empty()),
    {
        Message { owner_type: OwnerType::Char, text: String::new(), editing: None }
    }

    /// The message as the backend takes it: the author becomes the role, the
    /// text the content.
    pub fn to_chat_message(&self) -> (m: ChatMessage)
        ensures
            m == self@.chat_message(),
    {
        match self.owner_type {
            OwnerType::User => build_user_message(self.text.as_str()),
            OwnerType::Char => build_assistant_message(self.text.as_str()),
        }
    }
}

} // verus!
