//! The message type of the generation backend, and the two calls that build
//! one.

use llm::chat::ChatMessage;
use vstd::prelude::*;

verus! {

/// `llm::chat::ChatMessage`, one entry of the history sent to the backend.
#[verifier::external_type_specification]
#[verifier::external_body]
pub struct ExChatMessage(llm::chat::ChatMessage);

/// The backend message that `ChatMessage::user()` builds for a content: role
/// user, type text, and that content.
pub uninterp spec fn user_chat_message(content: Seq<char>) -> ChatMessage;

/// The backend message that `ChatMessage::assistant()` builds for a content:
/// role assistant, type text, and that content.
pub uninterp spec fn assistant_chat_message(content: Seq<char>) -> ChatMessage;

/// Calls `ChatMessage::user()`, sets the content and builds. The builder
/// stores the role, the default message type and the content as given, so the
/// result depends on the content alone; it is what `user_chat_message` names.
#[verifier::external_body]
pub(crate) fn build_user_message(content: &str) -> (m: ChatMessage)
    ensures
        m == user_chat_message(content@),
{
    ChatMessage::user().content(content).build()
}

/// Calls `ChatMessage::assistant()`, sets the content and builds. The builder
/// stores the role, the default message type and the content as given, so the
/// result depends on the content alone; it is what `assistant_chat_message`
/// names.
#[verifier::external_body]
pub(crate) fn build_assistant_message(content: &str) -> (m: ChatMessage)
    ensures
        m == assistant_chat_message(content@),
{
    ChatMessage::assistant().content(content).build()
}

} // verus!
