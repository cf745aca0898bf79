//! A conversation with alternatives at every turn, and what goes on around
//! it in a chat client: the messages and their edit buffers, the personas
//! of the two sides, the commands that drive a conversation, and the way a
//! message is prepared for display.
//!
//! The conversation is specified over a mathematical model (`tree`), the
//! operations of the store (`chat`) are proved against it, and `laws` holds
//! what follows for every conversation.

use vstd::prelude::*;

pub mod application;
pub mod backend;
pub mod chat;
pub mod chat_page;
pub mod edit;
pub mod formater;
pub mod laws;
pub mod loader;
pub mod message;
pub mod persona;
pub mod text;
pub mod tree;
