//! The edit buffer of a message that is being revised: a text and a cursor,
//! changed by a small set of editing actions.

use crate::text::{chars_of, string_of};
use vstd::prelude::*;

verus! {

/// One editing primitive.
#[derive(Debug)]
pub enum EditAction {
    /// Put a character at the cursor and step over it.
    Insert(char),
    /// Remove the character before the cursor.
    Backspace,
    /// Remove the character at the cursor.
    Delete,
    /// Move the cursor one character towards the start.
    MoveLeft,
    /// Move the cursor one character towards the end.
    MoveRight,
    /// Move the cursor to the start of the text.
    MoveStart,
    /// Move the cursor to the end of the text.
    MoveEnd,
    /// Replace the whole text; the cursor goes to its end.
    Replace(String),
}

/// What an `EditAction` is, as a mathematical value.
pub enum EditActionView {
    Insert(char),
    Backspace,
    Delete,
    MoveLeft,
    MoveRight,
    MoveStart,
    MoveEnd,
    Replace(Seq<char>),
}

impl View for EditAction {
    type V = EditActionView;

    open spec fn view(&self) -> EditActionView {
        match *self {
            EditAction::Insert(c) => EditActionView::Insert(c),
            EditAction::Backspace => EditActionView::Backspace,
            EditAction::Delete => EditActionView::Delete,
            EditAction::MoveLeft => EditActionView::MoveLeft,
            EditAction::MoveRight => EditActionView::MoveRight,
            EditAction::MoveStart => EditActionView::MoveStart,
            EditAction::MoveEnd => EditActionView::MoveEnd,
            EditAction::Replace(s) => EditActionView::Replace(s@),
        }
    }
}

/// An edit buffer as a mathematical value: the text, and the position of the
/// cursor in it, counted in characters from the start.
pub struct EditState {
    pub text: Seq<char>,
    pub cursor: nat,
}

impl EditState {
    /// The cursor stands inside the text or at its end.
    pub open spec fn wf(self) -> bool {
        self.cursor <= self.text.len()
    }

    /// The buffer that editing starts from: the given text, cursor at the start.
    pub open spec fn fresh(text: Seq<char>) -> EditState {
        EditState { text, cursor: 0 }
    }

    /// The buffer after one action.
    pub open spec fn apply(self, action: EditActionView) -> EditState {
        match action {
            EditActionView::Insert(c) => EditState {
                text: self.text.insert(self.cursor as int, c),
                cursor: self.cursor + 1,
            },
            EditActionView::Backspace => if self.cursor > 0 {
                EditState {
                    text: self.text.remove(self.cursor - 1),
                    cursor: (self.cursor - 1) as nat,
                }
            } else {
                self
            },
            EditActionView::Delete => if self.cursor < self.text.len() {
                EditState { text: self.text.remove(self.cursor as int), cursor: self.cursor }
            } else {
                self
            },
            EditActionView::MoveLeft => if self.cursor > 0 {
                EditState { text: self.text, cursor: (self.cursor - 1) as nat }
            } else {
                self
            },
            EditActionView::MoveRight => if self.cursor < self.text.len() {
                EditState { text: self.text, cursor: self.cursor + 1 }
            } else {
                self
            },
            EditActionView::MoveStart => EditState { text: self.text, cursor: 0 },
            EditActionView::MoveEnd => EditState { text: self.text, cursor: self.text.len() },
            EditActionView::Replace(s) => EditState { text: s, cursor: s.len() },
        }
    }

    /// The buffer after a sequence of actions, first to last.
    pub open spec fn apply_all(self, actions: Seq<EditActionView>) -> EditState
        decreases actions.len(),
    {
        if actions.len() == 0 {
            self
        } else {
            self.apply(actions[0]).apply_all(actions.drop_first())
        }
    }
}

/// Every action keeps the cursor inside the text.
pub proof fn lemma_apply_keeps_wf(state: EditState, action: EditActionView)
    requires
        state.wf(),
    ensures
        state.apply(action).wf(),
{
}

/// The text of a message under revision, with a cursor.
#[derive(Debug)]
pub struct EditBuffer {
    chars: Vec<char>,
    cursor: usize,
}

impl View for EditBuffer {
    type V = EditState;

    closed spec fn view(&self) -> EditState {
        EditState { text: self.chars@, cursor: self.cursor as nat }
    }
}

impl EditBuffer {
    /// An empty buffer.
    pub fn new() -> (b: EditBuffer)
        ensures
            b@ == EditState::fresh(Seq::empty()),
    {
        EditBuffer { chars: Vec::new(), cursor: 0 }
    }

    /// A buffer that holds `text`, with the cursor at the start.
    pub fn with_text(text: &str) -> (b: EditBuffer)
        ensures
            b@ == EditState::fresh(text@),
    {
        EditBuffer { chars: chars_of(text), cursor: 0 }
    }

    /// The text as it stands.
    pub fn text(&self) -> (s: String)
        ensures
            s@ == self@.text,
    {
        string_of(&self.chars)
    }

    /// Where the cursor stands, in characters from the start.
    pub fn cursor(&self) -> (c: usize)
        ensures
            c == self@.cursor,
    {
        self.cursor
    }

    /// Applies one editing action.
    pub fn perform(&mut self, action: EditAction)
        requires
            old(self)@.wf(),
        ensures
            final(self)@ == old(self)@.apply(action@),
            final(self)@.wf(),
    {
        match action {
            EditAction::Insert(c) => {
                self.chars.insert(self.cursor, c);
                assert(self.cursor < self.chars.len());
                self.cursor = self.cursor + 1;
            },
            EditAction::Backspace => {
                if self.cursor > 0 {
                    self.cursor = self.cursor - 1;
                    self.chars.remove(self.cursor);
                }
            },
            EditAction::Delete => {
                if self.cursor < self.chars.len() {
                    self.chars.remove(self.cursor);
                }
            },
            EditAction::MoveLeft => {
                if self.cursor > 0 {
                    self.cursor = self.cursor - 1;
                }
            },
            EditAction::MoveRight => {
                if self.cursor < self.chars.len() {
                    self.cursor = self.cursor + 1;
                }
            },
            EditAction::MoveStart => {
                self.cursor = 0;
            },
            EditAction::MoveEnd => {
                self.cursor = self.chars.len();
            },
            EditAction::Replace(s) => {
                self.chars = chars_of(s.as_str());
                self.cursor = self.chars.len();
            },
        }
    }
}

} // verus!
