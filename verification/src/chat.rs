//! The conversation store: a tree of messages in which every turn can have
//! alternatives, one of them selected.

use crate::edit::{EditAction, EditBuffer};
use crate::message::{chat_messages_of, views_of, Message, MessageView, OwnerType};
use crate::persona::{texts_of, CharData, Persona};
use crate::text::trimmed;
use crate::tree::{
    lemma_appended_wf, lemma_apply_at_wf, lemma_pushed_wf, lemma_revisions_among_grow,
    lemma_transcript_unfold, lemma_transcript_until_unfold, Level, LevelOp, NodeView, RowView,
};
use llm::chat::ChatMessage;
use vstd::prelude::*;

verus! {

/// Why something could not be carried out.
#[derive(Clone, Debug, PartialEq, Eq)]
pub enum ChatError {
    /// There is nothing to work on: the conversation is empty, or the message
    /// is not being revised.
    NoActiveLeaf,
    /// The active path has no turn at the given depth.
    InvalidDepth,
    /// The backend failed while it generated an answer; what it said is
    /// kept. The part of the answer that had arrived stays in the
    /// conversation.
    GenerationFailed(String),
}

/// An error as a mathematical value.
pub enum ChatErrorView {
    NoActiveLeaf,
    InvalidDepth,
    GenerationFailed(Seq<char>),
}

impl ChatErrorView {
    /// What a user is told about the error.
    pub open spec fn description(self) -> Seq<char> {
        match self {
            ChatErrorView::NoActiveLeaf => "There is no message to work on."@,
            ChatErrorView::InvalidDepth => "The conversation has no message at that place."@,
            ChatErrorView::GenerationFailed(said) => "The answer could not be generated: "@ + said,
        }
    }
}

impl View for ChatError {
    type V = ChatErrorView;

    open spec fn view(&self) -> ChatErrorView {
        match *self {
            ChatError::NoActiveLeaf => ChatErrorView::NoActiveLeaf,
            ChatError::InvalidDepth => ChatErrorView::InvalidDepth,
            ChatError::GenerationFailed(said) => ChatErrorView::GenerationFailed(said@),
        }
    }
}

impl ChatError {
    /// What a user is told about the error.
    pub fn describe(&self) -> (text: String)
        ensures
            text@ == self@.description(),
    {
        match self {
            ChatError::NoActiveLeaf => "There is no message to work on.".to_owned(),
            ChatError::InvalidDepth => "The conversation has no message at that place.".to_owned(),
            ChatError::GenerationFailed(said) => {
                let mut text = "The answer could not be generated: ".to_owned();
                text.push_str(said.as_str());
                text
            },
        }
    }
}

/// What is done to one level of the conversation, with what it needs.
enum LevelCommand {
    Next(Message),
    Previous,
    ToggleEdit,
    AbortEdit,
    Edit(EditAction),
    Remove,
}

impl View for LevelCommand {
    type V = LevelOp;

    closed spec fn view(&self) -> LevelOp {
        match *self {
            LevelCommand::Next(message) => LevelOp::Next(message@),
            LevelCommand::Previous => LevelOp::Previous,
            LevelCommand::ToggleEdit => LevelOp::ToggleEdit,
            LevelCommand::AbortEdit => LevelOp::AbortEdit,
            LevelCommand::Edit(action) => LevelOp::Edit(action@),
            LevelCommand::Remove => LevelOp::Remove,
        }
    }
}

/// What `perform_action` answers for an action at `depth`: the conversation
/// must not be empty, the active path must have a turn at that depth, and
/// the message there must be under revision.
pub open spec fn edit_outcome(level: Level, depth: nat) -> Result<(), ChatError> {
    if level.nodes.len() == 0 {
        Err(ChatError::NoActiveLeaf)
    } else if !level.level_at(depth).has_active() {
        Err(ChatError::InvalidDepth)
    } else if level.level_at(depth).active().message.editing is None {
        Err(ChatError::NoActiveLeaf)
    } else {
        Ok(())
    }
}

/// The messages that a conversation opens with: one message of the character
/// for each greeting, without the whitespace around it.
pub open spec fn greeting_messages(greetings: Option<Seq<Seq<char>>>) -> Seq<MessageView> {
    match greetings {
        Some(list) => Seq::new(
            list.len(),
            |i: int| MessageView::plain(OwnerType::Char, trimmed(list[i])),
        ),
        None => Seq::empty(),
    }
}

/// One line of the conversation as a reader is shown it.
#[derive(Debug)]
pub struct MessageRow {
    /// A copy of the message.
    pub message: Message,
    /// The text of the edit buffer, where the message is being revised.
    pub draft: Option<String>,
    /// Which alternative the message is, counted from 1.
    pub position: usize,
    /// How many alternatives there are for this turn.
    pub alternatives: usize,
}

impl View for MessageRow {
    type V = RowView;

    /// The row shows the message with the text of its edit buffer; where the
    /// cursor stands is not part of a row.
    open spec fn view(&self) -> RowView {
        RowView {
            message: MessageView {
                owner_type: self.message.owner_type,
                text: self.message.text@,
                editing: match self.draft {
                    Some(text) => Some(crate::edit::EditState { text: text@, cursor: 0 }),
                    None => None,
                },
            },
            position: self.position as nat,
            alternatives: self.alternatives as nat,
        }
    }
}

/// A row as it is shown: the cursor of the edit buffer is left out.
pub open spec fn shown(row: RowView) -> RowView {
    RowView {
        message: MessageView {
            owner_type: row.message.owner_type,
            text: row.message.text,
            editing: match row.message.editing {
                Some(buffer) => Some(crate::edit::EditState { text: buffer.text, cursor: 0 }),
                None => None,
            },
        },
        position: row.position,
        alternatives: row.alternatives,
    }
}

/// The values of a list of rows, one for one.
pub open spec fn row_views(rows: Seq<MessageRow>) -> Seq<RowView> {
    Seq::new(rows.len(), |i: int| rows[i]@)
}

/// Each row as it is shown.
pub open spec fn shown_all(rows: Seq<RowView>) -> Seq<RowView> {
    Seq::new(rows.len(), |i: int| shown(rows[i]))
}

/// One alternative for a turn, with the conversation that follows it.
pub struct MessageNode {
    message: Message,
    chat: Chat,
}

/// A conversation with alternatives at every turn.
pub struct Chat {
    childs: Vec<MessageNode>,
    selected: usize,
}

impl View for Chat {
    type V = Level;

    closed spec fn view(&self) -> Level {
        self.model()
    }
}

impl MessageNode {
    fn new(message: Message) -> (node: MessageNode)
        ensures
            node.node_model() == NodeView::leaf(message@),
    {
        let node = MessageNode { message, chat: Chat { childs: Vec::new(), selected: 0 } };
        assert(node.chat.model().nodes =~= Seq::empty());
        node
    }

    spec fn node_model(self) -> NodeView {
        NodeView { message: self.message@, children: self.chat.model() }
    }
}

impl Chat {
    spec fn model(self) -> Level
        decreases self,
    {
        Level {
            nodes: Seq::new(
                self.childs@.len(),
                |i: int|
                    if 0 <= i < self.childs@.len() {
                        NodeView {
                            message: self.childs@[i].message@,
                            children: self.childs@[i].chat.model(),
                        }
                    } else {
                        arbitrary()
                    },
            ),
            selected: self.selected as nat,
        }
    }

    /// What the model is made of, one level deep.
    proof fn lemma_model(self)
        ensures
            self@.selected == self.selected,
            self@.nodes.len() == self.childs@.len(),
            forall|i: int|
                0 <= i < self.childs@.len() ==> #[trigger] self@.nodes[i]
                    == self.childs@[i].node_model(),
    {
    }

    /// The model after one child was replaced.
    proof fn lemma_model_update(self, before: Chat, i: int)
        requires
            0 <= i < before.childs@.len(),
            self.selected == before.selected,
            self.childs@ == before.childs@.update(i, self.childs@[i]),
        ensures
            self@.nodes == before@.nodes.update(i, self.childs@[i].node_model()),
            self@.selected == before@.selected,
    {
        self.lemma_model();
        before.lemma_model();
        assert(self@.nodes =~= before@.nodes.update(i, self.childs@[i].node_model()));
    }

    /// An empty conversation.
    pub fn new() -> (chat: Chat)
        ensures
            chat@ == Level::empty(),
            chat@.wf(),
    {
        let chat = Chat { childs: Vec::new(), selected: 0 };
        assert(chat@.nodes =~= Seq::empty());
        chat
    }

    /// Adds `message` at the end of the active path: as the first message of
    /// an empty conversation, else as the only continuation of the last
    /// message of the path.
    pub fn push(&mut self, message: Message)
        requires
            old(self)@.wf(),
            message@.wf(),
        ensures
            final(self)@ == old(self)@.pushed(message@),
            final(self)@.wf(),
        decreases *old(self),
    {
        proof {
            self.lemma_model();
            lemma_pushed_wf(self@, message@);
        }
        let ghost before = *self;
        if self.childs.len() == 0 {
            self.childs.push(MessageNode::new(message));
            self.selected = 0;
            proof {
                self.lemma_model();
                assert(self@.nodes =~= seq![NodeView::leaf(message@)]);
            }
        } else {
            let i = self.selected;
            assert(before@.nodes[i as int].children.wf());
            self.childs[i].chat.push(message);
            proof {
                self.lemma_model_update(before, i as int);
            }
        }
    }
}

impl Chat {
    /// Appends to `out` copies of the messages of the active path, all of
    /// them or at most `limit`.
    fn collect(&self, out: &mut Vec<Message>, limit: Option<usize>)
        requires
            self@.wf(),
        ensures
            views_of(final(out)@) == views_of(old(out)@) + (match limit {
                Some(n) => self@.transcript_until(n as nat),
                None => self@.transcript(),
            }),
        decreases self,
    {
        proof {
            self.lemma_model();
            lemma_transcript_unfold(self@);
            if let Some(n) = limit {
                lemma_transcript_until_unfold(self@, n as nat);
            }
        }
        if self.childs.len() == 0 || limit == Some(0) {
            assert(views_of(out@) + Seq::<MessageView>::empty() =~= views_of(out@));
            return ;
        }
        let node = &self.childs[self.selected];
        let rest = match limit {
            Some(n) => Some(n - 1),
            None => None,
        };
        let ghost before = out@;
        out.push(node.message.clone());
        let ghost mid = out@;
        assert(self@.active().children.wf());
        node.chat.collect(out, rest);
        proof {
            assert(views_of(mid) =~= views_of(before).push(node.message@.committed()));
            let tail = match rest {
                Some(n) => node.chat@.transcript_until(n as nat),
                None => node.chat@.transcript(),
            };
            assert(views_of(mid) + tail =~= views_of(before) + (seq![node.message@.committed()]
                + tail));
        }
    }

    /// The active path, first message first: a copy of each message, without
    /// its edit buffer.
    pub fn get_current_chat(&self) -> (messages: Vec<Message>)
        requires
            self@.wf(),
        ensures
            views_of(messages@) == self@.transcript(),
            messages@.len() == self@.transcript().len(),
            forall|i: int|
                0 <= i < messages@.len() ==> (#[trigger] messages@[i])@ == self@.transcript()[i],
    {
        let mut messages: Vec<Message> = Vec::new();
        self.collect(&mut messages, None);
        assert(views_of(Seq::<Message>::empty()) + self@.transcript() =~= self@.transcript());
        assert(views_of(messages@).len() == messages@.len());
        assert forall|i: int| 0 <= i < messages@.len() implies (#[trigger] messages@[i])@
            == self@.transcript()[i] by {
            assert(views_of(messages@)[i] == messages@[i]@);
        }
        messages
    }

    /// The first `idx` messages of the active path, or all of them where the
    /// path is shorter.
    pub fn get_current_chat_until(&self, idx: usize) -> (messages: Vec<Message>)
        requires
            self@.wf(),
        ensures
            views_of(messages@) == self@.transcript_until(idx as nat),
            messages@.len() == self@.transcript_until(idx as nat).len(),
            forall|i: int|
                0 <= i < messages@.len() ==> (#[trigger] messages@[i])@
                    == self@.transcript_until(idx as nat)[i],
    {
        let mut messages: Vec<Message> = Vec::new();
        self.collect(&mut messages, Some(idx));
        assert(views_of(Seq::<Message>::empty()) + self@.transcript_until(idx as nat)
            =~= self@.transcript_until(idx as nat));
        assert(views_of(messages@).len() == messages@.len());
        assert forall|i: int| 0 <= i < messages@.len() implies (#[trigger] messages@[i])@
            == self@.transcript_until(idx as nat)[i] by {
            assert(views_of(messages@)[i] == messages@[i]@);
        }
        messages
    }

    /// Appends `text` to the last message of the active path. An empty
    /// conversation has no such message: nothing changes, and the error says
    /// so.
    pub fn append_last_message(&mut self, text: &str) -> (result: Result<(), ChatError>)
        requires
            old(self)@.wf(),
        ensures
            final(self)@ == old(self)@.appended(text@),
            final(self)@.wf(),
            result == (if old(self)@.nodes.len() == 0 {
                Err::<(), ChatError>(ChatError::NoActiveLeaf)
            } else {
                Ok(())
            }),
        decreases *old(self),
    {
        proof {
            self.lemma_model();
            lemma_appended_wf(self@, text@);
        }
        if self.childs.len() == 0 {
            return Err(ChatError::NoActiveLeaf);
        }
        let ghost before = *self;
        let i = self.selected;
        proof {
            before.childs@[i as int].chat.lemma_model();
            assert(before@.nodes[i as int].children.wf());
        }
        if self.childs[i].chat.childs.len() == 0 {
            self.childs[i].message.text.push_str(text);
        } else {
            let _ = self.childs[i].chat.append_last_message(text);
        }
        proof {
            self.lemma_model_update(before, i as int);
        }
        Ok(())
    }
}

impl Chat {
    /// Carries out `command` on this level.
    fn apply_here(&mut self, command: LevelCommand) -> (created: bool)
        requires
            old(self)@.wf(),
            old(self)@.has_active(),
            command@.wf(),
        ensures
            final(self)@ == old(self)@.apply_here(command@),
            created == old(self)@.creates(command@),
    {
        let ghost before = *self;
        let i = self.selected;
        let n = self.childs.len();
        proof {
            before.lemma_model();
            assert(i < n);
            assert(before@.nodes[i as int].message.wf());
        }
        let created = match command {
            LevelCommand::Next(message) => {
                if i + 1 < n {
                    self.selected = i + 1;
                    false
                } else {
                    self.childs.push(MessageNode::new(message));
                    self.selected = i + 1;
                    true
                }
            },
            LevelCommand::Previous => {
                if i > 0 {
                    self.selected = i - 1;
                }
                false
            },
            LevelCommand::ToggleEdit => {
                match self.childs[i].message.editing.take() {
                    None => {
                        let buffer = EditBuffer::with_text(self.childs[i].message.text.as_str());
                        self.childs[i].message.editing = Some(buffer);
                        false
                    },
                    Some(buffer) => {
                        let fork = Message {
                            owner_type: self.childs[i].message.owner_type,
                            text: buffer.text(),
                            editing: None,
                        };
                        self.childs.push(MessageNode::new(fork));
                        self.selected = self.childs.len() - 1;
                        true
                    },
                }
            },
            LevelCommand::AbortEdit => {
                self.childs[i].message.editing = None;
                false
            },
            LevelCommand::Edit(action) => {
                match self.childs[i].message.editing.take() {
                    Some(mut buffer) => {
                        buffer.perform(action);
                        self.childs[i].message.editing = Some(buffer);
                    },
                    None => {},
                }
                false
            },
            LevelCommand::Remove => {
                let _ = self.childs.remove(i);
                self.selected = if i + 1 < n {
                    i
                } else if i > 0 {
                    i - 1
                } else {
                    0
                };
                false
            },
        };
        proof {
            self.lemma_model();
            assert(self@.nodes =~= before@.apply_here(command@).nodes);
        }
        created
    }

    /// Carries out `command` on the level `idx` steps down the active path,
    /// if the path has a turn there.
    fn apply_at(&mut self, idx: usize, command: LevelCommand) -> (created: bool)
        requires
            old(self)@.wf(),
            command@.wf(),
        ensures
            final(self)@ == old(self)@.apply_at(idx as nat, command@),
            final(self)@.wf(),
            created == old(self)@.creates_at(idx as nat, command@),
        decreases idx,
    {
        proof {
            self.lemma_model();
            lemma_apply_at_wf(self@, idx as nat, command@);
        }
        if self.childs.len() == 0 {
            false
        } else if idx == 0 {
            self.apply_here(command)
        } else {
            let ghost before = *self;
            let i = self.selected;
            assert(before@.nodes[i as int].children.wf());
            let created = self.childs[i].chat.apply_at(idx - 1, command);
            proof {
                self.lemma_model_update(before, i as int);
            }
            created
        }
    }

    /// Selects the alternative before the selected one at depth `idx` of the
    /// active path. At the first alternative, or where the path has no turn
    /// at that depth, nothing changes.
    pub fn previous(&mut self, idx: usize)
        requires
            old(self)@.wf(),
        ensures
            final(self)@ == old(self)@.apply_at(idx as nat, LevelOp::Previous),
            final(self)@.wf(),
    {
        let _ = self.apply_at(idx, LevelCommand::Previous);
    }

    /// Selects the alternative after the selected one at depth `idx` of the
    /// active path. Behind the last alternative, `message` is added as a new
    /// one and selected, and the result is `true`: a reply has to be
    /// generated for it. Where the path has no turn at that depth nothing
    /// changes.
    pub fn next(&mut self, idx: usize, message: Message) -> (created: bool)
        requires
            old(self)@.wf(),
            message@.wf(),
        ensures
            final(self)@ == old(self)@.apply_at(idx as nat, LevelOp::Next(message@)),
            final(self)@.wf(),
            created == old(self)@.creates_at(idx as nat, LevelOp::Next(message@)),
    {
        self.apply_at(idx, LevelCommand::Next(message))
    }

    /// Starts revising the message at depth `idx` of the active path: it gets
    /// an edit buffer that holds its text. If it is being revised already,
    /// the revision is committed instead: the text of the buffer becomes a
    /// new alternative without continuations, which is selected, the buffer
    /// is dropped, and the result is `true`. Where the path has no turn at
    /// that depth nothing changes.
    pub fn toggle_edit(&mut self, idx: usize) -> (created: bool)
        requires
            old(self)@.wf(),
        ensures
            final(self)@ == old(self)@.apply_at(idx as nat, LevelOp::ToggleEdit),
            final(self)@.wf(),
            created == old(self)@.creates_at(idx as nat, LevelOp::ToggleEdit),
    {
        self.apply_at(idx, LevelCommand::ToggleEdit)
    }

    /// Drops the edit buffer of the message at depth `idx` of the active
    /// path. Where there is none nothing changes.
    pub fn abort_edit(&mut self, idx: usize)
        requires
            old(self)@.wf(),
        ensures
            final(self)@ == old(self)@.apply_at(idx as nat, LevelOp::AbortEdit),
            final(self)@.wf(),
    {
        let _ = self.apply_at(idx, LevelCommand::AbortEdit);
    }

    /// Removes the selected alternative at depth `idx` of the active path,
    /// with all that follows it. The selection stays on the same index, or
    /// moves to the last alternative left. Where the path has no turn at that
    /// depth nothing changes.
    pub fn delete(&mut self, idx: usize)
        requires
            old(self)@.wf(),
        ensures
            final(self)@ == old(self)@.apply_at(idx as nat, LevelOp::Remove),
            final(self)@.wf(),
    {
        let _ = self.apply_at(idx, LevelCommand::Remove);
    }
}

impl Chat {
    /// A conversation with `char` that opens with the character's greetings
    /// for `user`: each greeting is an alternative for the first turn, the
    /// first one selected. Without greetings the conversation is empty.
    pub fn with_messages(char: &Persona, user: &Persona) -> (chat: Chat)
        ensures
            chat@ == Level::seeded(
                greeting_messages(char.greetings_view(Some(user.name_view()))),
            ),
            chat@.wf(),
    {
        let ghost greetings = char.greetings_view(Some(user.name_view()));
        let mut childs: Vec<MessageNode> = Vec::new();
        match char.greetings(Some(CharData::name(user))) {
            Some(messages) => {
                let mut i: usize = 0;
                while i < messages.len()
                    invariant
                        i <= messages.len(),
                        greetings == Some(texts_of(messages@)),
                        childs@.len() == i,
                        forall|k: int|
                            0 <= k < i ==> (#[trigger] childs@[k]).node_model() == NodeView::leaf(
                                greeting_messages(greetings)[k],
                            ),
                    decreases messages.len() - i,
                {
                    childs.push(MessageNode::new(Message::from_char(messages[i].clone())));
                    i = i + 1;
                }
            },
            None => {},
        }
        let chat = Chat { childs, selected: 0 };
        proof {
            chat.lemma_model();
            let seeded = Level::seeded(greeting_messages(greetings));
            assert(chat@.nodes =~= seeded.nodes);
            assert(Level::empty().wf());
            assert(seeded.wf());
        }
        chat
    }

    /// The active path as the backend takes it: one backend message for each
    /// message of the path, in order.
    pub fn get_chat_messages(&self) -> (history: Vec<ChatMessage>)
        requires
            self@.wf(),
        ensures
            history@ == chat_messages_of(self@.transcript()),
    {
        let messages = self.get_current_chat();
        Self::to_chat_messages(&messages)
    }

    /// The first `idx` messages of the active path as the backend takes
    /// them, or all of them where the path is shorter: what came before the
    /// turn at depth `idx`, for which a reply is wanted.
    pub fn get_chat_messages_until(&self, idx: usize) -> (history: Vec<ChatMessage>)
        requires
            self@.wf(),
        ensures
            history@ == chat_messages_of(self@.transcript_until(idx as nat)),
    {
        let messages = self.get_current_chat_until(idx);
        Self::to_chat_messages(&messages)
    }

    /// One backend message for each message, in order.
    fn to_chat_messages(messages: &Vec<Message>) -> (history: Vec<ChatMessage>)
        ensures
            history@ == chat_messages_of(views_of(messages@)),
    {
        let mut history: Vec<ChatMessage> = Vec::new();
        let mut i: usize = 0;
        while i < messages.len()
            invariant
                i <= messages.len(),
                history@ == chat_messages_of(views_of(messages@)).take(i as int),
            decreases messages.len() - i,
        {
            history.push(messages[i].to_chat_message());
            i = i + 1;
        }
        history
    }

    /// Whether the active path has a turn at depth `idx`, and whether the
    /// message there is being revised.
    fn status_at(&self, idx: usize) -> (status: (bool, bool))
        requires
            self@.wf(),
        ensures
            status.0 == self@.level_at(idx as nat).has_active(),
            status.1 == (status.0 && self@.level_at(idx as nat).active().message.editing is Some),
        decreases idx,
    {
        proof {
            self.lemma_model();
        }
        if self.childs.len() == 0 {
            proof {
                if idx > 0 {
                    assert(!self@.has_active());
                }
            }
            (false, false)
        } else if idx == 0 {
            (true, self.childs[self.selected].message.editing.is_some())
        } else {
            assert(self@.active().children.wf());
            self.childs[self.selected].chat.status_at(idx - 1)
        }
    }

    /// Applies `action` to the edit buffer of the message at depth `idx` of
    /// the active path. Where there is no such buffer nothing changes, and
    /// the error says what is missing.
    pub fn perform_action(&mut self, idx: usize, action: EditAction) -> (result: Result<
        (),
        ChatError,
    >)
        requires
            old(self)@.wf(),
        ensures
            final(self)@ == old(self)@.apply_at(idx as nat, LevelOp::Edit(action@)),
            final(self)@.wf(),
            result == edit_outcome(old(self)@, idx as nat),
    {
        proof {
            self.lemma_model();
        }
        let status = self.status_at(idx);
        let empty = self.childs.len() == 0;
        let _ = self.apply_at(idx, LevelCommand::Edit(action));
        if empty {
            Err(ChatError::NoActiveLeaf)
        } else if !status.0 {
            Err(ChatError::InvalidDepth)
        } else if !status.1 {
            Err(ChatError::NoActiveLeaf)
        } else {
            Ok(())
        }
    }

    /// Appends to `rows` one row for each turn of the active path.
    fn collect_rows(&self, rows: &mut Vec<MessageRow>)
        requires
            self@.wf(),
        ensures
            row_views(final(rows)@) == row_views(old(rows)@) + shown_all(self@.rows()),
        decreases self,
    {
        proof {
            self.lemma_model();
        }
        if self.childs.len() == 0 {
            assert(row_views(rows@) + shown_all(self@.rows()) =~= row_views(rows@));
            return ;
        }
        let node = &self.childs[self.selected];
        let draft = match &node.message.editing {
            Some(buffer) => Some(buffer.text()),
            None => None,
        };
        let row = MessageRow {
            message: node.message.clone(),
            draft,
            position: self.selected + 1,
            alternatives: self.childs.len(),
        };
        let ghost before = rows@;
        rows.push(row);
        let ghost mid = rows@;
        assert(self@.active().children.wf());
        node.chat.collect_rows(rows);
        proof {
            assert(row@ == shown(self@.rows()[0]));
            assert(row_views(mid) =~= row_views(before).push(row@));
            assert(row_views(mid) + shown_all(node.chat@.rows()) =~= row_views(before)
                + shown_all(self@.rows()));
        }
    }

    /// Whether any message of the conversation, on the active path or off
    /// it, is under revision.
    pub fn is_revising(&self) -> (revising: bool)
        ensures
            revising == (self@.revisions() > 0),
        decreases self,
    {
        proof {
            self.lemma_model();
        }
        let mut i: usize = 0;
        while i < self.childs.len()
            invariant
                i <= self.childs.len(),
                self@.nodes.len() == self.childs@.len(),
                forall|k: int|
                    0 <= k < self.childs@.len() ==> #[trigger] self@.nodes[k]
                        == self.childs@[k].node_model(),
                self@.revisions_among(i as nat) == 0,
            decreases self.childs.len() - i,
        {
            let node = &self.childs[i];
            assert(self@.nodes[i as int] == node.node_model());
            if node.message.editing.is_some() || node.chat.is_revising() {
                proof {
                    lemma_revisions_among_grow(self@, (i + 1) as nat, self@.nodes.len());
                }
                return true;
            }
            i = i + 1;
        }
        false
    }

    /// What a reader is shown: one row for each turn of the active path, with
    /// a copy of the message, the text of its edit buffer where it has one,
    /// the number of the selected alternative and how many there are.
    pub fn create_column_view(&self) -> (rows: Vec<MessageRow>)
        requires
            self@.wf(),
        ensures
            row_views(rows@) == shown_all(self@.rows()),
    {
        let mut rows: Vec<MessageRow> = Vec::new();
        self.collect_rows(&mut rows);
        assert(row_views(Seq::<MessageRow>::empty()) + shown_all(self@.rows()) =~= shown_all(
            self@.rows(),
        ));
        rows
    }
}

impl Default for Chat {
    fn default() -> (chat: Chat)
        ensures
            chat@ == Level::empty(),
            chat@.wf(),
    {
        Chat::new()
    }
}

} // verus!
