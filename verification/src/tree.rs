//! The branching conversation as a mathematical value, and what each
//! operation on it means.
//!
//! A conversation is a `Level`: the alternatives for one turn, and which of
//! them is selected. Each alternative is a `NodeView`: a message and the
//! level of its continuations. The active path runs from the selected
//! alternative of the top level down through the selected continuations.

use crate::edit::{EditActionView, EditState};
use crate::message::{committed_all, MessageView};
use vstd::prelude::*;

verus! {

/// One alternative for a turn: its message and the continuations below it.
pub struct NodeView {
    pub message: MessageView,
    pub children: Level,
}

/// The alternatives for one turn, in the order they were created, and the
/// index of the selected one. With no alternatives the index is 0.
pub struct Level {
    pub nodes: Seq<NodeView>,
    pub selected: nat,
}

/// What can be done to the level at some depth of the active path.
pub enum LevelOp {
    /// Select the next alternative; behind the last one, add this message as
    /// a new alternative and select it.
    Next(MessageView),
    /// Select the previous alternative, if there is one.
    Previous,
    /// Start revising the selected message, or, if it is being revised,
    /// commit the revision as a new alternative.
    ToggleEdit,
    /// Stop revising the selected message and drop the revision.
    AbortEdit,
    /// Apply an editing action to the revision of the selected message.
    Edit(EditActionView),
    /// Remove the selected alternative with everything below it.
    Remove,
}

impl NodeView {
    /// A node without continuations.
    pub open spec fn leaf(message: MessageView) -> NodeView {
        NodeView { message, children: Level::empty() }
    }

    /// This node with another message.
    pub open spec fn with_message(self, message: MessageView) -> NodeView {
        NodeView { message, children: self.children }
    }

    /// This node with other continuations.
    pub open spec fn with_children(self, children: Level) -> NodeView {
        NodeView { message: self.message, children }
    }
}

impl Level {
    /// The level without alternatives.
    pub open spec fn empty() -> Level {
        Level { nodes: Seq::empty(), selected: 0 }
    }

    /// The level whose alternatives are the given messages, none of them
    /// continued, the first one selected.
    pub open spec fn seeded(messages: Seq<MessageView>) -> Level {
        Level {
            nodes: Seq::new(messages.len(), |i: int| NodeView::leaf(messages[i])),
            selected: 0,
        }
    }

    /// The selection points at an alternative wherever there is one, on this
    /// level and on every level below, and every edit buffer is well formed.
    pub open spec fn wf(self) -> bool
        decreases self,
    {
        &&& if self.nodes.len() == 0 {
            self.selected == 0
        } else {
            self.selected < self.nodes.len()
        }
        &&& forall|i: int|
            0 <= i < self.nodes.len() ==> (#[trigger] self.nodes[i]).message.wf()
                && self.nodes[i].children.wf()
    }

    /// Whether the selection points at an alternative.
    pub open spec fn has_active(self) -> bool {
        self.selected < self.nodes.len()
    }

    /// The selected alternative.
    pub open spec fn active(self) -> NodeView {
        self.nodes[self.selected as int]
    }

    /// This level with `node` in place of the selected alternative.
    pub open spec fn with_active(self, node: NodeView) -> Level {
        Level { nodes: self.nodes.update(self.selected as int, node), selected: self.selected }
    }

    /// The messages of the active path, first turn first, as they are stored.
    pub open spec fn path(self) -> Seq<MessageView>
        decreases self,
    {
        if self.has_active() {
            seq![self.active().message] + self.active().children.path()
        } else {
            Seq::empty()
        }
    }

    /// The active path as a reader sees it: the messages without their edit
    /// buffers.
    pub open spec fn transcript(self) -> Seq<MessageView> {
        committed_all(self.path())
    }

    /// The first `n` messages of the transcript, or all of it where it is
    /// shorter.
    pub open spec fn transcript_until(self, n: nat) -> Seq<MessageView> {
        if n <= self.transcript().len() {
            self.transcript().take(n as int)
        } else {
            self.transcript()
        }
    }

    /// The level `depth` steps down the active path; the empty level where
    /// the path ends before.
    pub open spec fn level_at(self, depth: nat) -> Level
        decreases depth,
    {
        if depth == 0 {
            self
        } else if self.has_active() {
            self.active().children.level_at((depth - 1) as nat)
        } else {
            Level::empty()
        }
    }

    /// The conversation after `message` was added at the end of the active
    /// path.
    pub open spec fn pushed(self, message: MessageView) -> Level
        decreases self,
    {
        if self.has_active() {
            self.with_active(self.active().with_children(self.active().children.pushed(message)))
        } else {
            Level { nodes: seq![NodeView::leaf(message)], selected: 0 }
        }
    }

    /// The conversation after the messages were added one after the other.
    pub open spec fn pushed_all(self, messages: Seq<MessageView>) -> Level
        decreases messages.len(),
    {
        if messages.len() == 0 {
            self
        } else {
            self.pushed(messages[0]).pushed_all(messages.drop_first())
        }
    }

    /// The conversation after `delta` was appended to the text of the last
    /// message of the active path. An empty conversation stays empty.
    pub open spec fn appended(self, delta: Seq<char>) -> Level
        decreases self,
    {
        if !self.has_active() {
            self
        } else if self.active().children.has_active() {
            self.with_active(self.active().with_children(self.active().children.appended(delta)))
        } else {
            let m = self.active().message;
            self.with_active(
                self.active().with_message(
                    MessageView { owner_type: m.owner_type, text: m.text + delta, editing: m.editing },
                ),
            )
        }
    }

    /// Whether `op`, done to this level, adds an alternative.
    pub open spec fn creates(self, op: LevelOp) -> bool {
        self.has_active() && match op {
            LevelOp::Next(_) => self.selected + 1 == self.nodes.len(),
            LevelOp::ToggleEdit => self.active().message.editing is Some,
            _ => false,
        }
    }

    /// This level after `op` was done to it. A level without a selected
    /// alternative stays as it is.
    pub open spec fn apply_here(self, op: LevelOp) -> Level {
        if !self.has_active() {
            self
        } else {
            let m = self.active().message;
            match op {
                LevelOp::Next(message) => if self.selected + 1 < self.nodes.len() {
                    Level { nodes: self.nodes, selected: self.selected + 1 }
                } else {
                    Level {
                        nodes: self.nodes.push(NodeView::leaf(message)),
                        selected: self.nodes.len(),
                    }
                },
                LevelOp::Previous => if self.selected > 0 {
                    Level { nodes: self.nodes, selected: (self.selected - 1) as nat }
                } else {
                    self
                },
                LevelOp::ToggleEdit => match m.editing {
                    None => self.with_active(
                        self.active().with_message(
                            MessageView {
                                owner_type: m.owner_type,
                                text: m.text,
                                editing: Some(EditState::fresh(m.text)),
                            },
                        ),
                    ),
                    Some(buffer) => Level {
                        nodes: self.with_active(self.active().with_message(m.committed())).nodes.push(
                            NodeView::leaf(MessageView::plain(m.owner_type, buffer.text)),
                        ),
                        selected: self.nodes.len(),
                    },
                },
                LevelOp::AbortEdit => self.with_active(self.active().with_message(m.committed())),
                LevelOp::Edit(action) => match m.editing {
                    Some(buffer) => self.with_active(
                        self.active().with_message(
                            MessageView {
                                owner_type: m.owner_type,
                                text: m.text,
                                editing: Some(buffer.apply(action)),
                            },
                        ),
                    ),
                    None => self,
                },
                LevelOp::Remove => Level {
                    nodes: self.nodes.remove(self.selected as int),
                    selected: if self.selected + 1 < self.nodes.len() {
                        self.selected
                    } else if self.selected > 0 {
                        (self.selected - 1) as nat
                    } else {
                        0
                    },
                },
            }
        }
    }

    /// The conversation after `op` was done to the level `depth` steps down
    /// the active path. Where the path has no turn at that depth nothing
    /// changes.
    pub open spec fn apply_at(self, depth: nat, op: LevelOp) -> Level
        decreases depth,
    {
        if !self.has_active() {
            self
        } else if depth == 0 {
            self.apply_here(op)
        } else {
            self.with_active(
                self.active().with_children(
                    self.active().children.apply_at((depth - 1) as nat, op),
                ),
            )
        }
    }

    /// Whether `op`, done at `depth`, adds an alternative.
    pub open spec fn creates_at(self, depth: nat, op: LevelOp) -> bool {
        self.level_at(depth).creates(op)
    }

    /// Whether the active path has a turn at `depth`.
    pub open spec fn reaches(self, depth: nat) -> bool {
        self.level_at(depth).has_active()
    }

    /// The conversation with `new` in place of the level `depth` steps down
    /// the active path. Where the path ends before that level nothing
    /// changes.
    pub open spec fn replaced_at(self, depth: nat, new: Level) -> Level
        decreases depth,
    {
        if depth == 0 {
            new
        } else if self.has_active() {
            self.with_active(
                self.active().with_children(
                    self.active().children.replaced_at((depth - 1) as nat, new),
                ),
            )
        } else {
            self
        }
    }

    /// The conversation after the editing actions were applied, one after
    /// the other, to the message at `depth`.
    pub open spec fn edited_at(self, depth: nat, actions: Seq<EditActionView>) -> Level
        decreases actions.len(),
    {
        if actions.len() == 0 {
            self
        } else {
            self.apply_at(depth, LevelOp::Edit(actions[0])).edited_at(depth, actions.drop_first())
        }
    }

    /// How many messages are under revision among the first `n` alternatives
    /// of this level and all that follows them.
    pub open spec fn revisions_among(self, n: nat) -> nat
        decreases self, n,
    {
        if n == 0 || n > self.nodes.len() {
            0
        } else {
            let node = self.nodes[n - 1];
            self.revisions_among((n - 1) as nat) + (if node.message.editing is Some {
                1nat
            } else {
                0nat
            }) + node.children.revisions()
        }
    }

    /// How many messages of the conversation are under revision, on the
    /// active path or off it.
    pub open spec fn revisions(self) -> nat
        decreases self, self.nodes.len() + 1,
    {
        self.revisions_among(self.nodes.len())
    }

    /// What a reader is shown for every turn of the active path: the message
    /// as it is stored, which alternative it is, counted from 1, and how many
    /// there are.
    pub open spec fn rows(self) -> Seq<RowView>
        decreases self,
    {
        if self.has_active() {
            seq![
                RowView {
                    message: self.active().message,
                    position: self.selected + 1,
                    alternatives: self.nodes.len(),
                },
            ] + self.active().children.rows()
        } else {
            Seq::empty()
        }
    }
}

/// One line of the conversation as a reader is shown it.
pub struct RowView {
    pub message: MessageView,
    pub position: nat,
    pub alternatives: nat,
}

impl NodeView {
    /// How many messages are under revision in this node and all that
    /// follows it.
    pub open spec fn revisions(self) -> nat {
        (if self.message.editing is Some {
            1nat
        } else {
            0nat
        }) + self.children.revisions()
    }
}

impl LevelOp {
    /// The message that the operation may add, if it carries one, is well
    /// formed.
    pub open spec fn wf(self) -> bool {
        self matches LevelOp::Next(message) ==> message.wf()
    }
}

/// Putting a well-formed node in place of the selected one keeps a level
/// well formed.
pub proof fn lemma_with_active_wf(level: Level, node: NodeView)
    requires
        level.wf(),
        level.has_active(),
        node.message.wf(),
        node.children.wf(),
    ensures
        level.with_active(node).wf(),
{
    let after = level.with_active(node);
    assert forall|i: int| 0 <= i < after.nodes.len() implies (#[trigger] after.nodes[i]).message.wf()
        && after.nodes[i].children.wf() by {
        if i != level.selected {
            assert(after.nodes[i] == level.nodes[i]);
        }
    }
}

/// Adding a message keeps a conversation well formed.
pub proof fn lemma_pushed_wf(level: Level, message: MessageView)
    requires
        level.wf(),
        message.wf(),
    ensures
        level.pushed(message).wf(),
    decreases level,
{
    if level.has_active() {
        let node = level.active();
        assert(node.message.wf() && node.children.wf());
        lemma_pushed_wf(node.children, message);
        lemma_with_active_wf(level, node.with_children(node.children.pushed(message)));
    } else {
        assert(Level::empty().wf());
    }
}

/// Appending to the last message keeps a conversation well formed.
pub proof fn lemma_appended_wf(level: Level, delta: Seq<char>)
    requires
        level.wf(),
    ensures
        level.appended(delta).wf(),
    decreases level,
{
    if level.has_active() {
        let node = level.active();
        assert(node.message.wf() && node.children.wf());
        if node.children.has_active() {
            lemma_appended_wf(node.children, delta);
            lemma_with_active_wf(level, node.with_children(node.children.appended(delta)));
        } else {
            let m = node.message;
            lemma_with_active_wf(
                level,
                node.with_message(
                    MessageView { owner_type: m.owner_type, text: m.text + delta, editing: m.editing },
                ),
            );
        }
    }
}

/// An operation on a level keeps it well formed.
pub proof fn lemma_apply_here_wf(level: Level, op: LevelOp)
    requires
        level.wf(),
        op.wf(),
    ensures
        level.apply_here(op).wf(),
{
    if level.has_active() {
        let node = level.active();
        let m = node.message;
        let after = level.apply_here(op);
        assert(m.wf() && node.children.wf());
        assert(Level::empty().wf());
        match op {
            LevelOp::Next(message) => {
                assert forall|i: int| 0 <= i < after.nodes.len() implies (
                #[trigger] after.nodes[i]).message.wf() && after.nodes[i].children.wf() by {
                    if i < level.nodes.len() {
                        assert(after.nodes[i] == level.nodes[i]);
                    }
                }
            },
            LevelOp::Previous => {},
            LevelOp::ToggleEdit => {
                match m.editing {
                    None => {
                        lemma_with_active_wf(
                            level,
                            node.with_message(
                                MessageView {
                                    owner_type: m.owner_type,
                                    text: m.text,
                                    editing: Some(EditState::fresh(m.text)),
                                },
                            ),
                        );
                    },
                    Some(buffer) => {
                        let kept = level.with_active(node.with_message(m.committed()));
                        lemma_with_active_wf(level, node.with_message(m.committed()));
                        assert forall|i: int| 0 <= i < after.nodes.len() implies (
                        #[trigger] after.nodes[i]).message.wf() && after.nodes[i].children.wf() by {
                            if i < level.nodes.len() {
                                assert(after.nodes[i] == kept.nodes[i]);
                            }
                        }
                    },
                }
            },
            LevelOp::AbortEdit => {
                lemma_with_active_wf(level, node.with_message(m.committed()));
            },
            LevelOp::Edit(action) => {
                if let Some(buffer) = m.editing {
                    crate::edit::lemma_apply_keeps_wf(buffer, action);
                    lemma_with_active_wf(
                        level,
                        node.with_message(
                            MessageView {
                                owner_type: m.owner_type,
                                text: m.text,
                                editing: Some(buffer.apply(action)),
                            },
                        ),
                    );
                }
            },
            LevelOp::Remove => {
                assert forall|i: int| 0 <= i < after.nodes.len() implies (
                #[trigger] after.nodes[i]).message.wf() && after.nodes[i].children.wf() by {
                    if i < level.selected {
                        assert(after.nodes[i] == level.nodes[i]);
                    } else {
                        assert(after.nodes[i] == level.nodes[i + 1]);
                    }
                }
            },
        }
    }
}

/// An operation at any depth keeps a conversation well formed.
pub proof fn lemma_apply_at_wf(level: Level, depth: nat, op: LevelOp)
    requires
        level.wf(),
        op.wf(),
    ensures
        level.apply_at(depth, op).wf(),
    decreases depth,
{
    if level.has_active() {
        if depth == 0 {
            lemma_apply_here_wf(level, op);
        } else {
            let node = level.active();
            assert(node.message.wf() && node.children.wf());
            lemma_apply_at_wf(node.children, (depth - 1) as nat, op);
            lemma_with_active_wf(
                level,
                node.with_children(node.children.apply_at((depth - 1) as nat, op)),
            );
        }
    }
}

/// The transcript of a level is the selected message, without its edit
/// buffer, followed by the transcript of its continuations.
pub proof fn lemma_transcript_unfold(level: Level)
    ensures
        level.has_active() ==> level.transcript() == seq![level.active().message.committed()]
            + level.active().children.transcript(),
        !level.has_active() ==> level.transcript() == Seq::<MessageView>::empty(),
{
    if level.has_active() {
        assert(level.transcript() =~= seq![level.active().message.committed()]
            + level.active().children.transcript());
    } else {
        assert(level.transcript() =~= Seq::<MessageView>::empty());
    }
}

/// The first `n` messages of the transcript are the selected message and the
/// first `n - 1` of the continuations.
pub proof fn lemma_transcript_until_unfold(level: Level, n: nat)
    ensures
        level.has_active() && n > 0 ==> level.transcript_until(n) == seq![
            level.active().message.committed(),
        ] + level.active().children.transcript_until((n - 1) as nat),
        !level.has_active() || n == 0 ==> level.transcript_until(n) == Seq::<
            MessageView,
        >::empty(),
{
    lemma_transcript_unfold(level);
    if level.has_active() && n > 0 {
        assert(level.transcript_until(n) =~= seq![level.active().message.committed()]
            + level.active().children.transcript_until((n - 1) as nat));
    } else {
        assert(level.transcript_until(n) =~= Seq::<MessageView>::empty());
    }
}

/// An operation at a depth changes the level at that depth and nothing
/// else; where the active path has no turn there, it changes nothing.
pub proof fn lemma_apply_at_replaces(level: Level, depth: nat, op: LevelOp)
    ensures
        level.apply_at(depth, op) == (if level.reaches(depth) {
            level.replaced_at(depth, level.level_at(depth).apply_here(op))
        } else {
            level
        }),
    decreases depth,
{
    if level.has_active() && depth > 0 {
        let node = level.active();
        lemma_apply_at_replaces(node.children, (depth - 1) as nat, op);
        if !level.reaches(depth) {
            assert(level.nodes.update(level.selected as int, node) =~= level.nodes);
        }
    }
}

/// The level that was put in place at a depth is the level found there.
pub proof fn lemma_replaced_level(level: Level, depth: nat, new: Level)
    requires
        level.reaches(depth),
    ensures
        level.replaced_at(depth, new).level_at(depth) == new,
    decreases depth,
{
    if depth > 0 {
        lemma_replaced_level(level.active().children, (depth - 1) as nat, new);
    }
}

/// The active path runs through the level at any depth that it reaches.
pub proof fn lemma_path_split(level: Level, depth: nat)
    requires
        level.reaches(depth),
    ensures
        level.path().len() > depth,
        level.path() == level.path().take(depth as int) + level.level_at(depth).path(),
        level.path()[depth as int] == level.level_at(depth).active().message,
    decreases depth,
{
    if depth == 0 {
        assert(level.path() =~= level.path().take(0) + level.path());
    } else {
        let below = level.active().children;
        lemma_path_split(below, (depth - 1) as nat);
        assert(level.path().take(depth as int) =~= seq![level.active().message]
            + below.path().take(depth - 1));
        assert(level.path() =~= level.path().take(depth as int) + level.level_at(depth).path());
    }
}

/// Putting a level in place at a depth keeps the turns before that depth
/// and continues with the path of the new level.
pub proof fn lemma_replaced_path(level: Level, depth: nat, new: Level)
    requires
        level.reaches(depth),
    ensures
        level.replaced_at(depth, new).path() == level.path().take(depth as int) + new.path(),
    decreases depth,
{
    if depth == 0 {
        assert(level.path().take(0) + new.path() =~= new.path());
    } else {
        let below = level.active().children;
        lemma_replaced_path(below, (depth - 1) as nat, new);
        lemma_path_split(level, depth);
        assert(level.path().take(depth as int) =~= seq![level.active().message]
            + below.path().take(depth - 1));
        assert(level.replaced_at(depth, new).path() =~= level.path().take(depth as int)
            + new.path());
    }
}

/// Of two levels put in place at the same depth, one after the other, the
/// second one stays.
pub proof fn lemma_replaced_twice(level: Level, depth: nat, first: Level, second: Level)
    ensures
        level.replaced_at(depth, first).replaced_at(depth, second) == level.replaced_at(
            depth,
            second,
        ),
    decreases depth,
{
    if depth > 0 && level.has_active() {
        let node = level.active();
        let below = (depth - 1) as nat;
        lemma_replaced_twice(node.children, below, first, second);
        let once = level.replaced_at(depth, first);
        assert(once.replaced_at(depth, second).nodes =~= level.replaced_at(depth, second).nodes);
    }
}

/// Putting the level found at a depth in its own place changes nothing.
pub proof fn lemma_replaced_same(level: Level, depth: nat)
    requires
        level.reaches(depth),
    ensures
        level.replaced_at(depth, level.level_at(depth)) == level,
    decreases depth,
{
    if depth > 0 {
        let node = level.active();
        lemma_replaced_same(node.children, (depth - 1) as nat);
        assert(level.nodes.update(level.selected as int, node) =~= level.nodes);
    }
}

/// Two levels that agree in their first `n` alternatives have as many
/// messages under revision among them.
pub proof fn lemma_revisions_among_same(a: Level, b: Level, n: nat)
    requires
        n <= a.nodes.len(),
        n <= b.nodes.len(),
        forall|i: int| 0 <= i < n ==> a.nodes[i] == b.nodes[i],
    ensures
        a.revisions_among(n) == b.revisions_among(n),
    decreases n,
{
    if n > 0 {
        lemma_revisions_among_same(a, b, (n - 1) as nat);
    }
}

/// Putting another node in the place of one alternative changes the number
/// of messages under revision by what the two nodes differ in.
pub proof fn lemma_update_revisions(level: Level, after: Level, i: int, node: NodeView)
    requires
        0 <= i < level.nodes.len(),
        after.nodes == level.nodes.update(i, node),
    ensures
        after.revisions() + level.nodes[i].revisions() == level.revisions() + node.revisions(),
{
    lemma_update_revisions_among(level, after, i, node, level.nodes.len());
}

proof fn lemma_update_revisions_among(level: Level, after: Level, i: int, node: NodeView, n: nat)
    requires
        0 <= i < n <= level.nodes.len(),
        after.nodes == level.nodes.update(i, node),
    ensures
        after.revisions_among(n) + level.nodes[i].revisions() == level.revisions_among(n)
            + node.revisions(),
    decreases n,
{
    if n == i + 1 {
        lemma_revisions_among_same(level, after, i as nat);
    } else {
        lemma_update_revisions_among(level, after, i, node, (n - 1) as nat);
        assert(after.nodes[n - 1] == level.nodes[n - 1]);
    }
}

/// One more alternative adds the messages that are under revision in it.
pub proof fn lemma_push_revisions(level: Level, after: Level, node: NodeView)
    requires
        after.nodes == level.nodes.push(node),
    ensures
        after.revisions() == level.revisions() + node.revisions(),
{
    lemma_revisions_among_same(level, after, level.nodes.len());
}

/// One alternative less takes the messages along that are under revision in
/// it.
pub proof fn lemma_remove_revisions(level: Level, after: Level, i: int)
    requires
        0 <= i < level.nodes.len(),
        after.nodes == level.nodes.remove(i),
    ensures
        after.revisions() + level.nodes[i].revisions() == level.revisions(),
{
    lemma_remove_revisions_among(level, after, i, after.nodes.len());
}

proof fn lemma_remove_revisions_among(level: Level, after: Level, i: int, n: nat)
    requires
        0 <= i < level.nodes.len(),
        after.nodes == level.nodes.remove(i),
        i <= n <= after.nodes.len(),
    ensures
        after.revisions_among(n) + level.nodes[i].revisions() == level.revisions_among(n + 1),
    decreases n,
{
    if n == i {
        lemma_revisions_among_same(level, after, i as nat);
    } else {
        lemma_remove_revisions_among(level, after, i, (n - 1) as nat);
        assert(after.nodes[n - 1] == level.nodes[n as int]);
    }
}

/// Putting a level in place at a depth changes the number of messages under
/// revision by what the two levels differ in.
pub proof fn lemma_replaced_revisions(level: Level, depth: nat, new: Level)
    requires
        level.reaches(depth),
    ensures
        level.replaced_at(depth, new).revisions() + level.level_at(depth).revisions()
            == level.revisions() + new.revisions(),
    decreases depth,
{
    if depth > 0 {
        let node = level.active();
        let below = (depth - 1) as nat;
        lemma_replaced_revisions(node.children, below, new);
        lemma_update_revisions(
            level,
            level.replaced_at(depth, new),
            level.selected as int,
            node.with_children(node.children.replaced_at(below, new)),
        );
    }
}

/// Among more alternatives there are no fewer messages under revision.
pub proof fn lemma_revisions_among_grow(level: Level, n: nat, m: nat)
    requires
        n <= m <= level.nodes.len(),
    ensures
        level.revisions_among(n) <= level.revisions_among(m),
    decreases m,
{
    if n < m {
        lemma_revisions_among_grow(level, n, (m - 1) as nat);
    }
}

} // verus!
