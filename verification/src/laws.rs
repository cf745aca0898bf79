//! What holds of the conversation store whatever it contains: the laws that
//! relate its operations to each other.

use crate::edit::{EditActionView, EditState};
use crate::message::{committed_all, MessageView};
use crate::tree::{
    lemma_apply_at_replaces, lemma_path_split, lemma_push_revisions, lemma_remove_revisions,
    lemma_replaced_level, lemma_replaced_path, lemma_replaced_revisions, lemma_replaced_same,
    lemma_replaced_twice, lemma_revisions_among_same, lemma_update_revisions, Level, LevelOp,
    NodeView,
};
use vstd::prelude::*;

verus! {

/// Adding a message lengthens the active path by that message and leaves
/// the messages before it as they were.
pub proof fn law_push_extends_path(level: Level, message: MessageView)
    ensures
        level.pushed(message).path() == level.path().push(message),
    decreases level,
{
    if level.has_active() {
        law_push_extends_path(level.active().children, message);
        assert(level.pushed(message).path() =~= level.path().push(message));
    } else {
        assert(Level::empty().path() =~= Seq::<MessageView>::empty());
        assert(level.pushed(message).path() =~= level.path().push(message));
    }
}

/// Messages added one after the other to any conversation stand at the end
/// of its active path, in the order in which they were added.
pub proof fn law_pushes_extend_path(level: Level, messages: Seq<MessageView>)
    ensures
        level.pushed_all(messages).path() == level.path() + messages,
    decreases messages.len(),
{
    if messages.len() == 0 {
        assert(level.path() + messages =~= level.path());
    } else {
        law_push_extends_path(level, messages[0]);
        law_pushes_extend_path(level.pushed(messages[0]), messages.drop_first());
        assert(level.path().push(messages[0]) + messages.drop_first() =~= level.path()
            + messages);
    }
}

/// After any sequence of messages was added to an empty conversation, the
/// active path holds exactly those messages, in the order in which they were
/// added, and what a reader gets is a copy of each without its edit buffer.
pub proof fn law_pushes_form_the_path(messages: Seq<MessageView>)
    ensures
        Level::empty().pushed_all(messages).path() == messages,
        Level::empty().pushed_all(messages).transcript() == committed_all(messages),
{
    law_pushes_extend_path(Level::empty(), messages);
    assert(Level::empty().path() =~= Seq::<MessageView>::empty());
    assert(Level::empty().path() + messages =~= messages);
}

/// Stepping to the next alternative when the last one is selected adds one
/// alternative and destroys nothing: the alternatives that were there stay
/// as they were, each with all that follows it, the new one has no
/// continuation and is selected, the turns before that depth are unchanged,
/// and the active path ends with the new message.
pub proof fn law_next_at_last_branches(level: Level, depth: nat, message: MessageView)
    requires
        level.reaches(depth),
        level.level_at(depth).selected + 1 == level.level_at(depth).nodes.len(),
    ensures
        level.creates_at(depth, LevelOp::Next(message)),
        ({
            let before = level.level_at(depth);
            let after = level.apply_at(depth, LevelOp::Next(message));
            &&& after.level_at(depth).nodes.len() == before.nodes.len() + 1
            &&& after.level_at(depth).nodes.take(before.nodes.len() as int) == before.nodes
            &&& after.level_at(depth).nodes.last() == NodeView::leaf(message)
            &&& after.level_at(depth).selected == before.nodes.len()
            &&& after.path() == level.path().take(depth as int).push(message)
        }),
{
    let before = level.level_at(depth);
    let grown = before.apply_here(LevelOp::Next(message));
    lemma_apply_at_replaces(level, depth, LevelOp::Next(message));
    lemma_replaced_level(level, depth, grown);
    lemma_replaced_path(level, depth, grown);
    assert(grown.nodes.take(before.nodes.len() as int) =~= before.nodes);
    assert(Level::empty().path() =~= Seq::<MessageView>::empty());
    assert(grown.path() =~= seq![message]);
    assert(level.path().take(depth as int) + seq![message] =~= level.path().take(
        depth as int,
    ).push(message));
}

/// Stepping to the next alternative when a later one exists selects it and
/// adds nothing.
pub proof fn law_next_selects_existing(level: Level, depth: nat, message: MessageView)
    requires
        level.reaches(depth),
        level.level_at(depth).selected + 1 < level.level_at(depth).nodes.len(),
    ensures
        !level.creates_at(depth, LevelOp::Next(message)),
        ({
            let before = level.level_at(depth);
            let after = level.apply_at(depth, LevelOp::Next(message));
            &&& after.level_at(depth).nodes == before.nodes
            &&& after.level_at(depth).selected == before.selected + 1
            &&& after.path().take(depth as int) == level.path().take(depth as int)
        }),
{
    let before = level.level_at(depth);
    let moved = before.apply_here(LevelOp::Next(message));
    lemma_apply_at_replaces(level, depth, LevelOp::Next(message));
    lemma_replaced_level(level, depth, moved);
    lemma_replaced_path(level, depth, moved);
    lemma_path_split(level, depth);
    assert((level.path().take(depth as int) + moved.path()).take(depth as int)
        =~= level.path().take(depth as int));
}

/// Stepping to the previous alternative when the first one is selected
/// changes nothing, however often it is done.
pub proof fn law_previous_at_first_is_noop(level: Level, depth: nat)
    requires
        level.level_at(depth).selected == 0,
    ensures
        level.apply_at(depth, LevelOp::Previous) == level,
        level.apply_at(depth, LevelOp::Previous).apply_at(depth, LevelOp::Previous) == level,
{
    lemma_apply_at_replaces(level, depth, LevelOp::Previous);
    if level.reaches(depth) {
        lemma_replaced_same(level, depth);
    }
}

/// The level at `depth` while the selected message, which was not under
/// revision, is being revised with `buffer`.
pub open spec fn revising(level: Level, buffer: EditState) -> Level {
    let m = level.active().message;
    level.with_active(
        level.active().with_message(
            MessageView { owner_type: m.owner_type, text: m.text, editing: Some(buffer) },
        ),
    )
}

/// Editing actions at a depth act on the edit buffer of the message there
/// and on nothing else.
proof fn lemma_edits_act_on_buffer(
    level: Level,
    depth: nat,
    buffer: EditState,
    actions: Seq<EditActionView>,
)
    requires
        level.reaches(depth),
    ensures
        level.replaced_at(depth, revising(level.level_at(depth), buffer)).edited_at(
            depth,
            actions,
        ) == level.replaced_at(depth, revising(level.level_at(depth), buffer.apply_all(actions))),
    decreases actions.len(),
{
    if actions.len() > 0 {
        let here = level.level_at(depth);
        let start = level.replaced_at(depth, revising(here, buffer));
        let op = LevelOp::Edit(actions[0]);
        lemma_replaced_level(level, depth, revising(here, buffer));
        lemma_apply_at_replaces(start, depth, op);
        lemma_replaced_twice(
            level,
            depth,
            revising(here, buffer),
            revising(here, buffer).apply_here(op),
        );
        assert(revising(here, buffer).apply_here(op).nodes =~= revising(
            here,
            buffer.apply(actions[0]),
        ).nodes);
        lemma_edits_act_on_buffer(level, depth, buffer.apply(actions[0]), actions.drop_first());
    }
}

/// Starting to revise a message, editing the revision in any way and then
/// aborting leaves the conversation exactly as it was before the revision
/// began; so the active path is the same, message for message.
pub proof fn law_abort_restores(level: Level, depth: nat, actions: Seq<EditActionView>)
    requires
        level.reaches(depth) ==> level.level_at(depth).active().message.editing is None,
    ensures
        level.apply_at(depth, LevelOp::ToggleEdit).edited_at(depth, actions).apply_at(
            depth,
            LevelOp::AbortEdit,
        ) == level,
        level.apply_at(depth, LevelOp::ToggleEdit).edited_at(depth, actions).apply_at(
            depth,
            LevelOp::AbortEdit,
        ).transcript() == level.transcript(),
{
    lemma_apply_at_replaces(level, depth, LevelOp::ToggleEdit);
    if level.reaches(depth) {
        let here = level.level_at(depth);
        let text = here.active().message.text;
        let done = EditState::fresh(text).apply_all(actions);
        lemma_edits_act_on_buffer(level, depth, EditState::fresh(text), actions);
        let edited = level.replaced_at(depth, revising(here, done));
        lemma_replaced_level(level, depth, revising(here, done));
        lemma_apply_at_replaces(edited, depth, LevelOp::AbortEdit);
        lemma_replaced_twice(
            level,
            depth,
            revising(here, done),
            revising(here, done).apply_here(LevelOp::AbortEdit),
        );
        assert(revising(here, done).apply_here(LevelOp::AbortEdit).nodes =~= here.nodes);
        lemma_replaced_same(level, depth);
    } else {
        lemma_edits_keep_unreached(level, depth, actions);
        lemma_apply_at_replaces(level, depth, LevelOp::AbortEdit);
    }
}

/// Where the active path has no turn at a depth, editing actions at that
/// depth change nothing.
proof fn lemma_edits_keep_unreached(level: Level, depth: nat, actions: Seq<EditActionView>)
    requires
        !level.reaches(depth),
    ensures
        level.edited_at(depth, actions) == level,
    decreases actions.len(),
{
    if actions.len() > 0 {
        lemma_apply_at_replaces(level, depth, LevelOp::Edit(actions[0]));
        lemma_edits_keep_unreached(level, depth, actions.drop_first());
    }
}

/// Starting to revise a message, editing the revision and committing it
/// adds the edited text as a new alternative for that turn, by the same
/// author, without continuation, and selects it: the active path keeps the
/// turns before that depth and ends with the new message. Nothing is
/// destroyed: the alternatives that were there, the revised message among
/// them, stay as they were at the index they had, each with all that follows
/// it.
pub proof fn law_commit_forks(level: Level, depth: nat, actions: Seq<EditActionView>)
    requires
        level.reaches(depth),
        level.level_at(depth).active().message.editing is None,
    ensures
        ({
            let before = level.level_at(depth);
            let first = before.active().message;
            let edited = MessageView::plain(
                first.owner_type,
                EditState::fresh(first.text).apply_all(actions).text,
            );
            let revised = level.apply_at(depth, LevelOp::ToggleEdit).edited_at(depth, actions);
            let after = revised.apply_at(depth, LevelOp::ToggleEdit);
            &&& revised.creates_at(depth, LevelOp::ToggleEdit)
            &&& after.level_at(depth).nodes == before.nodes.push(NodeView::leaf(edited))
            &&& after.level_at(depth).selected == before.nodes.len()
            &&& after.level_at(depth).nodes[before.selected as int] == before.active()
            &&& after.path() == level.path().take(depth as int).push(edited)
        }),
{
    let here = level.level_at(depth);
    let first = here.active().message;
    let done = EditState::fresh(first.text).apply_all(actions);
    let edited = MessageView::plain(first.owner_type, done.text);
    lemma_apply_at_replaces(level, depth, LevelOp::ToggleEdit);
    lemma_edits_act_on_buffer(level, depth, EditState::fresh(first.text), actions);
    let revised = level.replaced_at(depth, revising(here, done));
    lemma_replaced_level(level, depth, revising(here, done));
    lemma_apply_at_replaces(revised, depth, LevelOp::ToggleEdit);
    let forked = revising(here, done).apply_here(LevelOp::ToggleEdit);
    lemma_replaced_twice(level, depth, revising(here, done), forked);
    lemma_replaced_level(level, depth, forked);
    lemma_replaced_path(level, depth, forked);
    assert(forked.nodes =~= here.nodes.push(NodeView::leaf(edited)));
    assert(Level::empty().path() =~= Seq::<MessageView>::empty());
    assert(forked.path() =~= seq![edited]);
    assert(level.path().take(depth as int) + seq![edited] =~= level.path().take(
        depth as int,
    ).push(edited));
}

/// Text that is streamed into a conversation ends up, piece after piece, at
/// the end of the last message of the active path; the messages before it
/// and the length of the path stay as they were.
pub proof fn law_append_extends_last(level: Level, delta: Seq<char>)
    requires
        level.has_active(),
    ensures
        level.appended(delta).path().len() == level.path().len(),
        level.appended(delta).path().drop_last() == level.path().drop_last(),
        level.appended(delta).path().last().text == level.path().last().text + delta,
        level.appended(delta).path().last().owner_type == level.path().last().owner_type,
    decreases level,
{
    let below = level.active().children;
    if below.has_active() {
        law_append_extends_last(below, delta);
        let head = seq![level.active().message];
        let after = below.appended(delta).path();
        assert(level.appended(delta).path() =~= head + after);
        assert(level.path() =~= head + below.path());
        assert((head + after).drop_last() =~= head + after.drop_last());
        assert((head + below.path()).drop_last() =~= head + below.path().drop_last());
    } else {
        assert(below.path() =~= Seq::<MessageView>::empty());
        assert(level.appended(delta).path().drop_last() =~= level.path().drop_last());
    }
}

/// The first `n` messages that a reader gets are a prefix of all of them,
/// and never more than `n`.
pub proof fn law_prefix(level: Level, n: nat)
    ensures
        level.transcript_until(n).len() <= n,
        level.transcript_until(n).len() <= level.transcript().len(),
        level.transcript_until(n) == level.transcript().take(
            level.transcript_until(n).len() as int,
        ),
        level.transcript_until(0) == Seq::<MessageView>::empty(),
{
    assert(level.transcript().take(level.transcript().len() as int) =~= level.transcript());
    assert(level.transcript_until(0) =~= Seq::<MessageView>::empty());
}

/// How an operation on one level changes the number of messages under
/// revision: starting a revision adds one, committing or aborting one takes
/// one away, a new alternative adds what it brings, a removed one takes
/// along what it holds, and nothing else changes the number.
proof fn lemma_apply_here_revisions(level: Level, op: LevelOp)
    requires
        level.has_active(),
    ensures
        ({
            let before = level.revisions();
            let after = level.apply_here(op).revisions();
            let revised = level.active().message.editing is Some;
            match op {
                LevelOp::Next(message) => after == before + (if level.creates(op)
                    && message.editing is Some {
                    1nat
                } else {
                    0nat
                }),
                LevelOp::Previous => after == before,
                LevelOp::ToggleEdit => if revised {
                    after + 1 == before
                } else {
                    after == before + 1
                },
                LevelOp::AbortEdit => if revised {
                    after + 1 == before
                } else {
                    after == before
                },
                LevelOp::Edit(_) => after == before,
                LevelOp::Remove => after + level.active().revisions() == before,
            }
        }),
{
    let node = level.active();
    let m = node.message;
    let after = level.apply_here(op);
    let at = level.selected as int;
    assert(Level::empty().revisions() == 0);
    match op {
        LevelOp::Next(message) => {
            if level.selected + 1 < level.nodes.len() {
                lemma_revisions_among_same(level, after, level.nodes.len());
            } else {
                lemma_push_revisions(level, after, NodeView::leaf(message));
            }
        },
        LevelOp::Previous => {
            lemma_revisions_among_same(level, after, level.nodes.len());
        },
        LevelOp::ToggleEdit => {
            match m.editing {
                None => {
                    lemma_update_revisions(level, after, at, after.nodes[at]);
                },
                Some(buffer) => {
                    let kept = level.with_active(node.with_message(m.committed()));
                    lemma_update_revisions(level, kept, at, kept.nodes[at]);
                    lemma_push_revisions(
                        kept,
                        after,
                        NodeView::leaf(MessageView::plain(m.owner_type, buffer.text)),
                    );
                },
            }
        },
        LevelOp::AbortEdit => {
            lemma_update_revisions(level, after, at, after.nodes[at]);
        },
        LevelOp::Edit(_) => {
            if m.editing is Some {
                lemma_update_revisions(level, after, at, after.nodes[at]);
            }
        },
        LevelOp::Remove => {
            lemma_remove_revisions(level, after, at);
        },
    }
}

/// Editing is meant for one message at a time, and every command but one
/// keeps it so: the number of messages under revision, on the active path
/// or off it, goes up only when a revision is started, and then by one (or
/// when a message is added that brings an edit buffer along). Committing or
/// aborting a revision takes one away; stepping between alternatives and
/// editing change nothing; removing an alternative takes away what it held.
pub proof fn law_revisions(level: Level, depth: nat, op: LevelOp)
    ensures
        ({
            let before = level.revisions();
            let after = level.apply_at(depth, op).revisions();
            let here = level.level_at(depth);
            let revised = here.active().message.editing is Some;
            if !level.reaches(depth) {
                after == before
            } else {
                match op {
                    LevelOp::Next(message) => after == before + (if here.creates(op)
                        && message.editing is Some {
                        1nat
                    } else {
                        0nat
                    }),
                    LevelOp::Previous => after == before,
                    LevelOp::ToggleEdit => if revised {
                        after + 1 == before
                    } else {
                        after == before + 1
                    },
                    LevelOp::AbortEdit => if revised {
                        after + 1 == before
                    } else {
                        after == before
                    },
                    LevelOp::Edit(_) => after == before,
                    LevelOp::Remove => after + here.active().revisions() == before,
                }
            }
        }),
{
    lemma_apply_at_replaces(level, depth, op);
    if level.reaches(depth) {
        let here = level.level_at(depth);
        lemma_apply_here_revisions(here, op);
        lemma_replaced_revisions(level, depth, here.apply_here(op));
    }
}

/// Adding a message adds what it brings to the number of messages under
/// revision, and streaming text into the last message changes nothing.
pub proof fn law_push_and_append_keep_revisions(level: Level, message: MessageView, delta: Seq<char>)
    requires
        level.wf(),
    ensures
        level.pushed(message).revisions() == level.revisions() + (if message.editing is Some {
            1nat
        } else {
            0nat
        }),
        level.appended(delta).revisions() == level.revisions(),
    decreases level,
{
    assert(Level::empty().revisions() == 0);
    if level.has_active() {
        let node = level.active();
        let at = level.selected as int;
        assert(node.children.wf());
        law_push_and_append_keep_revisions(node.children, message, delta);
        lemma_update_revisions(
            level,
            level.pushed(message),
            at,
            node.with_children(node.children.pushed(message)),
        );
        lemma_update_revisions(level, level.appended(delta), at, level.appended(delta).nodes[at]);
    } else {
        lemma_push_revisions(Level::empty(), level.pushed(message), NodeView::leaf(message));
        assert(level.pushed(message).nodes =~= Level::empty().nodes.push(NodeView::leaf(message)));
    }
}

} // verus!
