//! A move seen from outside, as a conversation: the actions the machine
//! asked for, in order, the events that answered them, and how it ended.
//!
//! This file holds the words in which the laws of the crate are stated: what
//! a conversation is, what lies under a source directory, and which actions
//! and events make up the copy of a directory.

use crate::machine::{initial, transition, FrameView, MachineView, StepView};
use crate::model::{MoveRequestView, OutcomeView};
use crate::platform::joined_path;
use crate::protocol::{ActionView, EntryView, EventView};
use vstd::prelude::*;

verus! {

/// Where a conversation stands after its last event.
pub enum RunEnd {
    /// The machine waits for the answer to the last action.
    Waiting(MachineView),
    /// The move is over.
    Finished(OutcomeView),
}

/// A conversation: the actions that were asked for, and where it stands.
pub struct RunView {
    pub actions: Seq<ActionView>,
    pub end: RunEnd,
}

/// The conversation that goes on from `step` with `events` as the answers,
/// one event for each action. Events that come after the move is over
/// answer nothing and change nothing.
pub open spec fn continued(step: StepView, events: Seq<EventView>) -> RunView
    decreases events.len(),
{
    match step {
        StepView::Done(outcome) => RunView {
            actions: Seq::empty(),
            end: RunEnd::Finished(outcome),
        },
        StepView::Next(machine, action) => {
            if events.len() == 0 {
                RunView { actions: seq![action], end: RunEnd::Waiting(machine) }
            } else {
                let rest = continued(transition(machine, events[0]), events.drop_first());
                RunView { actions: seq![action] + rest.actions, end: rest.end }
            }
        },
    }
}

/// The conversation of the move that `request` asks for, from its first
/// action, with `events` as the answers.
pub open spec fn conversation(request: MoveRequestView, events: Seq<EventView>) -> RunView {
    continued(StepView::Next(initial(request).0, initial(request).1), events)
}

/// What is found at a path: a file with its bytes, or a directory with its
/// entries in the order in which a listing gives them.
pub enum Node {
    File(Seq<u8>),
    Dir(Seq<Child>),
}

/// A named entry of a directory.
pub struct Child {
    pub name: Seq<char>,
    pub node: Node,
}

/// The listing of a directory that holds `children`.
pub open spec fn listing(children: Seq<Child>) -> Seq<EntryView> {
    Seq::new(
        children.len(),
        |i: int| EntryView { name: children[i].name, is_dir: children[i].node is Dir },
    )
}

/// The actions that copy a directory holding `children` from `source` to
/// `target`: the target directory is created, the source is listed, and
/// then the entries are copied.
pub open spec fn copy_dir_actions(
    source: Seq<char>,
    target: Seq<char>,
    children: Seq<Child>,
) -> Seq<ActionView>
    decreases children, 1nat,
{
    seq![ActionView::CreateDirAll(target), ActionView::ReadDir(source)] + copy_entries_actions(
        source,
        target,
        children,
    )
}

/// The actions that copy `children`, the entries of `source`, to `target`,
/// one entry after the other in their order: a file is copied to the same
/// name under `target`, a directory is copied there with all that it holds.
pub open spec fn copy_entries_actions(
    source: Seq<char>,
    target: Seq<char>,
    children: Seq<Child>,
) -> Seq<ActionView>
    decreases children, 0nat,
{
    if children.len() == 0 {
        Seq::empty()
    } else {
        let from = joined_path(source, children[0].name);
        let to = joined_path(target, children[0].name);
        let first = match children[0].node {
            Node::File(_) => seq![ActionView::CopyFile { from, to }],
            Node::Dir(inner) => copy_dir_actions(from, to, inner),
        };
        first + copy_entries_actions(source, target, children.drop_first())
    }
}

/// The events of a filesystem that carries out, without a failure, the copy
/// of a directory holding `children`.
pub open spec fn copy_dir_events(children: Seq<Child>) -> Seq<EventView>
    decreases children, 1nat,
{
    seq![EventView::Completed, EventView::Listed(listing(children))] + copy_entries_events(children)
}

/// The events of a filesystem that carries out, without a failure, the copy
/// of the entries `children`.
pub open spec fn copy_entries_events(children: Seq<Child>) -> Seq<EventView>
    decreases children, 0nat,
{
    if children.len() == 0 {
        Seq::empty()
    } else {
        let first = match children[0].node {
            Node::File(_) => seq![EventView::Completed],
            Node::Dir(inner) => copy_dir_events(inner),
        };
        first + copy_entries_events(children.drop_first())
    }
}

/// The node that `path` leads to from `node`. Each number of the path picks
/// an entry of the directory that has been reached so far, counted from 0
/// in the listing's order. There is none where the path leaves the tree.
pub open spec fn node_at(node: Node, path: Seq<int>) -> Option<Node>
    decreases path.len(),
{
    if path.len() == 0 {
        Some(node)
    } else {
        match node {
            Node::Dir(children) if 0 <= path[0] < children.len() => node_at(
                children[path[0]].node,
                path.drop_first(),
            ),
            _ => None,
        }
    }
}

/// Where the node that `path` leads to lies when `node` lies at `base`:
/// `base` extended, name by name, by the names of the entries on the way.
pub open spec fn place_at(base: Seq<char>, node: Node, path: Seq<int>) -> Seq<char>
    decreases path.len(),
{
    if path.len() == 0 {
        base
    } else {
        match node {
            Node::Dir(children) if 0 <= path[0] < children.len() => place_at(
                joined_path(base, children[path[0]].name),
                children[path[0]].node,
                path.drop_first(),
            ),
            _ => base,
        }
    }
}

/// Whether the directories that are being copied have all given up their
/// last entry.
pub open spec fn nothing_left(frames: Seq<FrameView>) -> bool {
    forall|i: int| 0 <= i < frames.len() ==> (#[trigger] frames[i]).rest.len() == 0
}

/// The events up to the point where the copy starts: the source exists, the
/// target does not, and the rename fails with `rename_error`.
pub open spec fn fallback_events(rename_error: Seq<char>) -> Seq<EventView> {
    seq![EventView::Answer(true), EventView::Answer(false), EventView::Failed(rename_error)]
}

/// The actions up to the point where the copy starts: the two checks, the
/// rename, and the question whether the source is a directory.
pub open spec fn fallback_actions(request: MoveRequestView) -> Seq<ActionView> {
    seq![
        ActionView::Exists(request.source),
        ActionView::Exists(request.target),
        ActionView::Rename { from: request.source, to: request.target },
        ActionView::IsDir(request.source),
    ]
}

} // verus!
