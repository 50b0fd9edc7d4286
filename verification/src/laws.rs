//! What holds of every move, proved from the model in `machine`.
//!
//! The laws are the public proof functions at the end of this file; each one
//! says in its comment what it states. The lemmas before them carry the
//! proofs.

use crate::conversation::{
    continued, conversation, copy_dir_actions, copy_dir_events, copy_entries_actions,
    copy_entries_events, fallback_actions, fallback_events, listing, node_at, nothing_left,
    place_at, Child, Node, RunEnd, RunView,
};
use crate::handler::{outcome_reply, STATUS_BAD_REQUEST, STATUS_FORBIDDEN};
use crate::machine::{initial, next_work, transition, FrameView, MachineView, StageView, StepView};
use crate::model::{EnvelopeView, MoveRequestView, OutcomeView, RejectionView};
use crate::platform::joined_path;
use crate::protocol::{ActionView, EntryView, EventView};
use crate::routes::admitted;
use vstd::prelude::*;

verus! {

/// The conversation `run` with `actions` asked for before it.
spec fn preceded(actions: Seq<ActionView>, run: RunView) -> RunView {
    RunView { actions: actions + run.actions, end: run.end }
}

proof fn lemma_preceded_twice(first: Seq<ActionView>, second: Seq<ActionView>, run: RunView)
    ensures
        preceded(first, preceded(second, run)) == preceded(first + second, run),
{
    assert(first + (second + run.actions) =~= (first + second) + run.actions);
}

proof fn lemma_one_event(
    machine: MachineView,
    action: ActionView,
    event: EventView,
    more: Seq<EventView>,
)
    ensures
        continued(StepView::Next(machine, action), seq![event] + more) == preceded(
            seq![action],
            continued(transition(machine, event), more),
        ),
{
    let events = seq![event] + more;
    assert(events[0] == event);
    assert(events.drop_first() =~= more);
}

proof fn lemma_fallback(request: MoveRequestView, rename_error: Seq<char>, more: Seq<EventView>)
    ensures
        conversation(request, fallback_events(rename_error) + more) == preceded(
            fallback_actions(request).drop_last(),
            continued(
                StepView::Next(
                    MachineView { request, stage: StageView::ProbingKind, frames: Seq::empty() },
                    ActionView::IsDir(request.source),
                ),
                more,
            ),
        ),
{
    let frames = Seq::<FrameView>::empty();
    let checking_source = MachineView { request, stage: StageView::CheckingSource, frames };
    let checking_target = MachineView { request, stage: StageView::CheckingTarget, frames };
    let renaming = MachineView { request, stage: StageView::Renaming, frames };
    let probing = MachineView { request, stage: StageView::ProbingKind, frames };
    let exists_source = ActionView::Exists(request.source);
    let exists_target = ActionView::Exists(request.target);
    let rename = ActionView::Rename { from: request.source, to: request.target };
    let is_dir = ActionView::IsDir(request.source);
    let failed = EventView::Failed(rename_error);
    let onward = continued(StepView::Next(probing, is_dir), more);
    assert(fallback_events(rename_error) + more =~= seq![EventView::Answer(true)] + (
    seq![EventView::Answer(false)] + (seq![failed] + more)));
    lemma_one_event(
        checking_source,
        exists_source,
        EventView::Answer(true),
        seq![EventView::Answer(false)] + (seq![failed] + more),
    );
    lemma_one_event(checking_target, exists_target, EventView::Answer(false), seq![failed] + more);
    lemma_one_event(renaming, rename, failed, more);
    lemma_preceded_twice(seq![exists_target], seq![rename], onward);
    lemma_preceded_twice(seq![exists_source], seq![exists_target] + seq![rename], onward);
    assert(seq![exists_source] + (seq![exists_target] + seq![rename]) =~= fallback_actions(
        request,
    ).drop_last());
}

proof fn lemma_entries_are_copied(
    request: MoveRequestView,
    below: Seq<FrameView>,
    source: Seq<char>,
    target: Seq<char>,
    children: Seq<Child>,
    more: Seq<EventView>,
)
    ensures
        continued(
            next_work(request, below.push(FrameView { source, target, rest: listing(children) })),
            copy_entries_events(children) + more,
        ) == preceded(
            copy_entries_actions(source, target, children),
            continued(next_work(request, below), more),
        ),
    decreases children,
{
    let frames = below.push(FrameView { source, target, rest: listing(children) });
    let onward = continued(next_work(request, below), more);
    assert(frames.drop_last() =~= below);
    if children.len() == 0 {
        assert(copy_entries_events(children) + more =~= more);
        assert(copy_entries_actions(source, target, children) + onward.actions =~= onward.actions);
    } else {
        let later = children.drop_first();
        let from = joined_path(source, children[0].name);
        let to = joined_path(target, children[0].name);
        let waiting = below.push(FrameView { source, target, rest: listing(later) });
        assert(listing(children).drop_first() =~= listing(later));
        assert(listing(children)[0] == EntryView {
            name: children[0].name,
            is_dir: children[0].node is Dir,
        });
        lemma_entries_are_copied(request, below, source, target, later, more);
        let later_run = continued(next_work(request, waiting), copy_entries_events(later) + more);
        match children[0].node {
            Node::File(_) => {
                let machine = MachineView {
                    request,
                    stage: StageView::CopyingEntry,
                    frames: waiting,
                };
                let action = ActionView::CopyFile { from, to };
                assert(next_work(request, frames) == StepView::Next(machine, action));
                assert(copy_entries_events(children) + more =~= seq![EventView::Completed] + (
                copy_entries_events(later) + more));
                lemma_one_event(
                    machine,
                    action,
                    EventView::Completed,
                    copy_entries_events(later) + more,
                );
                lemma_preceded_twice(
                    seq![action],
                    copy_entries_actions(source, target, later),
                    onward,
                );
            },
            Node::Dir(inner) => {
                let creating = MachineView {
                    request,
                    stage: StageView::CreatingDir { source: from, target: to },
                    frames: waiting,
                };
                let listing_dir = MachineView {
                    request,
                    stage: StageView::ListingDir { source: from, target: to },
                    frames: waiting,
                };
                let create = ActionView::CreateDirAll(to);
                let list = ActionView::ReadDir(from);
                let after_inner = copy_entries_events(later) + more;
                assert(next_work(request, frames) == StepView::Next(creating, create));
                assert(copy_dir_events(inner) =~= seq![
                    EventView::Completed,
                    EventView::Listed(listing(inner)),
                ] + copy_entries_events(inner));
                assert(copy_dir_actions(from, to, inner) =~= seq![create, list]
                    + copy_entries_actions(from, to, inner));
                assert(copy_entries_events(children) + more =~= seq![EventView::Completed] + (
                seq![EventView::Listed(listing(inner))] + (copy_entries_events(inner)
                    + after_inner)));
                lemma_one_event(
                    creating,
                    create,
                    EventView::Completed,
                    seq![EventView::Listed(listing(inner))] + (copy_entries_events(inner)
                        + after_inner),
                );
                lemma_one_event(
                    listing_dir,
                    list,
                    EventView::Listed(listing(inner)),
                    copy_entries_events(inner) + after_inner,
                );
                lemma_entries_are_copied(request, waiting, from, to, inner, after_inner);
                lemma_preceded_twice(
                    copy_entries_actions(from, to, inner),
                    copy_entries_actions(source, target, later),
                    onward,
                );
                lemma_preceded_twice(
                    seq![list],
                    copy_entries_actions(from, to, inner) + copy_entries_actions(
                        source,
                        target,
                        later,
                    ),
                    onward,
                );
                lemma_preceded_twice(
                    seq![create],
                    seq![list] + (copy_entries_actions(from, to, inner) + copy_entries_actions(
                        source,
                        target,
                        later,
                    )),
                    onward,
                );
                assert(seq![create] + (seq![list] + (copy_entries_actions(from, to, inner)
                    + copy_entries_actions(source, target, later))) =~= copy_entries_actions(
                    source,
                    target,
                    children,
                ));
            },
        }
    }
}

proof fn lemma_contained_in_sum(
    before: Seq<ActionView>,
    middle: Seq<ActionView>,
    after: Seq<ActionView>,
    action: ActionView,
)
    requires
        middle.contains(action),
    ensures
        (before + middle + after).contains(action),
{
    let i = choose|i: int| 0 <= i < middle.len() && middle[i] == action;
    assert((before + middle + after)[before.len() + i] == action);
}

proof fn lemma_entry_is_part_of_the_copy(
    source: Seq<char>,
    target: Seq<char>,
    children: Seq<Child>,
    i: int,
    action: ActionView,
)
    requires
        0 <= i < children.len(),
        match children[i].node {
            Node::File(_) => action == ActionView::CopyFile {
                from: joined_path(source, children[i].name),
                to: joined_path(target, children[i].name),
            },
            Node::Dir(inner) => copy_dir_actions(
                joined_path(source, children[i].name),
                joined_path(target, children[i].name),
                inner,
            ).contains(action),
        },
    ensures
        copy_entries_actions(source, target, children).contains(action),
    decreases i,
{
    let none = Seq::<ActionView>::empty();
    let from = joined_path(source, children[0].name);
    let to = joined_path(target, children[0].name);
    let first = match children[0].node {
        Node::File(_) => seq![ActionView::CopyFile { from, to }],
        Node::Dir(inner) => copy_dir_actions(from, to, inner),
    };
    let later = copy_entries_actions(source, target, children.drop_first());
    if i == 0 {
        assert(first.contains(action)) by {
            if children[0].node is File {
                assert(first[0] == action);
            }
        }
        lemma_contained_in_sum(none, first, later, action);
        assert(none + first + later =~= first + later);
    } else {
        assert(children.drop_first()[i - 1] == children[i]);
        lemma_entry_is_part_of_the_copy(source, target, children.drop_first(), i - 1, action);
        lemma_contained_in_sum(first, later, none, action);
        assert(first + later + none =~= first + later);
    }
}

/// Whether `action` is what a machine at `stage` waits for.
spec fn awaited(stage: StageView, action: ActionView) -> bool {
    match stage {
        StageView::CheckingSource | StageView::CheckingTarget => action is Exists,
        StageView::Renaming => action is Rename,
        StageView::ProbingKind => action is IsDir,
        StageView::CopyingFile | StageView::CopyingEntry => action is CopyFile,
        StageView::CreatingDir { .. } => action is CreateDirAll,
        StageView::ListingDir { .. } => action is ReadDir,
        StageView::RemovingFile => action is RemoveFile,
        StageView::RemovingDir => action is RemoveDirAll,
    }
}

spec fn in_step(step: StepView, request: MoveRequestView) -> bool {
    match step {
        StepView::Next(machine, action) => {
            &&& machine.request == request
            &&& awaited(machine.stage, action)
            &&& action is Rename ==> action == ActionView::Rename {
                from: request.source,
                to: request.target,
            }
            &&& action.removes() ==> action == ActionView::RemoveFile(request.source) || action
                == ActionView::RemoveDirAll(request.source)
        },
        StepView::Done(outcome) => outcome matches OutcomeView::Success(source) ==> source
            == request.source,
    }
}

proof fn lemma_next_work_in_step(request: MoveRequestView, frames: Seq<FrameView>)
    ensures
        in_step(next_work(request, frames), request),
        next_work(request, frames) is Next,
    decreases frames.len(),
{
    if frames.len() > 0 && frames.last().rest.len() == 0 {
        lemma_next_work_in_step(request, frames.drop_last());
    }
}

proof fn lemma_transition_in_step(machine: MachineView, action: ActionView, event: EventView)
    requires
        in_step(StepView::Next(machine, action), machine.request),
    ensures
        in_step(transition(machine, event), machine.request),
        action.removes() ==> transition(machine, event) is Done,
        event is Failed && !(action is Rename) ==> transition(machine, event) is Done,
        transition(machine, event) matches StepView::Done(OutcomeView::Success(_)) ==> {
            &&& event == EventView::Completed
            &&& action is Rename || action.removes()
        },
        event is Failed && !(action is Rename || action is Exists || action is IsDir) ==> (
        transition(machine, event) matches StepView::Done(
            OutcomeView::Rejected(RejectionView::FilesystemFailure(_)),
        )),
{
    match (machine.stage, event) {
        (StageView::ListingDir { source, target }, EventView::Listed(entries)) => {
            lemma_next_work_in_step(
                machine.request,
                machine.frames.push(FrameView { source, target, rest: entries }),
            );
        },
        (StageView::CopyingEntry, EventView::Completed) => {
            lemma_next_work_in_step(machine.request, machine.frames);
        },
        _ => {},
    }
}

proof fn lemma_removal_means_nothing_is_left(request: MoveRequestView, frames: Seq<FrameView>)
    requires
        next_work(request, frames) matches StepView::Next(_, action) && action.removes(),
    ensures
        nothing_left(frames),
    decreases frames.len(),
{
    if frames.len() > 0 {
        lemma_removal_means_nothing_is_left(request, frames.drop_last());
        assert forall|i: int| 0 <= i < frames.len() implies (#[trigger] frames[i]).rest.len()
            == 0 by {
            if i < frames.len() - 1 {
                assert(frames[i] == frames.drop_last()[i]);
            }
        }
    }
}

/// What holds of every conversation that goes on from a step of the move
/// that `request` asks for.
spec fn orderly(run: RunView, request: MoveRequestView, events: Seq<EventView>) -> bool {
    &&& run.actions.len() <= events.len() + 1
    &&& run.end is Waiting ==> run.actions.len() == events.len() + 1
    &&& run.end matches RunEnd::Finished(OutcomeView::Success(source)) ==> {
        let last = run.actions.len() - 1;
        &&& source == request.source
        &&& 0 <= last ==> {
            &&& last < events.len()
            &&& events[last] == EventView::Completed
            &&& run.actions[last] == ActionView::Rename {
                from: request.source,
                to: request.target,
            } || run.actions[last].removes()
        }
    }
    &&& forall|k: int|
        0 <= k < run.actions.len() && (#[trigger] run.actions[k]).removes() ==> {
            &&& k + 1 == run.actions.len()
            &&& run.actions[k] == ActionView::RemoveFile(request.source) || run.actions[k]
                == ActionView::RemoveDirAll(request.source)
        }
    &&& forall|i: int|
        0 <= i < run.actions.len() && i < events.len() && (#[trigger] events[i]) is Failed && !(
        run.actions[i] is Rename) ==> {
            &&& i + 1 == run.actions.len()
            &&& !(run.actions[i] is Exists || run.actions[i] is IsDir) ==> (
            run.end matches RunEnd::Finished(
                OutcomeView::Rejected(RejectionView::FilesystemFailure(_)),
            ))
        }
}

proof fn lemma_orderly(step: StepView, request: MoveRequestView, events: Seq<EventView>)
    requires
        in_step(step, request),
    ensures
        orderly(continued(step, events), request, events),
    decreases events.len(),
{
    let run = continued(step, events);
    match step {
        StepView::Done(_) => {},
        StepView::Next(machine, action) => {
            if events.len() > 0 {
                let later = events.drop_first();
                let rest = continued(transition(machine, events[0]), later);
                lemma_transition_in_step(machine, action, events[0]);
                lemma_orderly(transition(machine, events[0]), request, later);
                assert forall|k: int|
                    0 <= k < run.actions.len() && (#[trigger] run.actions[k]).removes() implies {
                    &&& k + 1 == run.actions.len()
                    &&& run.actions[k] == ActionView::RemoveFile(request.source) || run.actions[k]
                        == ActionView::RemoveDirAll(request.source)
                } by {
                    if k > 0 {
                        assert(run.actions[k] == rest.actions[k - 1]);
                    }
                }
                assert forall|i: int|
                    0 <= i < run.actions.len() && i < events.len() && (#[trigger] events[i])
                        is Failed && !(run.actions[i] is Rename) implies {
                    &&& i + 1 == run.actions.len()
                    &&& !(run.actions[i] is Exists || run.actions[i] is IsDir) ==> (
                    run.end matches RunEnd::Finished(
                        OutcomeView::Rejected(RejectionView::FilesystemFailure(_)),
                    ))
                } by {
                    if i > 0 {
                        assert(run.actions[i] == rest.actions[i - 1]);
                        assert(events[i] == later[i - 1]);
                    }
                }
            }
        },
    }
}

/// A request without the right credential is answered with 403 and the
/// fixed error envelope, whatever its body holds, and nothing is asked of
/// the filesystem.
pub proof fn law_bad_credential_is_forbidden(
    presented: Option<Seq<char>>,
    expected: Seq<char>,
    body: Result<MoveRequestView, Seq<char>>,
)
    requires
        presented != Some(expected),
    ensures
        admitted(presented, expected, body) matches StepView::Done(outcome) && outcome_reply(
            outcome,
        ) == (STATUS_FORBIDDEN, EnvelopeView { status: "error"@, message: "Invalid API key"@ }),
{
}

/// A move whose source does not exist ends with `SourceNotFound` for that
/// source, after the one question that found it missing. Moving the same
/// source again, once it is gone, therefore ends this way.
pub proof fn law_absent_source_is_not_found(request: MoveRequestView)
    ensures
        conversation(request, seq![EventView::Answer(false)]) == (RunView {
            actions: seq![ActionView::Exists(request.source)],
            end: RunEnd::Finished(
                OutcomeView::Rejected(RejectionView::SourceNotFound(request.source)),
            ),
        }),
{
    reveal_with_fuel(continued, 2);
}

/// A move whose target exists already ends with `TargetExists`, which is
/// answered with 400 and an error envelope. The two questions that lead
/// there are all that is asked: the filesystem is left as it was.
pub proof fn law_existing_target_is_left_alone(request: MoveRequestView)
    ensures
        ({
            let run = conversation(request, seq![EventView::Answer(true), EventView::Answer(true)]);
            &&& run.actions == seq![
                ActionView::Exists(request.source),
                ActionView::Exists(request.target),
            ]
            &&& run.end == RunEnd::Finished(OutcomeView::Rejected(RejectionView::TargetExists))
            &&& forall|i: int| 0 <= i < run.actions.len() ==> (#[trigger] run.actions[i]).inspects()
            &&& outcome_reply(OutcomeView::Rejected(RejectionView::TargetExists)).0
                == STATUS_BAD_REQUEST
            &&& outcome_reply(OutcomeView::Rejected(RejectionView::TargetExists)).1.status
                == "error"@
        }),
{
    reveal_with_fuel(continued, 3);
}

/// Where the rename succeeds, a move is the two checks and the rename, and
/// it ends in `Success` for the source.
pub proof fn law_rename_is_the_whole_move(request: MoveRequestView)
    ensures
        conversation(
            request,
            seq![EventView::Answer(true), EventView::Answer(false), EventView::Completed],
        ) == (RunView {
            actions: seq![
                ActionView::Exists(request.source),
                ActionView::Exists(request.target),
                ActionView::Rename { from: request.source, to: request.target },
            ],
            end: RunEnd::Finished(OutcomeView::Success(request.source)),
        }),
{
    let frames = Seq::<FrameView>::empty();
    let checking_source = MachineView { request, stage: StageView::CheckingSource, frames };
    let checking_target = MachineView { request, stage: StageView::CheckingTarget, frames };
    let renaming = MachineView { request, stage: StageView::Renaming, frames };
    let exists_source = ActionView::Exists(request.source);
    let exists_target = ActionView::Exists(request.target);
    let rename = ActionView::Rename { from: request.source, to: request.target };
    let none = Seq::<EventView>::empty();
    let events = seq![EventView::Answer(true), EventView::Answer(false), EventView::Completed];
    assert(events =~= seq![EventView::Answer(true)] + (seq![EventView::Answer(false)] + (
    seq![EventView::Completed] + none)));
    lemma_one_event(
        checking_source,
        exists_source,
        EventView::Answer(true),
        seq![EventView::Answer(false)] + (seq![EventView::Completed] + none),
    );
    lemma_one_event(
        checking_target,
        exists_target,
        EventView::Answer(false),
        seq![EventView::Completed] + none,
    );
    lemma_one_event(renaming, rename, EventView::Completed, none);
    assert(conversation(request, events).actions =~= seq![exists_source, exists_target, rename]);
}

/// Where the rename fails and the source is a file, the file is copied to
/// the target and then, the copy having succeeded, deleted. The move ends in
/// `Success` once the deletion has succeeded.
pub proof fn law_file_is_copied_then_deleted(request: MoveRequestView, rename_error: Seq<char>)
    ensures
        conversation(
            request,
            fallback_events(rename_error) + seq![
                EventView::Answer(false),
                EventView::Completed,
                EventView::Completed,
            ],
        ) == (RunView {
            actions: fallback_actions(request) + seq![
                ActionView::CopyFile { from: request.source, to: request.target },
                ActionView::RemoveFile(request.source),
            ],
            end: RunEnd::Finished(OutcomeView::Success(request.source)),
        }),
{
    let frames = Seq::<FrameView>::empty();
    let probing = MachineView { request, stage: StageView::ProbingKind, frames };
    let copying = MachineView { request, stage: StageView::CopyingFile, frames };
    let removing = MachineView { request, stage: StageView::RemovingFile, frames };
    let is_dir = ActionView::IsDir(request.source);
    let copy = ActionView::CopyFile { from: request.source, to: request.target };
    let remove = ActionView::RemoveFile(request.source);
    let none = Seq::<EventView>::empty();
    let more = seq![EventView::Answer(false), EventView::Completed, EventView::Completed];
    lemma_fallback(request, rename_error, more);
    assert(more =~= seq![EventView::Answer(false)] + (seq![EventView::Completed] + (
    seq![EventView::Completed] + none)));
    lemma_one_event(
        probing,
        is_dir,
        EventView::Answer(false),
        seq![EventView::Completed] + (seq![EventView::Completed] + none),
    );
    lemma_one_event(copying, copy, EventView::Completed, seq![EventView::Completed] + none);
    lemma_one_event(removing, remove, EventView::Completed, none);
    assert(conversation(request, fallback_events(rename_error) + more).actions
        =~= fallback_actions(request) + seq![copy, remove]);
}

/// Where the rename fails and the source is a directory, the move follows
/// the tree under the source. For a source that holds `children` and a
/// filesystem that carries out what it is asked, the actions are exactly
/// those of [`copy_dir_actions`]: the target is created, every directory of
/// the tree is created at the same relative place under the target, and
/// every file is copied to the same relative place under the target, in the
/// order of the listings. The source is deleted after the last of them, and
/// the move ends in `Success` once that deletion has succeeded.
pub proof fn law_directory_move_follows_the_tree(
    request: MoveRequestView,
    children: Seq<Child>,
    rename_error: Seq<char>,
)
    ensures
        conversation(
            request,
            fallback_events(rename_error) + seq![EventView::Answer(true)] + copy_dir_events(
                children,
            ) + seq![EventView::Completed],
        ) == (RunView {
            actions: fallback_actions(request) + copy_dir_actions(
                request.source,
                request.target,
                children,
            ) + seq![ActionView::RemoveDirAll(request.source)],
            end: RunEnd::Finished(OutcomeView::Success(request.source)),
        }),
{
    let source = request.source;
    let target = request.target;
    let frames = Seq::<FrameView>::empty();
    let probing = MachineView { request, stage: StageView::ProbingKind, frames };
    let creating = MachineView {
        request,
        stage: StageView::CreatingDir { source, target },
        frames,
    };
    let listing_dir = MachineView {
        request,
        stage: StageView::ListingDir { source, target },
        frames,
    };
    let removing = MachineView { request, stage: StageView::RemovingDir, frames };
    let is_dir = ActionView::IsDir(source);
    let create = ActionView::CreateDirAll(target);
    let list = ActionView::ReadDir(source);
    let remove = ActionView::RemoveDirAll(source);
    let none = Seq::<EventView>::empty();
    let done = seq![EventView::Completed];
    let entries_events = copy_entries_events(children) + done;
    let entries_actions = copy_entries_actions(source, target, children);
    let listed = EventView::Listed(listing(children));
    let more = seq![EventView::Answer(true)] + copy_dir_events(children) + done;
    let events = fallback_events(rename_error) + seq![EventView::Answer(true)] + copy_dir_events(
        children,
    ) + done;
    let end = RunView {
        actions: seq![remove],
        end: RunEnd::Finished(OutcomeView::Success(source)),
    };
    assert(events =~= fallback_events(rename_error) + more);
    lemma_fallback(request, rename_error, more);
    assert(more =~= seq![EventView::Answer(true)] + (seq![EventView::Completed] + (seq![listed]
        + entries_events)));
    lemma_one_event(
        probing,
        is_dir,
        EventView::Answer(true),
        seq![EventView::Completed] + (seq![listed] + entries_events),
    );
    lemma_one_event(creating, create, EventView::Completed, seq![listed] + entries_events);
    lemma_one_event(listing_dir, list, listed, entries_events);
    lemma_entries_are_copied(request, frames, source, target, children, done);
    assert(next_work(request, frames) == StepView::Next(removing, remove));
    assert(done =~= seq![EventView::Completed] + none);
    lemma_one_event(removing, remove, EventView::Completed, none);
    assert(continued(next_work(request, frames), done) == end) by {
        assert(seq![remove] + Seq::<ActionView>::empty() =~= seq![remove]);
    }
    assert(conversation(request, events).actions =~= fallback_actions(request) + copy_dir_actions(
        source,
        target,
        children,
    ) + seq![remove]);
}

/// Every entry keeps its place. Whatever lies under the source, at whatever
/// depth, the copy of the directory puts it at the same relative place under
/// the target: a file is copied from its place under the source to that
/// place under the target, and a directory is created at that place under
/// the target and listed at its place under the source.
pub proof fn law_every_entry_keeps_its_place(
    source: Seq<char>,
    target: Seq<char>,
    children: Seq<Child>,
    path: Seq<int>,
)
    requires
        path.len() > 0,
        node_at(Node::Dir(children), path) is Some,
    ensures
        ({
            let actions = copy_dir_actions(source, target, children);
            let from = place_at(source, Node::Dir(children), path);
            let to = place_at(target, Node::Dir(children), path);
            match node_at(Node::Dir(children), path) {
                Some(Node::File(_)) => actions.contains(ActionView::CopyFile { from, to }),
                _ => actions.contains(ActionView::CreateDirAll(to)) && actions.contains(
                    ActionView::ReadDir(from),
                ),
            }
        }),
    decreases path.len(),
{
    let none = Seq::<ActionView>::empty();
    let head = seq![ActionView::CreateDirAll(target), ActionView::ReadDir(source)];
    let entries = copy_entries_actions(source, target, children);
    let i = path[0];
    let child = children[i];
    let from = joined_path(source, child.name);
    let to = joined_path(target, child.name);
    let deeper = path.drop_first();
    let found_from = place_at(source, Node::Dir(children), path);
    let found_to = place_at(target, Node::Dir(children), path);
    assert(found_from == place_at(from, child.node, deeper));
    assert(found_to == place_at(to, child.node, deeper));
    assert(node_at(Node::Dir(children), path) == node_at(child.node, deeper));
    assert(head + entries + none =~= copy_dir_actions(source, target, children));
    if deeper.len() == 0 {
        match child.node {
            Node::File(_) => {
                let copy = ActionView::CopyFile { from, to };
                lemma_entry_is_part_of_the_copy(source, target, children, i, copy);
                lemma_contained_in_sum(head, entries, none, copy);
            },
            Node::Dir(inner) => {
                let create = ActionView::CreateDirAll(to);
                let list = ActionView::ReadDir(from);
                assert(copy_dir_actions(from, to, inner)[0] == create);
                assert(copy_dir_actions(from, to, inner)[1] == list);
                lemma_entry_is_part_of_the_copy(source, target, children, i, create);
                lemma_entry_is_part_of_the_copy(source, target, children, i, list);
                lemma_contained_in_sum(head, entries, none, create);
                lemma_contained_in_sum(head, entries, none, list);
            },
        }
    } else {
        match child.node {
            Node::File(_) => {},
            Node::Dir(inner) => {
                law_every_entry_keeps_its_place(from, to, inner, deeper);
                match node_at(child.node, deeper) {
                    Some(Node::File(_)) => {
                        let copy = ActionView::CopyFile { from: found_from, to: found_to };
                        lemma_entry_is_part_of_the_copy(source, target, children, i, copy);
                        lemma_contained_in_sum(head, entries, none, copy);
                    },
                    _ => {
                        let create = ActionView::CreateDirAll(found_to);
                        let list = ActionView::ReadDir(found_from);
                        lemma_entry_is_part_of_the_copy(source, target, children, i, create);
                        lemma_entry_is_part_of_the_copy(source, target, children, i, list);
                        lemma_contained_in_sum(head, entries, none, create);
                        lemma_contained_in_sum(head, entries, none, list);
                    },
                }
            },
        }
    }
}

/// The source is deleted last. Whenever a move asks for a deletion, it is
/// the source that is to be deleted, every action before it has been
/// answered, none of them but the rename has failed, and nothing is asked
/// after it.
pub proof fn law_source_is_deleted_last(request: MoveRequestView, events: Seq<EventView>, k: int)
    requires
        0 <= k < conversation(request, events).actions.len(),
        conversation(request, events).actions[k].removes(),
    ensures
        ({
            let run = conversation(request, events);
            &&& run.actions[k] == ActionView::RemoveFile(request.source) || run.actions[k]
                == ActionView::RemoveDirAll(request.source)
            &&& k + 1 == run.actions.len()
            &&& k <= events.len()
            &&& forall|i: int|
                0 <= i < k && (#[trigger] events[i]) is Failed ==> run.actions[i] is Rename
        }),
{
    lemma_orderly(StepView::Next(initial(request).0, initial(request).1), request, events);
}

/// The deletion waits for the whole copy. The step that asks for the
/// deletion of the source is taken on a success: that of the copy of the
/// source file, or, for a directory, that of the last copy or listing, at a
/// moment when no directory that is being copied has an entry left.
pub proof fn law_deletion_waits_for_the_whole_copy(machine: MachineView, event: EventView)
    requires
        transition(machine, event) matches StepView::Next(_, action) && action.removes(),
    ensures
        match machine.stage {
            StageView::CopyingFile => event is Completed,
            StageView::CopyingEntry => event is Completed && nothing_left(machine.frames),
            StageView::ListingDir { .. } => {
                &&& event matches EventView::Listed(entries) && entries.len() == 0
                &&& nothing_left(machine.frames)
            },
            _ => false,
        },
{
    match (machine.stage, event) {
        (StageView::ListingDir { source, target }, EventView::Listed(entries)) => {
            let frames = machine.frames.push(FrameView { source, target, rest: entries });
            lemma_removal_means_nothing_is_left(machine.request, frames);
            assert(frames[machine.frames.len() as int].rest.len() == 0);
            assert forall|i: int| 0 <= i < machine.frames.len() implies (
            #[trigger] machine.frames[i]).rest.len() == 0 by {
                assert(machine.frames[i] == frames[i]);
            }
        },
        (StageView::CopyingEntry, EventView::Completed) => {
            lemma_removal_means_nothing_is_left(machine.request, machine.frames);
        },
        _ => {},
    }
}

/// A failure ends the move. When the filesystem fails to carry out an
/// action other than the rename, nothing more is asked of it, the move ends
/// in a `FilesystemFailure`, and no deletion has been asked for before: the
/// source is still where it was, unless it was its deletion that failed.
pub proof fn law_failure_ends_the_move(request: MoveRequestView, events: Seq<EventView>, i: int)
    requires
        0 <= i < events.len(),
        i < conversation(request, events).actions.len(),
        events[i] is Failed,
        !(conversation(request, events).actions[i] is Rename),
        !(conversation(request, events).actions[i] is Exists),
        !(conversation(request, events).actions[i] is IsDir),
    ensures
        ({
            let run = conversation(request, events);
            &&& i + 1 == run.actions.len()
            &&& run.end matches RunEnd::Finished(
                OutcomeView::Rejected(RejectionView::FilesystemFailure(_)),
            )
            &&& forall|k: int| 0 <= k < i ==> !(#[trigger] run.actions[k]).removes()
        }),
{
    lemma_orderly(StepView::Next(initial(request).0, initial(request).1), request, events);
}

/// A move ends in `Success` only for its own source, only after the
/// filesystem has said that the source exists and that the target does not,
/// and only on the word of the filesystem that the source is gone from its
/// place: the last thing asked was the rename of the source to the target or
/// the deletion of the source, and the filesystem has carried it out.
pub proof fn law_success_is_earned(
    request: MoveRequestView,
    events: Seq<EventView>,
    moved: Seq<char>,
)
    requires
        conversation(request, events).end == RunEnd::Finished(OutcomeView::Success(moved)),
    ensures
        moved == request.source,
        events.len() >= 3,
        events[0] == EventView::Answer(true),
        events[1] == EventView::Answer(false),
        ({
            let run = conversation(request, events);
            let last = run.actions.len() - 1;
            &&& 2 <= last < events.len()
            &&& events[last] == EventView::Completed
            &&& run.actions[last] == ActionView::Rename { from: request.source, to: request.target }
                || run.actions[last] == ActionView::RemoveFile(request.source)
                || run.actions[last] == ActionView::RemoveDirAll(request.source)
        }),
{
    let start = StepView::Next(initial(request).0, initial(request).1);
    lemma_orderly(start, request, events);
    reveal_with_fuel(continued, 4);
}

} // verus!
