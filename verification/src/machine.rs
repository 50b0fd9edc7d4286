//! The move itself, as a machine that is stepped from outside.
//!
//! A move first checks that the source exists and the target does not, then
//! tries a rename. Where the rename fails it falls back to copying (a single
//! file, or a directory tree entry by entry) and deletes the source only once
//! everything has been copied. The machine never acts: each step names the
//! one filesystem [`Action`] it wants next, and the following [`Event`] tells
//! it what came of that action.
//!
//! The caller runs the loop:
//!
//! ```text
//! let (machine, action) = handle_file_move(request);
//! let mut step = Step::Next(machine, action);
//! loop {
//!     match step {
//!         Step::Next(machine, action) => step = machine.step(perform(&action)),
//!         Step::Done(outcome) => break outcome,
//!     }
//! }
//! ```
//!
//! The first half of this file is the model: the machine's state as plain
//! mathematical values and its transition function. The second half is the
//! executable machine, proved to follow the model step for step.

use crate::model::{
    FileMoveRequest, MoveOutcome, MoveRequestView, OutcomeView, Rejection, RejectionView,
};
use crate::platform::{join_path, joined_path};
use crate::protocol::{entries_view, Action, ActionView, DirEntry, EntryView, Event, EventView};
use vstd::prelude::*;

verus! {

/// What the machine is waiting for.
pub enum StageView {
    /// Whether the source exists.
    CheckingSource,
    /// Whether the target exists.
    CheckingTarget,
    /// The outcome of the rename.
    Renaming,
    /// Whether the source is a directory; asked once the rename has failed.
    ProbingKind,
    /// The copy of the source, which is a single file.
    CopyingFile,
    /// The creation of `target`, which will receive the entries of `source`.
    CreatingDir { source: Seq<char>, target: Seq<char> },
    /// The listing of `source`, whose entries go to `target`.
    ListingDir { source: Seq<char>, target: Seq<char> },
    /// The copy of one file inside the source directory.
    CopyingEntry,
    /// The deletion of the source file, which has been copied.
    RemovingFile,
    /// The deletion of the source directory, which has been copied.
    RemovingDir,
}

/// A directory whose entries are being copied: where it is, where its
/// entries go, and the entries that have not been dealt with yet.
pub struct FrameView {
    pub source: Seq<char>,
    pub target: Seq<char>,
    pub rest: Seq<EntryView>,
}

/// The state of a move. `frames` holds the directories that are being
/// copied, outermost first; it is empty outside a directory copy.
pub struct MachineView {
    pub request: MoveRequestView,
    pub stage: StageView,
    pub frames: Seq<FrameView>,
}

/// What a step leads to: a new state with the action it waits for, or the
/// end of the move.
pub enum StepView {
    Next(MachineView, ActionView),
    Done(OutcomeView),
}

/// How a move ends on an event that does not answer the pending action.
pub open spec fn unexpected_event() -> OutcomeView {
    OutcomeView::Rejected(RejectionView::Unrecognized("UnexpectedEvent"@))
}

/// How a move ends when the filesystem reports `cause` for the action that
/// `doing` describes: the detail of the failure is the one text followed by
/// the other.
pub open spec fn failed(doing: Seq<char>, cause: Seq<char>) -> StepView {
    StepView::Done(OutcomeView::Rejected(RejectionView::FilesystemFailure(doing + cause)))
}

/// A move starts by asking whether the source exists.
pub open spec fn initial(request: MoveRequestView) -> (MachineView, ActionView) {
    (
        MachineView { request, stage: StageView::CheckingSource, frames: Seq::empty() },
        ActionView::Exists(request.source),
    )
}

/// The next piece of work of a directory copy. The innermost directory that
/// still has an entry gives it up: a subdirectory is created at the same
/// name under the target, a file is copied to the same name under the
/// target. Directories without entries left are done with. When none is
/// left at all, the whole tree has been copied, and only then is the source
/// deleted.
pub open spec fn next_work(request: MoveRequestView, frames: Seq<FrameView>) -> StepView
    decreases frames.len(),
{
    if frames.len() == 0 {
        StepView::Next(
            MachineView { request, stage: StageView::RemovingDir, frames },
            ActionView::RemoveDirAll(request.source),
        )
    } else {
        let top = frames.last();
        if top.rest.len() == 0 {
            next_work(request, frames.drop_last())
        } else {
            let entry = top.rest[0];
            let source = joined_path(top.source, entry.name);
            let target = joined_path(top.target, entry.name);
            let frames = frames.drop_last().push(
                FrameView { source: top.source, target: top.target, rest: top.rest.drop_first() },
            );
            if entry.is_dir {
                StepView::Next(
                    MachineView {
                        request,
                        stage: StageView::CreatingDir { source, target },
                        frames,
                    },
                    ActionView::CreateDirAll(target),
                )
            } else {
                StepView::Next(
                    MachineView { request, stage: StageView::CopyingEntry, frames },
                    ActionView::CopyFile { from: source, to: target },
                )
            }
        }
    }
}

/// The transition function: what the machine in state `machine` does when
/// `event` answers its pending action.
///
/// - Nothing is changed before both checks have passed: a missing source
///   ends the move with `SourceNotFound`, an existing target with
///   `TargetExists`.
/// - A rename that succeeds ends the move with `Success`. A rename that
///   fails, for whatever reason, leads to the copy.
/// - A failure while copying or deleting ends the move at once with a
///   `FilesystemFailure` that names the step and the cause.
/// - The source is deleted only after the copy of all of it has succeeded,
///   and the move is a `Success` only after that deletion has succeeded.
/// - An event that does not answer the pending action ends the move.
pub open spec fn transition(machine: MachineView, event: EventView) -> StepView {
    let request = machine.request;
    let frames = machine.frames;
    match (machine.stage, event) {
        (StageView::CheckingSource, EventView::Answer(found)) => {
            if found {
                StepView::Next(
                    MachineView { request, stage: StageView::CheckingTarget, frames },
                    ActionView::Exists(request.target),
                )
            } else {
                StepView::Done(
                    OutcomeView::Rejected(RejectionView::SourceNotFound(request.source)),
                )
            }
        },
        (StageView::CheckingTarget, EventView::Answer(found)) => {
            if found {
                StepView::Done(OutcomeView::Rejected(RejectionView::TargetExists))
            } else {
                StepView::Next(
                    MachineView { request, stage: StageView::Renaming, frames },
                    ActionView::Rename { from: request.source, to: request.target },
                )
            }
        },
        (StageView::Renaming, EventView::Completed) => {
            StepView::Done(OutcomeView::Success(request.source))
        },
        (StageView::Renaming, EventView::Failed(_)) => {
            StepView::Next(
                MachineView { request, stage: StageView::ProbingKind, frames },
                ActionView::IsDir(request.source),
            )
        },
        (StageView::ProbingKind, EventView::Answer(is_dir)) => {
            if is_dir {
                StepView::Next(
                    MachineView {
                        request,
                        stage: StageView::CreatingDir {
                            source: request.source,
                            target: request.target,
                        },
                        frames,
                    },
                    ActionView::CreateDirAll(request.target),
                )
            } else {
                StepView::Next(
                    MachineView { request, stage: StageView::CopyingFile, frames },
                    ActionView::CopyFile { from: request.source, to: request.target },
                )
            }
        },
        (StageView::CopyingFile, EventView::Completed) => {
            StepView::Next(
                MachineView { request, stage: StageView::RemovingFile, frames },
                ActionView::RemoveFile(request.source),
            )
        },
        (StageView::CopyingFile, EventView::Failed(cause)) => {
            failed("Failed to copy file: "@, cause)
        },
        (StageView::CreatingDir { source, target }, EventView::Completed) => {
            StepView::Next(
                MachineView { request, stage: StageView::ListingDir { source, target }, frames },
                ActionView::ReadDir(source),
            )
        },
        (StageView::ListingDir { source, target }, EventView::Listed(entries)) => {
            next_work(request, frames.push(FrameView { source, target, rest: entries }))
        },
        (StageView::CopyingEntry, EventView::Completed) => next_work(request, frames),
        (StageView::CreatingDir { .. }, EventView::Failed(cause))
        | (StageView::ListingDir { .. }, EventView::Failed(cause))
        | (StageView::CopyingEntry, EventView::Failed(cause)) => {
            failed("Failed to copy directory: "@, cause)
        },
        (StageView::RemovingFile, EventView::Completed)
        | (StageView::RemovingDir, EventView::Completed) => {
            StepView::Done(OutcomeView::Success(request.source))
        },
        (StageView::RemovingFile, EventView::Failed(cause)) => {
            failed("Failed to remove source file after copy: "@, cause)
        },
        (StageView::RemovingDir, EventView::Failed(cause)) => {
            failed("Failed to remove source directory after copy: "@, cause)
        },
        _ => StepView::Done(unexpected_event()),
    }
}

enum Stage {
    CheckingSource,
    CheckingTarget,
    Renaming,
    ProbingKind,
    CopyingFile,
    CreatingDir { source: String, target: String },
    ListingDir { source: String, target: String },
    CopyingEntry,
    RemovingFile,
    RemovingDir,
}

impl View for Stage {
    type V = StageView;

    closed spec fn view(&self) -> StageView {
        match self {
            Stage::CheckingSource => StageView::CheckingSource,
            Stage::CheckingTarget => StageView::CheckingTarget,
            Stage::Renaming => StageView::Renaming,
            Stage::ProbingKind => StageView::ProbingKind,
            Stage::CopyingFile => StageView::CopyingFile,
            Stage::CreatingDir { source, target } => StageView::CreatingDir {
                source: source@,
                target: target@,
            },
            Stage::ListingDir { source, target } => StageView::ListingDir {
                source: source@,
                target: target@,
            },
            Stage::CopyingEntry => StageView::CopyingEntry,
            Stage::RemovingFile => StageView::RemovingFile,
            Stage::RemovingDir => StageView::RemovingDir,
        }
    }
}

/// A directory that is being copied. The entries before `next` have been
/// dealt with.
struct Frame {
    source: String,
    target: String,
    entries: Vec<DirEntry>,
    next: usize,
}

impl Frame {
    #[verifier::type_invariant]
    spec fn cursor_in_range(self) -> bool {
        self.next <= self.entries.len()
    }
}

impl View for Frame {
    type V = FrameView;

    closed spec fn view(&self) -> FrameView {
        FrameView {
            source: self.source@,
            target: self.target@,
            rest: entries_view(self.entries@).skip(self.next as int),
        }
    }
}

spec fn frames_view(frames: Seq<Frame>) -> Seq<FrameView> {
    Seq::new(frames.len(), |i: int| frames[i]@)
}

/// A move in progress.
pub struct MoveMachine {
    request: FileMoveRequest,
    stage: Stage,
    frames: Vec<Frame>,
}

impl View for MoveMachine {
    type V = MachineView;

    closed spec fn view(&self) -> MachineView {
        MachineView {
            request: self.request@,
            stage: self.stage@,
            frames: frames_view(self.frames@),
        }
    }
}

/// What [`MoveMachine::step`] leads to.
pub enum Step {
    /// The move goes on: perform the action and step the machine with what
    /// came of it.
    Next(MoveMachine, Action),
    /// The move is over.
    Done(MoveOutcome),
}

impl View for Step {
    type V = StepView;

    open spec fn view(&self) -> StepView {
        match self {
            Step::Next(machine, action) => StepView::Next(machine@, action@),
            Step::Done(outcome) => StepView::Done(outcome@),
        }
    }
}

/// Starts the move that `file_move_request` asks for. Nothing has been
/// touched yet: the machine that is returned waits for the answer to the
/// action beside it, which asks whether the source exists.
pub fn handle_file_move(file_move_request: FileMoveRequest) -> (start: (MoveMachine, Action))
    ensures
        (start.0@, start.1@) == initial(file_move_request@),
{
    let action = Action::Exists(file_move_request.sourcePath.clone());
    let machine = MoveMachine {
        request: file_move_request,
        stage: Stage::CheckingSource,
        frames: Vec::new(),
    };
    assert(frames_view(machine.frames@) =~= Seq::empty());
    (machine, action)
}

fn unexpected() -> (step: Step)
    ensures
        step@ == StepView::Done(unexpected_event()),
{
    Step::Done(MoveOutcome::Rejected(Rejection::Unrecognized(String::from_str("UnexpectedEvent"))))
}

fn fail(doing: &str, cause: String) -> (end: Step)
    ensures
        end@ == failed(doing@, cause@),
{
    let detail = String::from_str(doing).concat(cause.as_str());
    Step::Done(MoveOutcome::Rejected(Rejection::FilesystemFailure(detail)))
}

fn advance(request: FileMoveRequest, stack: Vec<Frame>) -> (step: Step)
    ensures
        step@ == next_work(request@, frames_view(stack@)),
{
    let mut frames = stack;
    loop
        invariant
            next_work(request@, frames_view(frames@)) == next_work(request@, frames_view(stack@)),
        decreases frames.len(),
    {
        let ghost before = frames_view(frames@);
        match frames.pop() {
            None => {
                let action = Action::RemoveDirAll(request.sourcePath.clone());
                return Step::Next(
                    MoveMachine { request, stage: Stage::RemovingDir, frames },
                    action,
                );
            },
            Some(top) => {
                proof {
                    use_type_invariant(&top);
                    assert(frames_view(frames@) =~= before.drop_last());
                }
                if top.next < top.entries.len() {
                    let entry = &top.entries[top.next];
                    let source = join_path(top.source.as_str(), entry.name.as_str());
                    let target = join_path(top.target.as_str(), entry.name.as_str());
                    let is_dir = entry.is_dir;
                    let ghost rest = top@.rest;
                    let mut top = top;
                    top.next = top.next + 1;
                    proof {
                        assert(top@.rest =~= rest.drop_first());
                    }
                    frames.push(top);
                    proof {
                        assert(frames_view(frames@) =~= before.drop_last().push(top@));
                    }
                    if is_dir {
                        let action = Action::CreateDirAll(target.clone());
                        return Step::Next(
                            MoveMachine {
                                request,
                                stage: Stage::CreatingDir { source, target },
                                frames,
                            },
                            action,
                        );
                    } else {
                        let action = Action::CopyFile { from: source, to: target };
                        return Step::Next(
                            MoveMachine { request, stage: Stage::CopyingEntry, frames },
                            action,
                        );
                    }
                }
            },
        }
    }
}

impl MoveMachine {
    /// Takes the event that answers the pending action and decides what
    /// follows: the next action, or the end of the move. The decision is
    /// that of [`transition`], whatever the state and whatever the event.
    pub fn step(self, event: Event) -> (step: Step)
        ensures
            step@ == transition(self@, event@),
    {
        let MoveMachine { request, stage, frames } = self;
        match (stage, event) {
            (Stage::CheckingSource, Event::Answer(found)) => {
                if found {
                    let action = Action::Exists(request.targetPath.clone());
                    Step::Next(
                        MoveMachine { request, stage: Stage::CheckingTarget, frames },
                        action,
                    )
                } else {
                    Step::Done(MoveOutcome::Rejected(Rejection::SourceNotFound(request.sourcePath)))
                }
            },
            (Stage::CheckingTarget, Event::Answer(found)) => {
                if found {
                    Step::Done(MoveOutcome::Rejected(Rejection::TargetExists))
                } else {
                    let action = Action::Rename {
                        from: request.sourcePath.clone(),
                        to: request.targetPath.clone(),
                    };
                    Step::Next(MoveMachine { request, stage: Stage::Renaming, frames }, action)
                }
            },
            (Stage::Renaming, Event::Completed) => {
                Step::Done(MoveOutcome::Success(request.sourcePath))
            },
            (Stage::Renaming, Event::Failed(_)) => {
                let action = Action::IsDir(request.sourcePath.clone());
                Step::Next(MoveMachine { request, stage: Stage::ProbingKind, frames }, action)
            },
            (Stage::ProbingKind, Event::Answer(is_dir)) => {
                if is_dir {
                    let action = Action::CreateDirAll(request.targetPath.clone());
                    let stage = Stage::CreatingDir {
                        source: request.sourcePath.clone(),
                        target: request.targetPath.clone(),
                    };
                    Step::Next(MoveMachine { request, stage, frames }, action)
                } else {
                    let action = Action::CopyFile {
                        from: request.sourcePath.clone(),
                        to: request.targetPath.clone(),
                    };
                    Step::Next(MoveMachine { request, stage: Stage::CopyingFile, frames }, action)
                }
            },
            (Stage::CopyingFile, Event::Completed) => {
                let action = Action::RemoveFile(request.sourcePath.clone());
                Step::Next(MoveMachine { request, stage: Stage::RemovingFile, frames }, action)
            },
            (Stage::CopyingFile, Event::Failed(cause)) => fail("Failed to copy file: ", cause),
            (Stage::CreatingDir { source, target }, Event::Completed) => {
                let action = Action::ReadDir(source.clone());
                Step::Next(
                    MoveMachine { request, stage: Stage::ListingDir { source, target }, frames },
                    action,
                )
            },
            (Stage::ListingDir { source, target }, Event::Listed(entries)) => {
                let ghost before = frames_view(frames@);
                let frame = Frame { source, target, entries, next: 0 };
                let mut frames = frames;
                frames.push(frame);
                proof {
                    assert(frame@.rest =~= entries_view(entries@));
                    assert(frames_view(frames@) =~= before.push(frame@));
                }
                advance(request, frames)
            },
            (Stage::CopyingEntry, Event::Completed) => advance(request, frames),
            (Stage::CreatingDir { .. }, Event::Failed(cause))
            | (Stage::ListingDir { .. }, Event::Failed(cause))
            | (Stage::CopyingEntry, Event::Failed(cause)) => {
                fail("Failed to copy directory: ", cause)
            },
            (Stage::RemovingFile, Event::Completed) | (Stage::RemovingDir, Event::Completed) => {
                Step::Done(MoveOutcome::Success(request.sourcePath))
            },
            (Stage::RemovingFile, Event::Failed(cause)) => {
                fail("Failed to remove source file after copy: ", cause)
            },
            (Stage::RemovingDir, Event::Failed(cause)) => {
                fail("Failed to remove source directory after copy: ", cause)
            },
            _ => unexpected(),
        }
    }
}

} // verus!
