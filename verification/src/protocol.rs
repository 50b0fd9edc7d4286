//! The vocabulary of the conversation between the library and whoever
//! touches the filesystem for it: the actions the library asks for, and the
//! events that report what came of them.

use vstd::prelude::*;

verus! {

/// One entry of a directory listing: its name within the directory, and
/// whether it is itself a directory.
#[derive(Debug, PartialEq, Eq)]
pub struct DirEntry {
    pub name: String,
    pub is_dir: bool,
}

/// View of a [`DirEntry`].
pub struct EntryView {
    pub name: Seq<char>,
    pub is_dir: bool,
}

impl View for DirEntry {
    type V = EntryView;

    open spec fn view(&self) -> EntryView {
        EntryView { name: self.name@, is_dir: self.is_dir }
    }
}

/// The entries of a listing, each by its view, in the listing's order.
pub open spec fn entries_view(entries: Seq<DirEntry>) -> Seq<EntryView> {
    Seq::new(entries.len(), |i: int| entries[i]@)
}

/// A filesystem action the library asks for. Exactly one action is pending
/// at any time, and the next [`Event`] answers it.
#[derive(Debug, PartialEq, Eq)]
pub enum Action {
    /// Does anything exist at this path? Answered by `Event::Answer`.
    Exists(String),
    /// Is the entry at this path a directory? Answered by `Event::Answer`.
    IsDir(String),
    /// Rename `from` to `to` in one step.
    Rename { from: String, to: String },
    /// Copy the contents of the file `from` to `to`.
    CopyFile { from: String, to: String },
    /// Create the directory at this path, and any parent that is missing.
    CreateDirAll(String),
    /// List the directory at this path. Answered by `Event::Listed`.
    ReadDir(String),
    /// Delete the file at this path.
    RemoveFile(String),
    /// Delete the directory at this path and everything below it.
    RemoveDirAll(String),
}

/// View of an [`Action`].
pub enum ActionView {
    Exists(Seq<char>),
    IsDir(Seq<char>),
    Rename { from: Seq<char>, to: Seq<char> },
    CopyFile { from: Seq<char>, to: Seq<char> },
    CreateDirAll(Seq<char>),
    ReadDir(Seq<char>),
    RemoveFile(Seq<char>),
    RemoveDirAll(Seq<char>),
}

impl View for Action {
    type V = ActionView;

    open spec fn view(&self) -> ActionView {
        match self {
            Action::Exists(path) => ActionView::Exists(path@),
            Action::IsDir(path) => ActionView::IsDir(path@),
            Action::Rename { from, to } => ActionView::Rename { from: from@, to: to@ },
            Action::CopyFile { from, to } => ActionView::CopyFile { from: from@, to: to@ },
            Action::CreateDirAll(path) => ActionView::CreateDirAll(path@),
            Action::ReadDir(path) => ActionView::ReadDir(path@),
            Action::RemoveFile(path) => ActionView::RemoveFile(path@),
            Action::RemoveDirAll(path) => ActionView::RemoveDirAll(path@),
        }
    }
}

impl ActionView {
    /// Whether the action only looks at the filesystem.
    pub open spec fn inspects(self) -> bool {
        self is Exists || self is IsDir || self is ReadDir
    }

    /// Whether the action deletes something.
    pub open spec fn removes(self) -> bool {
        self is RemoveFile || self is RemoveDirAll
    }
}

/// What came of the pending action.
#[derive(Debug, PartialEq, Eq)]
pub enum Event {
    /// The answer to a question (`Exists`, `IsDir`).
    Answer(bool),
    /// The action was carried out.
    Completed,
    /// The entries of the directory that was to be listed.
    Listed(Vec<DirEntry>),
    /// The action failed; the text is the filesystem's error message.
    Failed(String),
}

/// View of an [`Event`].
pub enum EventView {
    Answer(bool),
    Completed,
    Listed(Seq<EntryView>),
    Failed(Seq<char>),
}

impl View for Event {
    type V = EventView;

    open spec fn view(&self) -> EventView {
        match self {
            Event::Answer(yes) => EventView::Answer(*yes),
            Event::Completed => EventView::Completed,
            Event::Listed(entries) => EventView::Listed(entries_view(entries@)),
            Event::Failed(cause) => EventView::Failed(cause@),
        }
    }
}

} // verus!
