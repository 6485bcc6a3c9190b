//! What the explorer asks of the shell, and what the shell reports back.
//!
//! The explorer touches neither the file system nor the bookmark store
//! nor other processes. A transition that needs one of them returns the
//! actions to perform; the shell performs each in turn and hands its
//! outcome to [`crate::fe::FE::complete`].

use crate::commands::{SpawnSpec, SpawnView};
use crate::fe::diagnostic::FeError;
use crate::path::{FsPath, PathView};
use crate::utils::dir::{record_views, BookmarkView, DirRecord, QuickAccessEntry, RecordView};
use vstd::prelude::*;

verus! {

/// Something for the shell to do.
#[derive(Debug, PartialEq, Eq)]
pub enum Action {
    /// List the directory.
    ListDir(FsPath),
    /// Remove the directory and all that it holds.
    RemoveDir(FsPath),
    /// Remove the file.
    RemoveFile(FsPath),
    /// Create the directory, and the directories above it that are
    /// missing.
    CreateDir(FsPath),
    /// Create the file, and the directories above it that are missing.
    CreateFile(FsPath),
    /// Move what is at the first path to the second.
    Rename(FsPath, FsPath),
    /// Save the bookmark in the store, in place of one with the same
    /// path.
    SaveBookmark(QuickAccessEntry),
    /// Remove the bookmark of the path from the store.
    RemoveBookmark(FsPath),
    /// Run the executable file.
    Exec(FsPath),
    /// Start the process, detached.
    Spawn(SpawnSpec),
    /// Open a terminal in the directory.
    OpenTerminal(FsPath),
}

/// The mathematical value of an [`Action`].
pub enum ActionView {
    ListDir(PathView),
    RemoveDir(PathView),
    RemoveFile(PathView),
    CreateDir(PathView),
    CreateFile(PathView),
    Rename(PathView, PathView),
    SaveBookmark(BookmarkView),
    RemoveBookmark(PathView),
    Exec(PathView),
    Spawn(SpawnView),
    OpenTerminal(PathView),
}

impl View for Action {
    type V = ActionView;

    open spec fn view(&self) -> ActionView {
        match self {
            Action::ListDir(path) => ActionView::ListDir(path@),
            Action::RemoveDir(path) => ActionView::RemoveDir(path@),
            Action::RemoveFile(path) => ActionView::RemoveFile(path@),
            Action::CreateDir(path) => ActionView::CreateDir(path@),
            Action::CreateFile(path) => ActionView::CreateFile(path@),
            Action::Rename(from, to) => ActionView::Rename(from@, to@),
            Action::SaveBookmark(bookmark) => ActionView::SaveBookmark(bookmark@),
            Action::RemoveBookmark(path) => ActionView::RemoveBookmark(path@),
            Action::Exec(path) => ActionView::Exec(path@),
            Action::Spawn(spawn) => ActionView::Spawn(spawn@),
            Action::OpenTerminal(path) => ActionView::OpenTerminal(path@),
        }
    }
}

impl DeepView for Action {
    type V = ActionView;

    open spec fn deep_view(&self) -> ActionView {
        self.view()
    }
}

impl Clone for Action {
    fn clone(&self) -> (copy: Self)
        ensures
            copy@ == self@,
    {
        match self {
            Action::ListDir(path) => Action::ListDir(path.clone()),
            Action::RemoveDir(path) => Action::RemoveDir(path.clone()),
            Action::RemoveFile(path) => Action::RemoveFile(path.clone()),
            Action::CreateDir(path) => Action::CreateDir(path.clone()),
            Action::CreateFile(path) => Action::CreateFile(path.clone()),
            Action::Rename(from, to) => Action::Rename(from.clone(), to.clone()),
            Action::SaveBookmark(bookmark) => Action::SaveBookmark(bookmark.clone()),
            Action::RemoveBookmark(path) => Action::RemoveBookmark(path.clone()),
            Action::Exec(path) => Action::Exec(path.clone()),
            Action::Spawn(spawn) => Action::Spawn(spawn.clone()),
            Action::OpenTerminal(path) => Action::OpenTerminal(path.clone()),
        }
    }
}

/// The values of the actions that a vector holds, in order.
pub open spec fn action_views(actions: Seq<Action>) -> Seq<ActionView> {
    Seq::new(actions.len(), |i: int| actions[i]@)
}

/// The part of the world that an action touches, and so the kind of
/// error that its failure is.
#[derive(Debug, Clone, Copy, PartialEq, Eq, Structural)]
pub enum Realm {
    FileSystem,
    BookmarkStore,
    Processes,
}

impl ActionView {
    /// The part of the world that the action touches.
    pub open spec fn realm(self) -> Realm {
        match self {
            ActionView::SaveBookmark(_) | ActionView::RemoveBookmark(_) => Realm::BookmarkStore,
            ActionView::Exec(_) | ActionView::Spawn(_) | ActionView::OpenTerminal(_) => {
                Realm::Processes
            },
            _ => Realm::FileSystem,
        }
    }
}

impl Action {
    /// The part of the world that the action touches.
    pub fn realm(&self) -> (realm: Realm)
        ensures
            realm == self@.realm(),
    {
        match self {
            Action::SaveBookmark(_) | Action::RemoveBookmark(_) => Realm::BookmarkStore,
            Action::Exec(_) | Action::Spawn(_) | Action::OpenTerminal(_) => Realm::Processes,
            _ => Realm::FileSystem,
        }
    }

    /// The error that the failure of the action is, with the text that
    /// the shell reported.
    pub fn failure(&self, detail: String) -> (err: FeError)
        ensures
            err.detail() == detail@,
            match self@.realm() {
                Realm::FileSystem => err is Io,
                Realm::BookmarkStore => err is Persistence,
                Realm::Processes => err is Spawn,
            },
    {
        match self.realm() {
            Realm::FileSystem => FeError::Io(detail),
            Realm::BookmarkStore => FeError::Persistence(detail),
            Realm::Processes => FeError::Spawn(detail),
        }
    }
}

/// What came of an action.
#[derive(Debug, PartialEq, Eq)]
pub enum Outcome {
    /// The directory was listed, and these are its records.
    Listed(Vec<DirRecord>),
    /// The action was performed.
    Done,
    /// The action failed, for the reason given.
    Failed(String),
}

/// The mathematical value of an [`Outcome`].
pub enum OutcomeView {
    Listed(Seq<RecordView>),
    Done,
    Failed(Seq<char>),
}

impl View for Outcome {
    type V = OutcomeView;

    open spec fn view(&self) -> OutcomeView {
        match self {
            Outcome::Listed(records) => OutcomeView::Listed(record_views(records@)),
            Outcome::Done => OutcomeView::Done,
            Outcome::Failed(reason) => OutcomeView::Failed(reason@),
        }
    }
}

} // verus!
