//! The explorer as a mathematical state machine: the value of its state,
//! what each transition makes of it, and which actions the transition
//! asks for. The executable explorer is held to this model function by
//! function.

use crate::commands::{DirCommandView, FileCommandView};
use crate::events::{EventView, InputView, PoolView};
use crate::fe::action::{ActionView, OutcomeView};
use crate::fe::diagnostic::QueueView;
use crate::path::{PathView, SLASH};
use crate::utils::dir::classified;
use crate::utils::dir::{BookmarkView, DirSorting, DirSortingType, EntryView, Platform, RecordView};
use crate::utils::naming::{entry_names, valid_new_name};
use crate::utils::sort::{displayed, ordered, sorted_entries};
use vstd::prelude::*;

verus! {

/// How often a move of dropped files is put off to the next frame before
/// it is carried out. The position of the pointer, and with it the
/// directory under it, is known only in the frames after the drop.
pub const MOVE_FILE_DELAY: u8 = 3;

/// The ceiling of the count of a move of dropped files: a move that has
/// been put off this often or more is not put off again and not carried
/// out. It lies one above the delay, so that a drop that starts at 0
/// never reaches it.
pub const MOVE_RETRY_CEILING: u8 = 4;

/// The text of the error that going back without a previous directory
/// is.
pub open spec fn no_history_text() -> Seq<char> {
    "nothing to go back to"@
}

/// The text of the error that a move is which has reached the
/// ceiling.
pub open spec fn retries_exhausted_text() -> Seq<char> {
    "dropped files were put off too often to be moved"@
}

/// Whether `path` is bookmarked.
pub open spec fn bookmarked(bookmarks: Seq<BookmarkView>, path: PathView) -> bool {
    exists|i: int| 0 <= i < bookmarks.len() && (#[trigger] bookmarks[i]).path == path
}

/// The bookmarks without that of `path`.
pub open spec fn without_bookmark(bookmarks: Seq<BookmarkView>, path: PathView) -> Seq<
    BookmarkView,
> {
    bookmarks.filter(|bookmark: BookmarkView| bookmark.path != path)
}

/// The bookmarks with `bookmark` saved: it takes the place of one with
/// the same path and stands last.
pub open spec fn with_bookmark(bookmarks: Seq<BookmarkView>, bookmark: BookmarkView) -> Seq<
    BookmarkView,
> {
    without_bookmark(bookmarks, bookmark.path).push(bookmark)
}

/// Whether no two bookmarks have the same path.
pub open spec fn distinct_paths(bookmarks: Seq<BookmarkView>) -> bool {
    forall|i: int, j: int|
        0 <= i < j < bookmarks.len() ==> (#[trigger] bookmarks[i]).path != (
        #[trigger] bookmarks[j]).path
}

/// The bookmarks of a list, saved one after the other: of several with
/// one path the last stays.
pub open spec fn saved_all(bookmarks: Seq<BookmarkView>) -> Seq<BookmarkView>
    decreases bookmarks.len(),
{
    if bookmarks.len() == 0 {
        Seq::empty()
    } else {
        with_bookmark(saved_all(bookmarks.drop_last()), bookmarks.last())
    }
}

/// Where a dropped file goes: into `dir`, under its own name. A path
/// without a final name stands for `dir` itself.
pub open spec fn drop_target(dir: PathView, dropped: PathView) -> PathView {
    match dropped.file_name() {
        Some(name) => dir.child(name),
        None => dir,
    }
}

/// The actions that move the dropped files into `dir`: for each file
/// that came with a path, in the order of the drop, the move and then a
/// new listing of `current`.
pub open spec fn drop_actions(
    files: Seq<Option<PathView>>,
    dir: PathView,
    current: PathView,
) -> Seq<ActionView>
    decreases files.len(),
{
    if files.len() == 0 {
        Seq::empty()
    } else {
        let before = drop_actions(files.drop_last(), dir, current);
        match files.last() {
            Some(path) => before.push(ActionView::Rename(path, drop_target(dir, path))).push(
                ActionView::ListDir(current),
            ),
            None => before,
        }
    }
}

/// The value of the explorer's state.
pub struct FeView {
    /// The directory being browsed.
    pub path: PathView,
    /// The directory that was browsed before, one step back and no
    /// more.
    pub prev_path: Option<PathView>,
    /// The listing, in order under the active sort.
    pub entries: Seq<EntryView>,
    /// What is shown of the listing.
    pub display_entries: Seq<EntryView>,
    /// The active sort.
    pub dir_sorting: DirSorting,
    /// The bookmarks, as the store holds them.
    pub quick_access: Seq<BookmarkView>,
    /// The text that is searched for.
    pub search_txt: Seq<u8>,
    pub events: PoolView,
    /// The events that were taken out of the pool to be handled and
    /// have not been applied yet, oldest first.
    pub inbox: Seq<EventView>,
    /// The actions that the event applied last asks for and that have
    /// not been handed to the shell yet.
    pub agenda: Seq<ActionView>,
    /// Whether a new file is being named.
    pub creating_file: bool,
    /// The name typed so far for the new file.
    pub new_file_name: Seq<u8>,
    pub diagnostics: QueueView,
    /// The entry under the pointer.
    pub hovered_file: Option<EntryView>,
    /// The entry being dragged.
    pub dragging_file: Option<EntryView>,
    pub platform: Platform,
}

/// What a transition gives: the state after it, and the actions that the
/// shell is to perform, in order.
pub struct Step {
    pub state: FeView,
    pub actions: Seq<ActionView>,
}

impl FeView {
    /// Whether the state is as every transition leaves it: the listing
    /// and what is shown of it are in order under the active sort, and no
    /// two bookmarks have the same path.
    pub open spec fn wf(self) -> bool {
        &&& ordered(self.entries, self.dir_sorting)
        &&& ordered(self.display_entries, self.dir_sorting)
        &&& distinct_paths(self.quick_access)
    }

    /// Whether what is shown is what the search text selects of the
    /// listing.
    pub open spec fn display_current(self) -> bool {
        self.display_entries == displayed(self.entries, self.search_txt)
    }

    /// A step that changes nothing and asks for nothing.
    pub open spec fn stay(self) -> Step {
        Step { state: self, actions: Seq::empty() }
    }

    /// The state with one more error reported at `now`.
    pub open spec fn report(self, detail: Seq<char>, now: u64) -> FeView {
        FeView { diagnostics: self.diagnostics.push_error(detail, now), ..self }
    }

    /// Navigation to `path`: the directory browsed so far becomes the
    /// previous one, the search text is cleared, and `path` is to be
    /// listed.
    pub open spec fn set_path(self, path: PathView) -> Step {
        Step {
            state: FeView {
                prev_path: Some(self.path),
                path,
                search_txt: Seq::empty(),
                ..self
            },
            actions: seq![ActionView::ListDir(path)],
        }
    }

    /// Going back: navigation to the previous directory where there is
    /// one, and otherwise an error reported and nothing else.
    pub open spec fn go_back_path(self, now: u64) -> Step {
        match self.prev_path {
            Some(prev) => self.set_path(prev),
            None => self.report(no_history_text(), now).stay(),
        }
    }

    /// A reload: the directory is to be listed again; the previous
    /// directory and the search text stay.
    pub open spec fn reload(self) -> Step {
        Step { state: self, actions: seq![ActionView::ListDir(self.path)] }
    }

    /// The bookmark that the directory being browsed gets: its path,
    /// under its final name. A directory without a final name gets
    /// none.
    pub open spec fn own_bookmark(self) -> Option<BookmarkView> {
        match self.path.file_name() {
            Some(name) => Some(BookmarkView { name, path: self.path }),
            None => None,
        }
    }

    /// The toggle of the bookmark of the directory being browsed: where
    /// it is bookmarked, the bookmark is to be removed from the store;
    /// where it is not, its bookmark is to be saved. The list of
    /// bookmarks follows only when the store has done its part.
    pub open spec fn favorite_current_path(self) -> Step {
        if bookmarked(self.quick_access, self.path) {
            Step { state: self, actions: seq![ActionView::RemoveBookmark(self.path)] }
        } else {
            match self.own_bookmark() {
                Some(bookmark) => Step {
                    state: self,
                    actions: seq![ActionView::SaveBookmark(bookmark)],
                },
                None => self.stay(),
            }
        }
    }

    /// The start of the naming of a new file.
    pub open spec fn begin_new_file(self) -> FeView {
        FeView { creating_file: true, ..self }
    }

    /// The typed name changed to `name`.
    pub open spec fn set_new_file_name(self, name: Seq<u8>) -> FeView {
        FeView { new_file_name: name, ..self }
    }

    /// The naming of a new file given up; the typed name stays.
    pub open spec fn cancel_new_file(self) -> FeView {
        FeView { creating_file: false, ..self }
    }

    /// The name that the new file gets: the typed name, kept clear of
    /// the names in the listing.
    pub open spec fn new_file_target(self) -> Seq<u8> {
        valid_new_name(self.new_file_name, entry_names(self.entries))
    }

    /// The creation of the file that was named: a directory where the
    /// typed name ends in a separator, a file otherwise, at the typed
    /// name below the directory being browsed, which is then to be
    /// listed again. The naming is over and the typed name is cleared.
    pub open spec fn create_file(self) -> Step {
        let target = self.path.descend(self.new_file_target());
        let wants_dir = self.new_file_name.len() > 0 && self.new_file_name.last() == SLASH;
        Step {
            state: FeView { creating_file: false, new_file_name: Seq::empty(), ..self },
            actions: seq![
                if wants_dir {
                    ActionView::CreateDir(target)
                } else {
                    ActionView::CreateFile(target)
                },
                ActionView::ListDir(self.path),
            ],
        }
    }

    /// The removal of `entry`, a directory with all that it holds, and
    /// then a new listing.
    pub open spec fn delete_entry(self, entry: EntryView) -> Step {
        Step {
            state: self,
            actions: seq![
                if entry.is_dir() {
                    ActionView::RemoveDir(entry.path)
                } else {
                    ActionView::RemoveFile(entry.path)
                },
                ActionView::ListDir(self.path),
            ],
        }
    }

    /// The directory that dropped files go into: the directory under the
    /// pointer, or the directory being browsed where the pointer is over
    /// a file or over nothing.
    pub open spec fn drop_dir(self) -> PathView {
        match self.hovered_file {
            Some(entry) => if entry.is_dir() {
                entry.path
            } else {
                self.path
            },
            None => self.path,
        }
    }

    /// A drop of files that has been put off `count` times: at the
    /// ceiling or above it, an error is reported and the drop is given
    /// up; below the delay it is put off once more, to the next frame;
    /// at the delay the files are moved.
    pub open spec fn move_dropped(self, count: u8, files: Seq<Option<PathView>>, now: u64) -> Step {
        if count >= MOVE_RETRY_CEILING {
            self.report(retries_exhausted_text(), now).stay()
        } else if count < MOVE_FILE_DELAY {
            FeView {
                events: self.events.schedule(EventView::MoveFile((count + 1) as u8, files)),
                ..self
            }.stay()
        } else {
            Step { state: self, actions: drop_actions(files, self.drop_dir(), self.path) }
        }
    }

    /// The start of a drag of `entry`.
    pub open spec fn start_drag(self, entry: EntryView) -> FeView {
        FeView { dragging_file: Some(entry), ..self }
    }

    /// The pointer came to be over `entry`, or over nothing.
    pub open spec fn set_hovered(self, entry: Option<EntryView>) -> FeView {
        FeView { hovered_file: entry, ..self }
    }

    /// The end of a drag: where an entry is being dragged and the
    /// pointer is over a directory, the entry is to be moved into that
    /// directory under its own name, and the directory being browsed is
    /// to be listed again. Whatever comes of it, nothing is dragged and
    /// nothing is hovered afterwards.
    pub open spec fn end_drag(self) -> Step {
        let state = FeView { dragging_file: None, hovered_file: None, ..self };
        match (self.dragging_file, self.hovered_file) {
            (Some(dragged), Some(target)) => if target.is_dir() {
                Step {
                    state,
                    actions: seq![
                        ActionView::Rename(dragged.path, target.path.child(dragged.name)),
                        ActionView::ListDir(self.path),
                    ],
                }
            } else {
                state.stay()
            },
            _ => state.stay(),
        }
    }

    /// A file command run on the file at `path`: its process is to be
    /// started with `path` as the final argument.
    pub open spec fn run_file_command(self, command: FileCommandView, path: PathView) -> Step {
        Step { state: self, actions: seq![ActionView::Spawn(command.spawn(path))] }
    }

    /// A directory command run on the directory being browsed: its
    /// process is to be started with the path of the directory as the
    /// final argument.
    pub open spec fn run_dir_command(self, command: DirCommandView) -> Step {
        Step { state: self, actions: seq![ActionView::Spawn(command.spawn(self.path))] }
    }

    /// What one event makes of the state. An event that names no
    /// transition changes nothing.
    pub open spec fn handle_event(self, event: EventView, now: u64) -> Step {
        match event {
            EventView::DirGoBack => self.go_back_path(now),
            EventView::FavoriteCurrentPath => self.favorite_current_path(),
            EventView::NewFile => self.begin_new_file().stay(),
            EventView::SetPath(path) => self.set_path(path),
            EventView::OpenTerminal => Step {
                state: self,
                actions: seq![ActionView::OpenTerminal(self.path)],
            },
            EventView::DeleteFile(entry) => self.delete_entry(entry),
            EventView::Exec(path) => Step { state: self, actions: seq![ActionView::Exec(path)] },
            EventView::RunFileCmd(command, path) => self.run_file_command(command, path),
            EventView::RunDirCmd(command) => self.run_dir_command(command),
            EventView::ReloadDir => self.reload(),
            EventView::MoveFile(count, files) => self.move_dropped(count, files, now),
            EventView::StartDragEntry(entry) => self.start_drag(entry).stay(),
            EventView::EndDragEntry => self.end_drag(),
            EventView::FocusPathBar | EventView::FocusSearchBar | EventView::Quit => self.stay(),
        }
    }

    /// The start of the handling of a frame's events: they leave the
    /// pool and wait to be applied, behind those that wait already.
    pub open spec fn handle_events(self) -> FeView {
        FeView {
            inbox: self.inbox + self.events.current,
            events: self.events.drained(),
            ..self
        }
    }

    /// The events `rest` applied one after the other, oldest first, up
    /// to and with the first that asks for an action: that action is
    /// handed out, the other actions of the event wait on the agenda, and
    /// the events behind it wait in the inbox. Where no event asks for
    /// an action, all are applied and nothing is handed out.
    pub open spec fn advance(self, rest: Seq<EventView>, now: u64) -> (FeView, Option<ActionView>)
        decreases rest.len(),
    {
        if rest.len() == 0 {
            (FeView { inbox: rest, ..self }, None)
        } else {
            let step = self.handle_event(rest.first(), now);
            if step.actions.len() > 0 {
                (
                    FeView {
                        inbox: rest.drop_first(),
                        agenda: step.actions.drop_first(),
                        ..step.state
                    },
                    Some(step.actions.first()),
                )
            } else {
                step.state.advance(rest.drop_first(), now)
            }
        }
    }

    /// The next action for the shell, and the state in which it is
    /// handed out. The actions of one event come in their order; only
    /// when all of them have been handed out is the next waiting event
    /// applied. Events are applied in the order in which they were
    /// emitted, each exactly once. Where neither an action nor an event
    /// waits, there is nothing to do.
    pub open spec fn next_action(self, now: u64) -> (FeView, Option<ActionView>) {
        if self.agenda.len() > 0 {
            (FeView { agenda: self.agenda.drop_first(), ..self }, Some(self.agenda.first()))
        } else {
            self.advance(self.inbox, now)
        }
    }

    /// The state with the listing replaced by `listed`, put in order
    /// under the active sort, and what is shown selected anew by the
    /// search text.
    pub open spec fn with_listing(self, listed: Seq<EntryView>) -> FeView {
        let entries = sorted_entries(listed, self.dir_sorting);
        FeView { entries, display_entries: displayed(entries, self.search_txt), ..self }
    }

    /// What a listing of `dir` makes of the state: the records replace
    /// the listing as a whole. Where one of them could not be read, the
    /// error is reported and the listing and what is shown of it stay as
    /// they were.
    pub open spec fn load_dir_entries(
        self,
        dir: PathView,
        records: Seq<RecordView>,
        now: u64,
    ) -> FeView {
        match classified(dir, records, self.platform) {
            Ok(listed) => self.with_listing(listed),
            Err(reason) => self.report(reason, now),
        }
    }

    /// What the outcome of an action makes of the state. A failure is
    /// reported and changes nothing else. A listing replaces the
    /// listing. A bookmark that the store saved or removed is saved in
    /// or removed from the list of bookmarks. Nothing else changes the
    /// state.
    pub open spec fn complete(self, action: ActionView, outcome: OutcomeView, now: u64) -> FeView {
        match outcome {
            OutcomeView::Failed(reason) => self.report(reason, now),
            OutcomeView::Listed(records) => match action {
                ActionView::ListDir(dir) => self.load_dir_entries(dir, records, now),
                _ => self,
            },
            OutcomeView::Done => match action {
                ActionView::SaveBookmark(bookmark) => FeView {
                    quick_access: with_bookmark(self.quick_access, bookmark),
                    ..self
                },
                ActionView::RemoveBookmark(path) => FeView {
                    quick_access: without_bookmark(self.quick_access, path),
                    ..self
                },
                _ => self,
            },
        }
    }

    /// A change of the sort: the listing is put in order under `sort`
    /// and what is shown is selected anew. The file system is not asked
    /// again.
    pub open spec fn update_sorting(self, sort: DirSorting) -> FeView {
        FeView { dir_sorting: sort, ..self }.with_listing(self.entries)
    }

    /// A click on the header of the column of `key`: the other direction
    /// where `key` is the active key, and `key` ascending otherwise.
    pub open spec fn select_sorting(self, key: DirSortingType) -> FeView {
        self.update_sorting(self.dir_sorting.selected(key))
    }

    /// A change of the search text: what is shown is selected anew from
    /// the listing, in its order.
    pub open spec fn update_search(self, text: Seq<u8>) -> FeView {
        FeView { search_txt: text, display_entries: displayed(self.entries, text), ..self }
    }

    /// The start of a frame: files that were dropped become a move that
    /// has not been put off yet, and the key bindings that fire on the
    /// input emit their events.
    pub open spec fn begin_frame(self, input: InputView) -> FeView {
        let events = if input.dropped_files.len() > 0 {
            self.events.emit(EventView::MoveFile(0, input.dropped_files))
        } else {
            self.events
        };
        FeView { events: events.ingest(input), ..self }
    }

    /// The end of the drawing of a frame: a pointer button that was
    /// released ends a drag.
    pub open spec fn end_input(self, input: InputView) -> FeView {
        if input.pointer_released {
            FeView { events: self.events.emit(EventView::EndDragEntry), ..self }
        } else {
            self
        }
    }

    /// The end of a frame: the diagnostics that have expired go, and the
    /// events that were scheduled become the events of the next frame.
    pub open spec fn end_frame(self, now: u64) -> FeView {
        FeView {
            diagnostics: self.diagnostics.prune(now),
            events: self.events.flushed(),
            ..self
        }
    }
}

/// What the waiting events lead to does not depend on what the inbox
/// held before: the events that are applied are those that are handed
/// over.
pub proof fn lemma_advance_ignores_inbox(
    state: FeView,
    inbox: Seq<EventView>,
    rest: Seq<EventView>,
    now: u64,
)
    ensures
        (FeView { inbox, ..state }).advance(rest, now) == state.advance(rest, now),
    decreases rest.len(),
{
    if rest.len() > 0 {
        let step = state.handle_event(rest.first(), now);
        let other = (FeView { inbox, ..state }).handle_event(rest.first(), now);
        assert(other.actions == step.actions);
        assert(other.state == (FeView { inbox, ..step.state }));
        if step.actions.len() == 0 {
            lemma_advance_ignores_inbox(step.state, inbox, rest.drop_first(), now);
        }
    }
}

/// Saving a bookmark keeps the paths of the bookmarks distinct.
pub proof fn lemma_with_bookmark_distinct(bookmarks: Seq<BookmarkView>, bookmark: BookmarkView)
    requires
        distinct_paths(bookmarks),
    ensures
        distinct_paths(with_bookmark(bookmarks, bookmark)),
{
    lemma_without_bookmark_distinct(bookmarks, bookmark.path);
    let others = without_bookmark(bookmarks, bookmark.path);
    let other = |b: BookmarkView| b.path != bookmark.path;
    let out = others.push(bookmark);
    assert forall|i: int, j: int| 0 <= i < j < out.len() implies (#[trigger] out[i]).path != (
    #[trigger] out[j]).path by {
        if j == others.len() {
            bookmarks.lemma_filter_pred(other, i);
        }
    }
}

/// Removing a bookmark keeps the paths of the bookmarks distinct, and
/// leaves none with the path that was removed.
pub proof fn lemma_without_bookmark_distinct(bookmarks: Seq<BookmarkView>, path: PathView)
    requires
        distinct_paths(bookmarks),
    ensures
        distinct_paths(without_bookmark(bookmarks, path)),
        !bookmarked(without_bookmark(bookmarks, path), path),
    decreases bookmarks.len(),
{
    reveal(Seq::filter);
    let other = |b: BookmarkView| b.path != path;
    let out = bookmarks.filter(other);
    assert forall|i: int| 0 <= i < out.len() implies (#[trigger] out[i]).path != path by {
        bookmarks.lemma_filter_pred(other, i);
    }
    if bookmarks.len() > 0 {
        let head = bookmarks.drop_last();
        assert(distinct_paths(head)) by {
            assert forall|i: int, j: int| 0 <= i < j < head.len() implies (#[trigger] head[i]).path
                != (#[trigger] head[j]).path by {
                assert(head[i] == bookmarks[i] && head[j] == bookmarks[j]);
            }
        }
        lemma_without_bookmark_distinct(head, path);
        let kept = head.filter(other);
        if other(bookmarks.last()) {
            assert forall|i: int, j: int| 0 <= i < j < out.len() implies (#[trigger] out[i]).path
                != (#[trigger] out[j]).path by {
                if j == kept.len() {
                    assert(kept.contains(kept[i]));
                    head.lemma_filter_contains_rev(other, kept[i]);
                    let k = choose|k: int| 0 <= k < head.len() && head[k] == kept[i];
                    assert(bookmarks[k] == kept[i]);
                    assert(bookmarks[k].path != bookmarks[bookmarks.len() - 1].path);
                } else {
                    assert(out[i] == kept[i] && out[j] == kept[j]);
                }
            }
        }
    }
}

/// Bookmarks that were saved one after the other have distinct paths.
pub proof fn lemma_saved_all_distinct(bookmarks: Seq<BookmarkView>)
    ensures
        distinct_paths(saved_all(bookmarks)),
    decreases bookmarks.len(),
{
    if bookmarks.len() > 0 {
        lemma_saved_all_distinct(bookmarks.drop_last());
        lemma_with_bookmark_distinct(saved_all(bookmarks.drop_last()), bookmarks.last());
    }
}

} // verus!
