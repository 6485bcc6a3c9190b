//! The explorer: its state, and the transitions that events bring about.
//!
//! A frame goes like this. The shell calls [`FE::begin_frame`] with the
//! input of the frame, draws what the explorer shows, emitting the events
//! that the user brings about, and calls [`FE::end_input`]. It then calls
//! [`FE::handle_events`] and asks for one action after the other with
//! [`FE::next_action`]; it performs each and hands its outcome to
//! [`FE::complete`] before it asks for the next. When there is no action
//! left, it calls [`FE::end_frame`].

pub mod action;
pub mod bookmarks;
pub mod diagnostic;
pub mod files;
pub mod laws;
pub mod listing;
pub mod model;

use crate::events::{clone_dropped, default_bindings, event_views};
use crate::events::{EventPool, EventType, EventView, InputSnapshot, PoolView};
use crate::fe::action::{action_views, Action, ActionView, Outcome};
use crate::fe::bookmarks::{bookmark_views, Bookmarks};
use crate::fe::diagnostic::{DiagnosticsQueue, FeError, QueueView};
use crate::fe::listing::Listing;
use crate::fe::model::{distinct_paths, saved_all, FeView};
use crate::path::{opt_path_view, FsPath, PathView};
use crate::utils::dir::{BookmarkView, DirSorting, EntryView, FeEntry, Platform, SortOrder};
use crate::utils::dir::{entry_views, QuickAccessEntry};
use crate::utils::sort::{dirs_first, ordered};
use vstd::prelude::*;

verus! {

/// The value of an optional action.
pub open spec fn opt_action_view(action: Option<Action>) -> Option<ActionView> {
    match action {
        Some(action) => Some(action@),
        None => None,
    }
}

/// The value of an optional entry.
pub open spec fn opt_entry_view(entry: Option<FeEntry>) -> Option<EntryView> {
    match entry {
        Some(entry) => Some(entry@),
        None => None,
    }
}

/// The state of an explorer that was just started in the directory
/// `path` with the bookmarks `bookmarks`: nothing is listed yet, the sort
/// is by name and ascending, and nothing is searched for.
pub open spec fn started(
    path: PathView,
    bookmarks: Seq<BookmarkView>,
    platform: Platform,
) -> FeView {
    FeView {
        path,
        prev_path: None,
        entries: Seq::empty(),
        display_entries: Seq::empty(),
        dir_sorting: DirSorting::FileNameAlphabetically(SortOrder::Asc),
        quick_access: saved_all(bookmarks),
        search_txt: Seq::empty(),
        events: PoolView {
            bindings: default_bindings(),
            current: Seq::empty(),
            pending: Seq::empty(),
        },
        inbox: Seq::empty(),
        agenda: Seq::empty(),
        creating_file: false,
        new_file_name: Seq::empty(),
        diagnostics: QueueView { entries: Seq::empty(), next_id: 1 },
        hovered_file: None,
        dragging_file: None,
        platform,
    }
}

/// The explorer.
pub struct FE {
    path: FsPath,
    listing: Listing,
    prev_path: Option<FsPath>,
    quick_access: Bookmarks,
    search_txt: Vec<u8>,
    event_pool: EventPool,
    inbox: Vec<EventType>,
    agenda: Vec<Action>,
    creating_file: bool,
    new_file_name: Vec<u8>,
    diagnostics: DiagnosticsQueue,
    hovered_file: Option<FeEntry>,
    dragging_file: Option<FeEntry>,
    platform: Platform,
}

impl View for FE {
    type V = FeView;

    closed spec fn view(&self) -> FeView {
        FeView {
            path: self.path@,
            prev_path: opt_path_view(self.prev_path),
            entries: self.listing@.entries,
            display_entries: self.listing@.display_entries,
            dir_sorting: self.listing@.dir_sorting,
            quick_access: self.quick_access@,
            search_txt: self.search_txt@,
            events: self.event_pool@,
            inbox: event_views(self.inbox@),
            agenda: action_views(self.agenda@),
            creating_file: self.creating_file,
            new_file_name: self.new_file_name@,
            diagnostics: self.diagnostics@,
            hovered_file: opt_entry_view(self.hovered_file),
            dragging_file: opt_entry_view(self.dragging_file),
            platform: self.platform,
        }
    }
}

impl FE {
    /// An explorer in the directory `path`, with the bookmarks that the
    /// store holds. Nothing is listed yet: a reload brings the listing.
    pub fn new(path: FsPath, bookmarks: Vec<QuickAccessEntry>, platform: Platform) -> (fe: FE)
        ensures
            fe@ == started(path@, bookmark_views(bookmarks@), platform),
            fe@.wf(),
    {
        let fe = FE {
            path,
            listing: Listing::new(),
            prev_path: None,
            quick_access: Bookmarks::new(bookmarks),
            search_txt: Vec::new(),
            event_pool: EventPool::new(),
            inbox: Vec::new(),
            agenda: Vec::new(),
            creating_file: false,
            new_file_name: Vec::new(),
            diagnostics: DiagnosticsQueue::new(),
            hovered_file: None,
            dragging_file: None,
            platform,
        };
        proof {
            assert(fe.search_txt@ =~= Seq::empty());
            assert(fe.new_file_name@ =~= Seq::empty());
            assert(event_views(fe.inbox@) =~= Seq::empty());
            assert(action_views(fe.agenda@) =~= Seq::empty());
            model::lemma_saved_all_distinct(bookmark_views(bookmarks@));
        }
        fe
    }

    /// The directory being browsed.
    pub fn path(&self) -> (path: &FsPath)
        ensures
            path@ == self@.path,
    {
        &self.path
    }

    /// The directory that was browsed before, if any.
    pub fn prev_path(&self) -> (path: &Option<FsPath>)
        ensures
            opt_path_view(*path) == self@.prev_path,
    {
        &self.prev_path
    }

    /// The listing. It is in order under the active sort, with every
    /// directory ahead of every file.
    pub fn entries(&self) -> (entries: &Vec<FeEntry>)
        ensures
            entry_views(entries@) == self@.entries,
            ordered(self@.entries, self@.dir_sorting),
            dirs_first(self@.entries),
    {
        self.listing.entries()
    }

    /// What is shown of the listing. It is in order under the active
    /// sort, with every directory ahead of every file.
    pub fn display_entries(&self) -> (entries: &Vec<FeEntry>)
        ensures
            entry_views(entries@) == self@.display_entries,
            ordered(self@.display_entries, self@.dir_sorting),
            dirs_first(self@.display_entries),
    {
        self.listing.display_entries()
    }

    /// The active sort.
    pub fn dir_sorting(&self) -> (sort: DirSorting)
        ensures
            sort == self@.dir_sorting,
    {
        self.listing.dir_sorting()
    }

    /// The bookmarks. No two of them have the same path.
    pub fn quick_access(&self) -> (bookmarks: &Vec<QuickAccessEntry>)
        ensures
            bookmark_views(bookmarks@) == self@.quick_access,
            distinct_paths(self@.quick_access),
    {
        self.quick_access.entries()
    }

    /// The text that is searched for.
    pub fn search_txt(&self) -> (text: &Vec<u8>)
        ensures
            text@ == self@.search_txt,
    {
        &self.search_txt
    }

    /// Whether a new file is being named.
    pub fn creating_file(&self) -> (naming: bool)
        ensures
            naming == self@.creating_file,
    {
        self.creating_file
    }

    /// The name typed so far for the new file.
    pub fn new_file_name(&self) -> (name: &Vec<u8>)
        ensures
            name@ == self@.new_file_name,
    {
        &self.new_file_name
    }

    /// The diagnostics to show.
    pub fn diagnostics(&self) -> (queue: &DiagnosticsQueue)
        ensures
            queue@ == self@.diagnostics,
    {
        &self.diagnostics
    }

    /// The events of the frame.
    pub fn event_pool(&self) -> (pool: &EventPool)
        ensures
            pool@ == self@.events,
    {
        &self.event_pool
    }

    /// The entry under the pointer, if any.
    pub fn hovered_file(&self) -> (entry: &Option<FeEntry>)
        ensures
            opt_entry_view(*entry) == self@.hovered_file,
    {
        &self.hovered_file
    }

    /// The entry being dragged, if any.
    pub fn dragging_file(&self) -> (entry: &Option<FeEntry>)
        ensures
            opt_entry_view(*entry) == self@.dragging_file,
    {
        &self.dragging_file
    }

    /// Adds `event` to the events of this frame.
    pub fn emit_event(&mut self, event: EventType)
        ensures
            final(self)@ == (FeView { events: old(self)@.events.emit(event@), ..old(self)@ }),
    {
        self.event_pool.emit_event(event);
    }

    /// Adds `event` to the events that wait for the next frame.
    pub fn schedule_event(&mut self, event: EventType)
        ensures
            final(self)@ == (FeView { events: old(self)@.events.schedule(event@), ..old(self)@ }),
    {
        self.event_pool.schedule_event(event);
    }

    /// Removes the diagnostic held under `id`, and says whether there
    /// was one.
    pub fn dismiss(&mut self, id: u64) -> (found: bool)
        ensures
            final(self)@ == (FeView {
                diagnostics: old(self)@.diagnostics.dismiss(id),
                ..old(self)@
            }),
            found == (exists|i: int|
                0 <= i < old(self)@.diagnostics.entries.len()
                    && old(self)@.diagnostics.entries[i].id == id),
    {
        self.diagnostics.dismiss(id)
    }

    /// Starts a frame: files that were dropped become a move that has
    /// not been put off yet, and the key bindings that fire on `input`
    /// emit their events, in the order of the table.
    pub fn begin_frame(&mut self, input: &InputSnapshot)
        ensures
            final(self)@ == old(self)@.begin_frame(input@),
    {
        if input.dropped_files.len() > 0 {
            self.event_pool.emit_event(EventType::MoveFile(0, clone_dropped(&input.dropped_files)));
        }
        self.event_pool.emit_input_events(input);
    }

    /// Ends the drawing of a frame: a pointer button that was released
    /// ends a drag.
    pub fn end_input(&mut self, input: &InputSnapshot)
        ensures
            final(self)@ == old(self)@.end_input(input@),
    {
        if input.pointer_released {
            self.event_pool.emit_event(EventType::EndDragEntry);
        }
    }

    /// Takes the events of this frame out of the pool, oldest first.
    pub fn take_events(&mut self) -> (events: Vec<EventType>)
        ensures
            event_views(events@) == old(self)@.events.current,
            final(self)@ == (FeView { events: old(self)@.events.drained(), ..old(self)@ }),
    {
        self.event_pool.drain()
    }

    /// Starts the handling of the events of this frame: they leave the
    /// pool and wait to be applied by [`FE::next_action`].
    pub fn handle_events(&mut self)
        ensures
            final(self)@ == old(self)@.handle_events(),
    {
        let ghost waiting = event_views(self.inbox@);
        let mut events = self.event_pool.drain();
        let ghost taken = event_views(events@);
        self.inbox.append(&mut events);
        assert(event_views(self.inbox@) =~= waiting + taken);
    }

    /// The next action for the shell to perform, if there is one. The
    /// waiting events are applied in their order, each exactly once;
    /// the actions that an event asks for are handed out one by one, in
    /// their order, before the next event is applied. The shell hands
    /// the outcome of each action to [`FE::complete`] before it asks for
    /// the next. `None` says that all events of the frame have been
    /// handled.
    pub fn next_action(&mut self, now: u64) -> (action: Option<Action>)
        ensures
            final(self)@ == old(self)@.next_action(now).0,
            opt_action_view(action) == old(self)@.next_action(now).1,
    {
        if self.agenda.len() > 0 {
            let ghost before = action_views(self.agenda@);
            let action = self.agenda.remove(0);
            assert(action_views(self.agenda@) =~= before.drop_first());
            assert(before.first() == action@);
            return Some(action);
        }
        assert(action_views(self.agenda@).len() == 0);
        let mut rest: Vec<EventType> = Vec::new();
        std::mem::swap(&mut rest, &mut self.inbox);
        let ghost all = event_views(rest@);
        let mut i: usize = 0;
        proof {
            assert(all.skip(0) =~= all);
            model::lemma_advance_ignores_inbox(old(self)@, event_views(self.inbox@), all, now);
            assert(self@ == (FeView { inbox: event_views(self.inbox@), ..old(self)@ }));
        }
        while i < rest.len()
            invariant
                i <= rest.len(),
                all == event_views(rest@),
                self@.inbox.len() == 0,
                self@.advance(all.skip(i as int), now) == old(self)@.next_action(now),
            decreases rest.len() - i,
        {
            let ghost before = self@;
            proof {
                assert(all.skip(i as int).first() == rest@[i as int]@);
                assert(all.skip(i as int).drop_first() =~= all.skip(i + 1));
            }
            let mut actions = self.handle_event(rest[i].clone(), now);
            assert(self@.inbox == before.inbox);
            i += 1;
            if actions.len() > 0 {
                let ghost asked = action_views(actions@);
                let action = actions.remove(0);
                assert(action_views(actions@) =~= asked.drop_first());
                assert(asked.first() == action@);
                self.agenda = actions;
                self.inbox = rest.split_off(i);
                assert(event_views(self.inbox@) =~= all.skip(i as int));
                return Some(action);
            }
            assert(action_views(actions@).len() == 0);
        }
        assert(all.skip(i as int) =~= Seq::<EventView>::empty());
        assert(self@.inbox =~= Seq::<EventView>::empty());
        None
    }

    /// Ends a frame: the diagnostics that have expired at `now` go, and
    /// the events that were scheduled become the events of the next
    /// frame.
    pub fn end_frame(&mut self, now: u64)
        ensures
            final(self)@ == old(self)@.end_frame(now),
    {
        self.diagnostics.prune(now);
        self.event_pool.flush_events();
    }

    /// Reports `err` to the user at `now`.
    pub fn report(&mut self, err: &FeError, now: u64)
        ensures
            final(self)@ == old(self)@.report(err.detail(), now),
    {
        self.diagnostics.push_error(err, now);
    }

    /// Applies one event and returns the actions that it asks for, in
    /// the order in which they are to be performed.
    pub fn handle_event(&mut self, event: EventType, now: u64) -> (actions: Vec<Action>)
        ensures
            final(self)@ == old(self)@.handle_event(event@, now).state,
            action_views(actions@) == old(self)@.handle_event(event@, now).actions,
    {
        match event {
            EventType::DirGoBack => self.go_back_path(now),
            EventType::FavoriteCurrentPath => self.favorite_current_path(),
            EventType::NewFile => {
                self.begin_new_file();
                files::no_actions()
            },
            EventType::SetPath(path) => self.set_path(path),
            EventType::OpenTerminal => files::one_action(Action::OpenTerminal(self.path.clone())),
            EventType::DeleteFile(entry) => self.delete_entry(entry),
            EventType::Exec(path) => files::one_action(Action::Exec(path)),
            EventType::RunFileCmd(command, path) => self.run_file_command(&command, &path),
            EventType::RunDirCmd(command) => self.run_dir_command(&command),
            EventType::ReloadDir => self.reload(),
            EventType::MoveFile(count, dropped) => self.move_dropped(count, dropped, now),
            EventType::StartDragEntry(entry) => {
                self.start_drag(entry);
                files::no_actions()
            },
            EventType::EndDragEntry => self.end_drag(),
            EventType::FocusPathBar | EventType::FocusSearchBar | EventType::Quit => {
                files::no_actions()
            },
        }
    }

    /// Takes in the outcome of an action that the shell performed. A
    /// failure is reported and changes nothing else. A listing replaces
    /// the listing as a whole. A bookmark that the store saved or removed
    /// is saved in or removed from the list of bookmarks.
    pub fn complete(&mut self, action: &Action, outcome: Outcome, now: u64)
        ensures
            final(self)@ == old(self)@.complete(action@, outcome@, now),
    {
        match outcome {
            Outcome::Failed(reason) => {
                let err = action.failure(reason);
                self.report(&err, now);
            },
            Outcome::Listed(records) => match action {
                Action::ListDir(dir) => {
                    self.load_dir_entries(dir, &records, now);
                },
                _ => {},
            },
            Outcome::Done => match action {
                Action::SaveBookmark(bookmark) => {
                    self.quick_access.save(bookmark.clone());
                },
                Action::RemoveBookmark(path) => {
                    self.quick_access.remove(path);
                },
                _ => {},
            },
        }
    }
}

} // verus!
