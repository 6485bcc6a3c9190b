//! The transitions of the explorer that have to do with the directory
//! being browsed and with what it holds.

pub use crate::fe::bookmarks::is_favorited;

use crate::commands::{DirCommand, FileCommand};
use crate::events::{dropped_views, DroppedFile, EventType};
use crate::fe::action::{action_views, Action, ActionView};
use crate::fe::diagnostic::FeError;
use crate::fe::model::drop_actions;
use crate::fe::model::{MOVE_FILE_DELAY, MOVE_RETRY_CEILING};
use crate::fe::FE;
use crate::path::{FsPath, SLASH};
use crate::text::bytes_clone;
use crate::utils::dir::{load, record_views};
use crate::utils::dir::{DirRecord, DirSorting, DirSortingType, FeEntry, QuickAccessEntry};
use crate::utils::naming::get_valid_new_file;
use vstd::prelude::*;
use vstd::string::StringExecFns;

verus! {

/// No actions.
pub(crate) fn no_actions() -> (actions: Vec<Action>)
    ensures
        action_views(actions@) == Seq::<ActionView>::empty(),
{
    let actions: Vec<Action> = Vec::new();
    assert(action_views(actions@) =~= Seq::<ActionView>::empty());
    actions
}

/// The one action `action`.
pub(crate) fn one_action(action: Action) -> (actions: Vec<Action>)
    ensures
        action_views(actions@) == seq![action@],
{
    let mut actions: Vec<Action> = Vec::new();
    actions.push(action);
    assert(action_views(actions@) =~= seq![action@]);
    actions
}

/// The action `first` and then the action `second`.
pub(crate) fn two_actions(first: Action, second: Action) -> (actions: Vec<Action>)
    ensures
        action_views(actions@) == seq![first@, second@],
{
    let mut actions: Vec<Action> = Vec::new();
    actions.push(first);
    actions.push(second);
    assert(action_views(actions@) =~= seq![first@, second@]);
    actions
}

impl FE {
    /// Navigates to `path`: the directory browsed so far becomes the
    /// previous one, the search text is cleared, and `path` is to be
    /// listed.
    pub fn set_path(&mut self, path: FsPath) -> (actions: Vec<Action>)
        ensures
            final(self)@ == old(self)@.set_path(path@).state,
            action_views(actions@) == old(self)@.set_path(path@).actions,
    {
        let action = Action::ListDir(path.clone());
        let mut previous = path;
        std::mem::swap(&mut previous, &mut self.path);
        self.prev_path = Some(previous);
        self.search_txt = Vec::new();
        assert(self.search_txt@ =~= Seq::<u8>::empty());
        one_action(action)
    }

    /// Goes back to the previous directory. Where there is none, an
    /// error is reported and nothing else happens.
    pub fn go_back_path(&mut self, now: u64) -> (actions: Vec<Action>)
        ensures
            final(self)@ == old(self)@.go_back_path(now).state,
            action_views(actions@) == old(self)@.go_back_path(now).actions,
    {
        let prev = match &self.prev_path {
            Some(prev) => Some(prev.clone()),
            None => None,
        };
        match prev {
            Some(prev) => self.set_path(prev),
            None => {
                let err = FeError::Logic(String::from_str("nothing to go back to"));
                self.report(&err, now);
                no_actions()
            },
        }
    }

    /// Asks for the directory being browsed to be listed again. The
    /// previous directory and the search text stay.
    pub fn reload(&mut self) -> (actions: Vec<Action>)
        ensures
            final(self)@ == old(self)@.reload().state,
            action_views(actions@) == old(self)@.reload().actions,
    {
        one_action(Action::ListDir(self.path.clone()))
    }

    /// Toggles the bookmark of the directory being browsed: asks the
    /// store to remove it where there is one, and to save one where
    /// there is none. The list of bookmarks follows when the store has
    /// done its part.
    pub fn favorite_current_path(&mut self) -> (actions: Vec<Action>)
        ensures
            final(self)@ == old(self)@.favorite_current_path().state,
            action_views(actions@) == old(self)@.favorite_current_path().actions,
    {
        if self.quick_access.contains(&self.path) {
            one_action(Action::RemoveBookmark(self.path.clone()))
        } else {
            match self.path.file_name() {
                Some(name) => one_action(
                    Action::SaveBookmark(QuickAccessEntry { name, path: self.path.clone() }),
                ),
                None => no_actions(),
            }
        }
    }

    /// Starts the naming of a new file.
    pub fn begin_new_file(&mut self)
        ensures
            final(self)@ == old(self)@.begin_new_file(),
    {
        self.creating_file = true;
    }

    /// Changes the name typed for the new file.
    pub fn set_new_file_name(&mut self, name: Vec<u8>)
        ensures
            final(self)@ == old(self)@.set_new_file_name(name@),
    {
        self.new_file_name = name;
    }

    /// Gives up the naming of a new file.
    pub fn cancel_new_file(&mut self)
        ensures
            final(self)@ == old(self)@.cancel_new_file(),
    {
        self.creating_file = false;
    }

    /// Creates the file that was named: asks for a directory where the
    /// typed name ends in a separator and for a file otherwise, under a
    /// name that is clear of the names in the listing, and then for a new
    /// listing. The naming is over and the typed name is cleared.
    pub fn create_file(&mut self) -> (actions: Vec<Action>)
        ensures
            final(self)@ == old(self)@.create_file().state,
            action_views(actions@) == old(self)@.create_file().actions,
    {
        let typed: usize = self.new_file_name.len();
        let is_dir = typed > 0 && self.new_file_name[typed - 1] == SLASH;
        let new_file_name = get_valid_new_file(
            self.new_file_name.as_slice(),
            self.listing.entries(),
        );
        let new_file_path = self.path.descend(new_file_name.as_slice());
        let create = if is_dir {
            Action::CreateDir(new_file_path)
        } else {
            Action::CreateFile(new_file_path)
        };
        self.creating_file = false;
        self.new_file_name = Vec::new();
        assert(self.new_file_name@ =~= Seq::<u8>::empty());
        two_actions(create, Action::ListDir(self.path.clone()))
    }

    /// Deletes `entry`: asks for its removal, a directory with all that
    /// it holds, and then for a new listing.
    pub fn delete_entry(&mut self, entry: FeEntry) -> (actions: Vec<Action>)
        ensures
            final(self)@ == old(self)@.delete_entry(entry@).state,
            action_views(actions@) == old(self)@.delete_entry(entry@).actions,
    {
        let remove = if entry.is_dir() {
            Action::RemoveDir(entry.path)
        } else {
            Action::RemoveFile(entry.path)
        };
        two_actions(remove, Action::ListDir(self.path.clone()))
    }

    /// The move of what is at `origin` to `dest`.
    pub fn move_file(&self, origin: &FsPath, dest: &FsPath) -> (action: Action)
        ensures
            action@ == ActionView::Rename(origin@, dest@),
    {
        Action::Rename(origin.clone(), dest.clone())
    }

    /// The directory that dropped files go into: the directory under the
    /// pointer, or the directory being browsed where the pointer is over
    /// a file or over nothing.
    pub fn drop_dir(&self) -> (dir: FsPath)
        ensures
            dir@ == self@.drop_dir(),
    {
        match &self.hovered_file {
            Some(entry) => if entry.is_dir() {
                entry.path.clone()
            } else {
                self.path.clone()
            },
            None => self.path.clone(),
        }
    }

    /// Handles a drop of files that has been put off `count` times: at
    /// the ceiling or above it, an error is reported and the drop is
    /// given up; below the delay it is put off once more, to the next
    /// frame; at the delay the files are to be moved, each followed by a
    /// new listing.
    pub fn move_dropped(&mut self, count: u8, files: Vec<DroppedFile>, now: u64) -> (actions: Vec<
        Action,
    >)
        ensures
            final(self)@ == old(self)@.move_dropped(count, dropped_views(files@), now).state,
            action_views(actions@) == old(self)@.move_dropped(
                count,
                dropped_views(files@),
                now,
            ).actions,
    {
        if count >= MOVE_RETRY_CEILING {
            let err = FeError::Logic(
                String::from_str("dropped files were put off too often to be moved"),
            );
            self.report(&err, now);
            no_actions()
        } else if count < MOVE_FILE_DELAY {
            self.schedule_event(EventType::MoveFile(count + 1, files));
            no_actions()
        } else {
            let dir = self.drop_dir();
            let ghost dropped = dropped_views(files@);
            let mut actions: Vec<Action> = Vec::new();
            let mut i: usize = 0;
            assert(dropped.take(0) =~= Seq::empty());
            assert(action_views(actions@) =~= Seq::<ActionView>::empty());
            while i < files.len()
                invariant
                    i <= files.len(),
                    dropped == dropped_views(files@),
                    dir@ == self@.drop_dir(),
                    action_views(actions@) == drop_actions(
                        dropped.take(i as int),
                        dir@,
                        self@.path,
                    ),
                decreases files.len() - i,
            {
                let ghost before = action_views(actions@);
                proof {
                    assert(dropped.take(i + 1).drop_last() =~= dropped.take(i as int));
                    assert(dropped.take(i + 1).last() == files@[i as int]@);
                }
                match &files[i].path {
                    Some(path) => {
                        let dest = match path.file_name() {
                            Some(name) => dir.join(name.as_slice()),
                            None => dir.clone(),
                        };
                        let rename = self.move_file(path, &dest);
                        let list = Action::ListDir(self.path.clone());
                        let ghost rename_view = rename@;
                        let ghost list_view = list@;
                        actions.push(rename);
                        actions.push(list);
                        assert(action_views(actions@) =~= before.push(rename_view).push(list_view));
                    },
                    None => {},
                }
                i += 1;
            }
            assert(dropped.take(i as int) =~= dropped);
            actions
        }
    }

    /// Runs a file command on the file at `path`: asks for its process
    /// to be started with `path` as the final argument.
    pub fn run_file_command(&self, command: &FileCommand, path: &FsPath) -> (actions: Vec<Action>)
        ensures
            action_views(actions@) == self@.run_file_command(command@, path@).actions,
    {
        one_action(Action::Spawn(command.run(path)))
    }

    /// Runs a directory command on the directory being browsed: asks for
    /// its process to be started with the path of the directory as the
    /// final argument.
    pub fn run_dir_command(&self, command: &DirCommand) -> (actions: Vec<Action>)
        ensures
            action_views(actions@) == self@.run_dir_command(command@).actions,
    {
        one_action(Action::Spawn(command.run(&self.path)))
    }

    /// Starts a drag of `entry`.
    pub fn start_drag(&mut self, entry: FeEntry)
        ensures
            final(self)@ == old(self)@.start_drag(entry@),
    {
        self.dragging_file = Some(entry);
    }

    /// Records the entry under the pointer, or that there is none.
    pub fn set_hovered(&mut self, entry: Option<FeEntry>)
        ensures
            final(self)@ == old(self)@.set_hovered(crate::fe::opt_entry_view(entry)),
    {
        self.hovered_file = entry;
    }

    /// Ends a drag: where an entry is being dragged and the pointer is
    /// over a directory, asks for the entry to be moved into that
    /// directory under its own name, and then for a new listing.
    /// Whatever comes of it, nothing is dragged and nothing is hovered
    /// afterwards.
    pub fn end_drag(&mut self) -> (actions: Vec<Action>)
        ensures
            final(self)@ == old(self)@.end_drag().state,
            action_views(actions@) == old(self)@.end_drag().actions,
    {
        let actions = match (&self.dragging_file, &self.hovered_file) {
            (Some(file), Some(dest)) => if dest.is_dir() {
                let dest_path = dest.path.join(file.name.as_slice());
                two_actions(
                    self.move_file(&file.path, &dest_path),
                    Action::ListDir(self.path.clone()),
                )
            } else {
                no_actions()
            },
            _ => no_actions(),
        };
        self.dragging_file = None;
        self.hovered_file = None;
        actions
    }

    /// Takes in a listing of `dir`: the records replace the listing as a
    /// whole, in order under the active sort, and what is shown is
    /// selected anew. Where a record could not be read, the error is
    /// reported and the listing and what is shown of it stay as they
    /// were.
    pub fn load_dir_entries(&mut self, dir: &FsPath, records: &Vec<DirRecord>, now: u64)
        ensures
            final(self)@ == old(self)@.load_dir_entries(dir@, record_views(records@), now),
    {
        match load(dir, records, self.platform) {
            Ok(entries) => {
                self.listing.replace(entries, self.search_txt.as_slice());
            },
            Err(err) => {
                self.report(&err, now);
            },
        }
    }

    /// Changes the sort: the listing is put in order under `sort` and
    /// what is shown is selected anew. The file system is not asked
    /// again.
    pub fn update_sorting(&mut self, sort: DirSorting)
        ensures
            final(self)@ == old(self)@.update_sorting(sort),
    {
        self.listing.update_sorting(sort, self.search_txt.as_slice());
    }

    /// Handles a click on the header of the column of `key`: the other
    /// direction where `key` is the active key, and `key` ascending
    /// otherwise.
    pub fn select_sorting(&mut self, key: DirSortingType)
        ensures
            final(self)@ == old(self)@.select_sorting(key),
    {
        let sort = self.listing.dir_sorting().select(key);
        self.update_sorting(sort);
    }

    /// Changes the search text: what is shown is selected anew from the
    /// listing, in its order.
    pub fn update_search(&mut self, text: &[u8])
        ensures
            final(self)@ == old(self)@.update_search(text@),
    {
        self.search_txt = bytes_clone(text);
        self.listing.update_search(text);
    }
}

} // verus!
