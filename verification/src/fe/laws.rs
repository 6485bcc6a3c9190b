//! What holds of the explorer in every state and over several
//! transitions, proved of the model that the executable explorer is held
//! to.

use crate::events::{EventView, InputView};
use crate::fe::action::{ActionView, OutcomeView};
use crate::fe::diagnostic::{error_message, expiry, DEFAULT_DURATION};
use crate::fe::model::{bookmarked, distinct_paths, no_history_text, retries_exhausted_text};
use crate::fe::model::{lemma_with_bookmark_distinct, lemma_without_bookmark_distinct};
use crate::fe::model::{with_bookmark, without_bookmark};
use crate::fe::model::{FeView, MOVE_FILE_DELAY, MOVE_RETRY_CEILING};
use crate::path::PathView;
use crate::seqs::lemma_filter_all;
use crate::utils::dir::classified;
use crate::utils::dir::{BookmarkView, DirSorting, EntryView, RecordView};
use crate::utils::sort::{dirs_first, sorted_entries};
use crate::utils::sort::{lemma_displayed_all, lemma_displayed_ordered, lemma_ordered_dirs_first};
use crate::utils::sort::{lemma_sorted_entries, lemma_sorted_onto_ordered};
use vstd::prelude::*;

verus! {

/// In every well-formed state the directories stand ahead of the files,
/// in the listing and in what is shown of it, whatever the sort.
pub proof fn lemma_directories_come_first(state: FeView)
    requires
        state.wf(),
    ensures
        dirs_first(state.entries),
        dirs_first(state.display_entries),
{
    lemma_ordered_dirs_first(state.entries, state.dir_sorting);
    lemma_ordered_dirs_first(state.display_entries, state.dir_sorting);
}

/// An event leaves a well-formed state well formed, and leaves the
/// listing, what is shown of it, the sort and the bookmarks alone: these
/// change only when an outcome comes in.
pub proof fn lemma_handle_event_keeps_wf(state: FeView, event: EventView, now: u64)
    requires
        state.wf(),
    ensures
        state.handle_event(event, now).state.wf(),
        state.handle_event(event, now).state.entries == state.entries,
        state.handle_event(event, now).state.display_entries == state.display_entries,
        state.handle_event(event, now).state.dir_sorting == state.dir_sorting,
        state.handle_event(event, now).state.quick_access == state.quick_access,
{
}

/// An outcome leaves a well-formed state well formed.
pub proof fn lemma_complete_keeps_wf(
    state: FeView,
    action: ActionView,
    outcome: OutcomeView,
    now: u64,
)
    requires
        state.wf(),
    ensures
        state.complete(action, outcome, now).wf(),
{
    match outcome {
        OutcomeView::Listed(records) => {
            if let ActionView::ListDir(dir) = action {
                if let Ok(listed) = classified(dir, records, state.platform) {
                    lemma_with_listing(state, listed);
                }
            }
        },
        OutcomeView::Done => {
            if let ActionView::SaveBookmark(bookmark) = action {
                lemma_with_bookmark_distinct(state.quick_access, bookmark);
            }
            if let ActionView::RemoveBookmark(path) = action {
                lemma_without_bookmark_distinct(state.quick_access, path);
            }
        },
        OutcomeView::Failed(_) => {},
    }
}

/// A new listing leaves the state well formed, whatever it was, and
/// with what is shown selected by the search text.
pub proof fn lemma_with_listing(state: FeView, listed: Seq<EntryView>)
    requires
        distinct_paths(state.quick_access),
    ensures
        state.with_listing(listed).wf(),
        state.with_listing(listed).display_current(),
        state.with_listing(listed).entries.to_multiset() == listed.to_multiset(),
{
    lemma_sorted_entries(listed, state.dir_sorting);
    lemma_displayed_ordered(
        sorted_entries(listed, state.dir_sorting),
        state.search_txt,
        state.dir_sorting,
    );
}

/// After a listing of a directory has come in whole, every entry of the
/// listing and of what is shown lies in that directory: its path is that
/// of the directory followed by its name.
pub proof fn lemma_listing_lies_in_its_directory(
    state: FeView,
    dir: PathView,
    records: Seq<RecordView>,
    now: u64,
)
    requires
        classified(dir, records, state.platform) is Ok,
    ensures
        ({
            let after = state.load_dir_entries(dir, records, now);
            &&& after.entries.len() == records.len()
            &&& forall|i: int|
                0 <= i < after.entries.len() ==> (#[trigger] after.entries[i]).listed_in(dir)
            &&& forall|i: int|
                0 <= i < after.display_entries.len() ==> (
                #[trigger] after.display_entries[i]).listed_in(dir)
        }),
{
    broadcast use vstd::seq_lib::group_to_multiset_ensures;

    let listed = classified(dir, records, state.platform)->Ok_0;
    let after = state.load_dir_entries(dir, records, now);
    crate::utils::dir::lemma_classified_listed(dir, records, state.platform);
    lemma_sorted_entries(listed, state.dir_sorting);
    assert forall|i: int| 0 <= i < after.entries.len() implies (
    #[trigger] after.entries[i]).listed_in(dir) by {
        let entry = after.entries[i];
        assert(after.entries.to_multiset().count(entry) > 0);
        assert(listed.to_multiset().count(entry) > 0);
        assert(listed.contains(entry));
        let k = choose|k: int| 0 <= k < listed.len() && listed[k] == entry;
        assert(listed[k].listed_in(dir));
    }
    assert forall|i: int| 0 <= i < after.display_entries.len() implies (
    #[trigger] after.display_entries[i]).listed_in(dir) by {
        let entry = after.display_entries[i];
        assert(after.display_entries.contains(entry));
        after.entries.lemma_filter_contains_rev(
            |e: EntryView| crate::text::contains_bytes(e.name, state.search_txt),
            entry,
        );
        let k = choose|k: int| 0 <= k < after.entries.len() && after.entries[k] == entry;
        assert(after.entries[k].listed_in(dir));
    }
}

/// A change of the sort leaves the state well formed, with the same
/// entries in the listing and with what is shown selected by the search
/// text.
pub proof fn lemma_update_sorting_keeps_wf(state: FeView, sort: DirSorting)
    requires
        state.wf(),
    ensures
        state.update_sorting(sort).wf(),
        state.update_sorting(sort).display_current(),
        state.update_sorting(sort).dir_sorting == sort,
        state.update_sorting(sort).entries.to_multiset() == state.entries.to_multiset(),
{
    lemma_with_listing(FeView { dir_sorting: sort, ..state }, state.entries);
}

/// A change of the search text leaves the state well formed, with what
/// is shown selected by the new text.
pub proof fn lemma_update_search_keeps_wf(state: FeView, text: Seq<u8>)
    requires
        state.wf(),
    ensures
        state.update_search(text).wf(),
        state.update_search(text).display_current(),
        state.update_search(text).entries == state.entries,
{
    lemma_displayed_ordered(state.entries, text, state.dir_sorting);
}

/// The start and the end of a frame leave a well-formed state well
/// formed.
pub proof fn lemma_frame_keeps_wf(state: FeView, input: InputView, now: u64)
    requires
        state.wf(),
    ensures
        state.begin_frame(input).wf(),
        state.end_input(input).wf(),
        state.end_frame(now).wf(),
{
}

/// Applying the waiting events leaves a well-formed state well formed.
pub proof fn lemma_advance_keeps_wf(state: FeView, rest: Seq<EventView>, now: u64)
    requires
        state.wf(),
    ensures
        state.advance(rest, now).0.wf(),
    decreases rest.len(),
{
    if rest.len() > 0 {
        let step = state.handle_event(rest.first(), now);
        lemma_handle_event_keeps_wf(state, rest.first(), now);
        if step.actions.len() == 0 {
            lemma_advance_keeps_wf(step.state, rest.drop_first(), now);
        }
    }
}

/// Taking the events of a frame in and handing out the next action
/// leave a well-formed state well formed.
pub proof fn lemma_handling_keeps_wf(state: FeView, now: u64)
    requires
        state.wf(),
    ensures
        state.handle_events().wf(),
        state.next_action(now).0.wf(),
{
    lemma_advance_keeps_wf(state, state.inbox, now);
}

/// Events are applied in the order in which they were emitted: where
/// the first waiting event asks for no action, handing out the next
/// action is applying that event and going on with the events behind
/// it; where it asks for actions, the first of them is handed out, the
/// others wait, and the events behind it have not been applied.
pub proof fn lemma_events_are_applied_in_order(state: FeView, now: u64)
    requires
        state.agenda.len() == 0,
        state.inbox.len() > 0,
    ensures
        ({
            let step = state.handle_event(state.inbox.first(), now);
            let (after, action) = state.next_action(now);
            &&& step.actions.len() == 0 ==> (after, action) == (FeView {
                inbox: state.inbox.drop_first(),
                ..step.state
            }).next_action(now)
            &&& step.actions.len() > 0 ==> {
                &&& action == Some(step.actions.first())
                &&& after.agenda == step.actions.drop_first()
                &&& after.inbox == state.inbox.drop_first()
                &&& after == (FeView {
                    agenda: after.agenda,
                    inbox: after.inbox,
                    ..step.state
                })
            }
        }),
{
    let step = state.handle_event(state.inbox.first(), now);
    if step.actions.len() == 0 {
        assert(step.state.agenda.len() == 0);
        crate::fe::model::lemma_advance_ignores_inbox(
            step.state,
            state.inbox.drop_first(),
            state.inbox.drop_first(),
            now,
        );
    }
}

/// Clearing the search text after any search shows the whole listing
/// again, which in a well-formed state is the listing in sorted order.
pub proof fn lemma_clearing_search_restores(state: FeView, text: Seq<u8>)
    ensures
        state.update_search(text).update_search(Seq::empty()).display_entries == state.entries,
        state.update_search(text).update_search(Seq::empty()).entries == state.entries,
        state.wf() ==> state.update_search(text).update_search(Seq::empty()).display_entries
            == sorted_entries(state.entries, state.dir_sorting),
{
    lemma_displayed_all(state.entries);
    if state.wf() {
        assert(state.entries + Seq::<EntryView>::empty() =~= state.entries);
        lemma_sorted_onto_ordered(state.entries, Seq::empty(), state.dir_sorting);
    }
}

/// Navigating to a directory and going back restores the directory that
/// was browsed, whatever came of the listing in between. Going back asks
/// for the listing of that directory, and where it can be read, the
/// listing and what is shown are that listing in the order of the active
/// sort, with nothing left out. The directory that was navigated to is
/// then the previous one.
pub proof fn lemma_go_back_restores(
    state: FeView,
    path: PathView,
    there: OutcomeView,
    back: Seq<RecordView>,
    now: u64,
    later: u64,
)
    requires
        state.wf(),
    ensures
        ({
            let away = state.set_path(path).state.complete(ActionView::ListDir(path), there, now);
            let step = away.go_back_path(later);
            let home = step.state.complete(step.actions[0], OutcomeView::Listed(back), later);
            &&& state.set_path(path).actions == seq![ActionView::ListDir(path)]
            &&& away.path == path
            &&& step.actions == seq![ActionView::ListDir(state.path)]
            &&& home.path == state.path
            &&& home.prev_path == Some(path)
            &&& home.dir_sorting == state.dir_sorting
            &&& classified(state.path, back, state.platform) matches Ok(listed) ==> {
                &&& home.entries == sorted_entries(listed, state.dir_sorting)
                &&& home.display_entries == home.entries
                &&& home.wf()
            }
        }),
{
    let away = state.set_path(path).state.complete(ActionView::ListDir(path), there, now);
    let step = away.go_back_path(later);
    assert(away.prev_path == Some(state.path));
    assert(away.path == path);
    assert(step.state.search_txt == Seq::<u8>::empty());
    if let Ok(listed) = classified(state.path, back, state.platform) {
        lemma_displayed_all(sorted_entries(listed, state.dir_sorting));
        assert(away.quick_access == state.quick_access);
        lemma_with_listing(step.state, listed);
    }
}

/// Where the directory that is left was shown whole and in order, and
/// the file system gives the same listing again, going back after a
/// navigation shows exactly what was shown before.
pub proof fn lemma_go_back_shows_the_same(
    state: FeView,
    path: PathView,
    there: OutcomeView,
    back: Seq<RecordView>,
    now: u64,
    later: u64,
)
    requires
        state.wf(),
        state.search_txt == Seq::<u8>::empty(),
        state.display_current(),
        classified(state.path, back, state.platform) is Ok,
        state.entries == sorted_entries(
            classified(state.path, back, state.platform)->Ok_0,
            state.dir_sorting,
        ),
    ensures
        ({
            let away = state.set_path(path).state.complete(ActionView::ListDir(path), there, now);
            let step = away.go_back_path(later);
            let home = step.state.complete(step.actions[0], OutcomeView::Listed(back), later);
            &&& home.path == state.path
            &&& home.entries == state.entries
            &&& home.display_entries == state.display_entries
        }),
{
    lemma_go_back_restores(state, path, there, back, now, later);
    lemma_displayed_all(state.entries);
}

/// A navigation whose listing fails still moves to the new directory,
/// keeps the listing and what is shown as they were, and reports one
/// error.
pub proof fn lemma_failed_navigation_keeps_listing(
    state: FeView,
    path: PathView,
    reason: Seq<char>,
    now: u64,
)
    ensures
        ({
            let after = state.set_path(path).state.complete(
                ActionView::ListDir(path),
                OutcomeView::Failed(reason),
                now,
            );
            &&& after.path == path
            &&& after.prev_path == Some(state.path)
            &&& after.entries == state.entries
            &&& after.display_entries == state.display_entries
            &&& after.diagnostics == state.diagnostics.push_error(reason, now)
            &&& after.diagnostics.entries.len() == state.diagnostics.entries.len() + 1
        }),
{
}

/// A reload asks for the listing of the directory being browsed and
/// leaves the previous directory and the search text as they are.
pub proof fn lemma_reload_keeps_history(state: FeView, now: u64)
    ensures
        state.handle_event(EventView::ReloadDir, now).state == state,
        state.handle_event(EventView::ReloadDir, now).actions == seq![
            ActionView::ListDir(state.path),
        ],
{
}

/// Going back without a previous directory changes nothing but the
/// diagnostics, which gain exactly one, and asks for nothing.
pub proof fn lemma_go_back_without_history(state: FeView, now: u64)
    requires
        state.prev_path is None,
    ensures
        state.go_back_path(now).actions == Seq::<ActionView>::empty(),
        state.go_back_path(now).state == state.report(no_history_text(), now),
        state.go_back_path(now).state.path == state.path,
        state.go_back_path(now).state.diagnostics.entries.len() == state.diagnostics.entries.len()
            + 1,
        state.go_back_path(now).state.diagnostics.entries.last().message == error_message(
            no_history_text(),
        ),
        state.go_back_path(now).state.diagnostics.entries.last().expires_at == expiry(
            now,
            DEFAULT_DURATION,
        ),
{
}

/// A drop of files whose count has reached the ceiling is not put off
/// again: the events that wait for the next frame stay as they are, one
/// error is reported, and nothing is asked for. Below the ceiling, a
/// drop that has been put off as often as the delay says is carried out,
/// and one that has not is put off with its count raised by one.
pub proof fn lemma_move_retries_are_bounded(
    state: FeView,
    count: u8,
    files: Seq<Option<PathView>>,
    now: u64,
)
    ensures
        ({
            let step = state.handle_event(EventView::MoveFile(count, files), now);
            &&& count >= MOVE_RETRY_CEILING ==> {
                &&& step.state.events == state.events
                &&& step.actions == Seq::<ActionView>::empty()
                &&& step.state == state.report(retries_exhausted_text(), now)
                &&& step.state.diagnostics.entries.len() == state.diagnostics.entries.len() + 1
            }
            &&& count == MOVE_FILE_DELAY ==> {
                &&& step.state == state
                &&& step.actions == crate::fe::model::drop_actions(
                    files,
                    state.drop_dir(),
                    state.path,
                )
            }
            &&& count < MOVE_FILE_DELAY ==> {
                &&& step.actions == Seq::<ActionView>::empty()
                &&& step.state.events.pending == state.events.pending.push(
                    EventView::MoveFile((count + 1) as u8, files),
                )
                &&& step.state.events.current == state.events.current
                &&& step.state.diagnostics == state.diagnostics
            }
        }),
{
}

/// A drop of files comes to an end: each time it is put off, its count
/// comes nearer to the delay, and it never passes it.
pub proof fn lemma_move_is_settled(state: FeView, count: u8, files: Seq<Option<PathView>>, now: u64)
    requires
        count < MOVE_FILE_DELAY,
    ensures
        state.handle_event(EventView::MoveFile(count, files), now).state.events.pending.last()
            matches EventView::MoveFile(next, again) && next == count + 1 && again == files
            && next <= MOVE_FILE_DELAY < MOVE_RETRY_CEILING,
{
}

/// Removing the bookmark that was just saved gives back the bookmarks
/// as they were, where none of them had its path.
pub proof fn lemma_save_then_remove(bookmarks: Seq<BookmarkView>, bookmark: BookmarkView)
    requires
        !bookmarked(bookmarks, bookmark.path),
    ensures
        without_bookmark(with_bookmark(bookmarks, bookmark), bookmark.path) == bookmarks,
        bookmarked(with_bookmark(bookmarks, bookmark), bookmark.path),
{
    let other = |b: BookmarkView| b.path != bookmark.path;
    assert forall|i: int| 0 <= i < bookmarks.len() implies other(#[trigger] bookmarks[i]) by {
        if bookmarks[i].path == bookmark.path {
            assert(bookmarked(bookmarks, bookmark.path));
        }
    }
    lemma_filter_all(bookmarks, other);
    bookmarks.lemma_filter_push(bookmark, other);
    let saved = with_bookmark(bookmarks, bookmark);
    assert(saved[saved.len() - 1].path == bookmark.path);
}

/// Toggling the bookmark of a directory twice leaves the bookmarks
/// exactly as they were, where the directory was not bookmarked and has a
/// name to be bookmarked under and the store does its part both times:
/// the first toggle asks for the bookmark to be saved, the second for it
/// to be removed.
pub proof fn lemma_toggle_bookmark_twice(state: FeView, now: u64)
    requires
        !bookmarked(state.quick_access, state.path),
        state.path.file_name() is Some,
    ensures
        ({
            let first = state.favorite_current_path();
            let saved = first.state.complete(first.actions[0], OutcomeView::Done, now);
            let second = saved.favorite_current_path();
            let removed = second.state.complete(second.actions[0], OutcomeView::Done, now);
            &&& first.actions == seq![ActionView::SaveBookmark(state.own_bookmark().unwrap())]
            &&& bookmarked(saved.quick_access, state.path)
            &&& second.actions == seq![ActionView::RemoveBookmark(state.path)]
            &&& removed.quick_access == state.quick_access
            &&& removed == state
        }),
{
    let bookmark = state.own_bookmark().unwrap();
    lemma_save_then_remove(state.quick_access, bookmark);
}

/// A bookmark that the store could not save or remove leaves the list
/// of bookmarks as it was: the list follows the store, and an error is
/// reported.
pub proof fn lemma_failed_bookmark_keeps_list(state: FeView, reason: Seq<char>, now: u64)
    ensures
        ({
            let step = state.favorite_current_path();
            step.actions.len() > 0 ==> {
                let after = step.state.complete(step.actions[0], OutcomeView::Failed(reason), now);
                &&& after.quick_access == state.quick_access
                &&& after.diagnostics == state.diagnostics.push_error(reason, now)
            }
        }),
{
}

/// The end of a drag leaves nothing dragged and nothing hovered,
/// whatever was.
pub proof fn lemma_end_drag_clears(state: FeView, now: u64)
    ensures
        state.handle_event(EventView::EndDragEntry, now).state.dragging_file is None,
        state.handle_event(EventView::EndDragEntry, now).state.hovered_file is None,
{
}

} // verus!
