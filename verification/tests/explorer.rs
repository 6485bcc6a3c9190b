use fe::commands::{DirCommand, FileCommand, SpawnSpec};
use fe::events::{DroppedFile, EventType, InputSnapshot, Key};
use fe::fe::action::{Action, Outcome};
use fe::fe::diagnostic::FeError;
use fe::fe::model::{MOVE_FILE_DELAY, MOVE_RETRY_CEILING};
use fe::fe::FE;
use fe::path::FsPath;
use fe::utils::dir::{
    DirRecord, DirSorting, DirSortingType, FeEntry, Metadata, Platform, QuickAccessEntry,
    SortOrder,
};

fn path(parts: &[&str]) -> FsPath {
    FsPath::new(b"/".to_vec(), parts.iter().map(|p| p.as_bytes().to_vec()).collect())
}

fn file(name: &str) -> DirRecord {
    DirRecord {
        name: name.as_bytes().to_vec(),
        metadata: Ok(Metadata { is_dir: false, is_file: true, mode: 0o644, size: 1, modified: 1 }),
    }
}

fn sized(name: &str, size: u64) -> DirRecord {
    DirRecord {
        name: name.as_bytes().to_vec(),
        metadata: Ok(Metadata { is_dir: false, is_file: true, mode: 0o644, size, modified: 1 }),
    }
}

fn dir(name: &str) -> DirRecord {
    DirRecord {
        name: name.as_bytes().to_vec(),
        metadata: Ok(Metadata { is_dir: true, is_file: false, mode: 0o755, size: 0, modified: 1 }),
    }
}

fn home_listing() -> Vec<DirRecord> {
    vec![file("b.txt"), file("a.txt"), dir("c_dir")]
}

fn names(entries: &[FeEntry]) -> Vec<String> {
    entries.iter().map(|e| String::from_utf8(e.name.clone()).unwrap()).collect()
}

fn messages(fe: &FE) -> Vec<String> {
    fe.diagnostics().entries().iter().map(|d| d.message.clone()).collect()
}

/// An explorer in `/home/u` whose listing has been read.
fn explorer() -> FE {
    let mut fe = FE::new(path(&["home", "u"]), Vec::new(), Platform::Posix);
    let actions = fe.reload();
    assert_eq!(actions, vec![Action::ListDir(path(&["home", "u"]))]);
    fe.complete(&actions[0], Outcome::Listed(home_listing()), 0);
    fe
}

fn shown(fe: &FE, name: &str) -> FeEntry {
    fe.entries().iter().find(|e| e.name == name.as_bytes()).unwrap().clone()
}

fn no_input() -> InputSnapshot {
    InputSnapshot {
        keys_pressed: Vec::new(),
        alt: false,
        ctrl: false,
        shift: false,
        mac_cmd: false,
        command: false,
        dropped_files: Vec::new(),
        pointer_released: false,
    }
}

/// Handles the events of the frame, answering every action with `answer`,
/// and returns the actions that were asked for.
fn run_frame(fe: &mut FE, now: u64, mut answer: impl FnMut(&Action) -> Outcome) -> Vec<Action> {
    let mut performed = Vec::new();
    fe.handle_events();
    while let Some(action) = fe.next_action(now) {
        let outcome = answer(&action);
        fe.complete(&action, outcome, now);
        performed.push(action);
    }
    fe.end_frame(now);
    performed
}

#[test]
fn a_new_explorer_shows_nothing_yet() {
    let fe = FE::new(path(&["home", "u"]), Vec::new(), Platform::Posix);
    assert_eq!(fe.path(), &path(&["home", "u"]));
    assert_eq!(fe.prev_path(), &None);
    assert!(fe.entries().is_empty());
    assert!(fe.display_entries().is_empty());
    assert_eq!(fe.dir_sorting(), DirSorting::FileNameAlphabetically(SortOrder::Asc));
    assert!(fe.search_txt().is_empty());
    assert!(!fe.creating_file());
    assert_eq!(fe.diagnostics().len(), 0);
    assert_eq!(fe.hovered_file(), &None);
    assert_eq!(fe.dragging_file(), &None);
    assert!(fe.event_pool().get_events().is_empty());
}

#[test]
fn bookmarks_from_the_store_are_unique_by_path() {
    let a = QuickAccessEntry { name: b"a".to_vec(), path: path(&["a"]) };
    let b = QuickAccessEntry { name: b"b".to_vec(), path: path(&["b"]) };
    let a_again = QuickAccessEntry { name: b"other".to_vec(), path: path(&["a"]) };
    let fe = FE::new(path(&[]), vec![a, b.clone(), a_again.clone()], Platform::Posix);
    assert_eq!(fe.quick_access(), &vec![b, a_again]);
}

#[test]
fn listing_is_sorted_with_directories_first() {
    let mut fe = explorer();
    assert_eq!(names(fe.display_entries()), vec!["c_dir", "a.txt", "b.txt"]);
    assert_eq!(names(fe.entries()), vec!["c_dir", "a.txt", "b.txt"]);
    fe.select_sorting(DirSortingType::FileNameAlphabetically);
    assert_eq!(fe.dir_sorting(), DirSorting::FileNameAlphabetically(SortOrder::Desc));
    assert_eq!(names(fe.display_entries()), vec!["c_dir", "b.txt", "a.txt"]);
    fe.select_sorting(DirSortingType::FileNameAlphabetically);
    assert_eq!(names(fe.display_entries()), vec!["c_dir", "a.txt", "b.txt"]);
}

#[test]
fn selecting_another_key_starts_ascending() {
    let mut fe = explorer();
    fe.select_sorting(DirSortingType::FileNameAlphabetically);
    fe.select_sorting(DirSortingType::FileSize);
    assert_eq!(fe.dir_sorting(), DirSorting::FileSize(SortOrder::Asc));
    fe.select_sorting(DirSortingType::FileSize);
    assert_eq!(fe.dir_sorting(), DirSorting::FileSize(SortOrder::Desc));
    fe.select_sorting(DirSortingType::LastModified);
    assert_eq!(fe.dir_sorting(), DirSorting::LastModified(SortOrder::Asc));
}

#[test]
fn sorting_does_not_ask_the_file_system() {
    let mut fe = explorer();
    let listing = vec![sized("small", 1), sized("big", 9), dir("d"), sized("mid", 5)];
    fe.complete(&Action::ListDir(path(&["home", "u"])), Outcome::Listed(listing), 0);
    fe.update_search(b"i");
    fe.update_sorting(DirSorting::FileSize(SortOrder::Desc));
    assert_eq!(names(fe.entries()), vec!["d", "big", "mid", "small"]);
    assert_eq!(names(fe.display_entries()), vec!["big", "mid"]);
    fe.handle_events();
    assert_eq!(fe.next_action(0), None);
}

#[test]
fn navigation_records_the_previous_directory_and_clears_the_search() {
    let mut fe = explorer();
    fe.update_search(b"a");
    let actions = fe.set_path(path(&["etc"]));
    assert_eq!(actions, vec![Action::ListDir(path(&["etc"]))]);
    assert_eq!(fe.path(), &path(&["etc"]));
    assert_eq!(fe.prev_path(), &Some(path(&["home", "u"])));
    assert!(fe.search_txt().is_empty());
    fe.complete(&actions[0], Outcome::Listed(vec![file("hosts"), dir("ssh")]), 0);
    assert_eq!(names(fe.display_entries()), vec!["ssh", "hosts"]);
    assert_eq!(fe.entries()[0].path, path(&["etc", "ssh"]));
    assert_eq!(fe.diagnostics().len(), 0);
}

#[test]
fn failed_navigation_moves_on_and_keeps_what_was_shown() {
    let mut fe = explorer();
    fe.update_search(b"a");
    let before_entries = fe.entries().clone();
    let before_shown = fe.display_entries().clone();
    assert_eq!(names(&before_shown), vec!["a.txt"]);
    let actions = fe.set_path(path(&["root"]));
    fe.complete(&actions[0], Outcome::Failed("PermissionDenied".to_string()), 7);
    assert_eq!(fe.path(), &path(&["root"]));
    assert_eq!(fe.prev_path(), &Some(path(&["home", "u"])));
    assert_eq!(fe.entries(), &before_entries);
    assert_eq!(fe.display_entries(), &before_shown);
    assert_eq!(messages(&fe), vec!["error: PermissionDenied"]);
    assert_eq!(fe.diagnostics().entries()[0].expires_at, 12);
}

#[test]
fn a_record_that_cannot_be_read_fails_the_listing() {
    let mut fe = explorer();
    let before = fe.entries().clone();
    let listing = vec![
        file("x"),
        DirRecord { name: b"y".to_vec(), metadata: Err("NotFound".to_string()) },
    ];
    fe.complete(&Action::ListDir(path(&["home", "u"])), Outcome::Listed(listing), 3);
    assert_eq!(fe.entries(), &before);
    assert_eq!(messages(&fe), vec!["error: NotFound"]);
}

#[test]
fn going_back_restores_the_directory_and_its_listing() {
    let mut fe = explorer();
    let before_shown = fe.display_entries().clone();
    let away = fe.set_path(path(&["etc"]));
    fe.complete(&away[0], Outcome::Listed(vec![file("hosts")]), 0);
    let back = fe.go_back_path(1);
    assert_eq!(back, vec![Action::ListDir(path(&["home", "u"]))]);
    fe.complete(&back[0], Outcome::Listed(home_listing()), 1);
    assert_eq!(fe.path(), &path(&["home", "u"]));
    assert_eq!(fe.display_entries(), &before_shown);
    assert_eq!(fe.diagnostics().len(), 0);
    // The history is one step deep: the directory that was left is now the
    // previous one.
    assert_eq!(fe.prev_path(), &Some(path(&["etc"])));
    let again = fe.go_back_path(2);
    assert_eq!(again, vec![Action::ListDir(path(&["etc"]))]);
    assert_eq!(fe.path(), &path(&["etc"]));
    assert_eq!(fe.prev_path(), &Some(path(&["home", "u"])));
}

#[test]
fn going_back_without_history_reports_one_error() {
    let mut fe = explorer();
    let actions = fe.go_back_path(10);
    assert!(actions.is_empty());
    assert_eq!(fe.path(), &path(&["home", "u"]));
    assert_eq!(fe.prev_path(), &None);
    assert_eq!(messages(&fe), vec!["error: nothing to go back to"]);
    assert_eq!(fe.diagnostics().entries()[0].expires_at, 15);
    assert_eq!(fe.diagnostics().entries()[0].start_time, 10);
    assert_eq!(names(fe.display_entries()), vec!["c_dir", "a.txt", "b.txt"]);
}

#[test]
fn reload_keeps_history_and_search() {
    let mut fe = explorer();
    let away = fe.set_path(path(&["etc"]));
    fe.complete(&away[0], Outcome::Listed(vec![file("hosts"), file("passwd")]), 0);
    fe.update_search(b"pass");
    let actions = fe.handle_event(EventType::ReloadDir, 0);
    assert_eq!(actions, vec![Action::ListDir(path(&["etc"]))]);
    let listing = vec![file("hosts"), file("passwd"), file("pass2")];
    fe.complete(&actions[0], Outcome::Listed(listing), 0);
    assert_eq!(fe.prev_path(), &Some(path(&["home", "u"])));
    assert_eq!(fe.search_txt(), &b"pass".to_vec());
    assert_eq!(names(fe.display_entries()), vec!["pass2", "passwd"]);
    assert_eq!(names(fe.entries()), vec!["hosts", "pass2", "passwd"]);
}

#[test]
fn clearing_the_search_shows_the_sorted_listing_again() {
    let mut fe = explorer();
    fe.update_search(b".txt");
    assert_eq!(names(fe.display_entries()), vec!["a.txt", "b.txt"]);
    fe.update_search(b"zzz");
    assert!(fe.display_entries().is_empty());
    fe.update_search(b"");
    assert_eq!(fe.display_entries(), fe.entries());
    assert_eq!(names(fe.display_entries()), vec!["c_dir", "a.txt", "b.txt"]);
}

#[test]
fn toggling_a_bookmark_twice_leaves_the_bookmarks_as_they_were() {
    let other = QuickAccessEntry { name: b"etc".to_vec(), path: path(&["etc"]) };
    let mut fe = FE::new(path(&["home", "u"]), vec![other.clone()], Platform::Posix);
    let save = fe.handle_event(EventType::FavoriteCurrentPath, 0);
    let bookmark = QuickAccessEntry { name: b"u".to_vec(), path: path(&["home", "u"]) };
    assert_eq!(save, vec![Action::SaveBookmark(bookmark.clone())]);
    // The list follows only when the store has done its part.
    assert_eq!(fe.quick_access(), &vec![other.clone()]);
    fe.complete(&save[0], Outcome::Done, 0);
    assert_eq!(fe.quick_access(), &vec![other.clone(), bookmark]);
    let remove = fe.handle_event(EventType::FavoriteCurrentPath, 0);
    assert_eq!(remove, vec![Action::RemoveBookmark(path(&["home", "u"]))]);
    fe.complete(&remove[0], Outcome::Done, 0);
    assert_eq!(fe.quick_access(), &vec![other]);
    assert_eq!(fe.diagnostics().len(), 0);
}

#[test]
fn a_failing_store_leaves_the_bookmarks_alone() {
    let mut fe = explorer();
    let save = fe.favorite_current_path();
    fe.complete(&save[0], Outcome::Failed("disk full".to_string()), 4);
    assert!(fe.quick_access().is_empty());
    assert_eq!(messages(&fe), vec!["error: disk full"]);
    fe.complete(&save[0], Outcome::Done, 4);
    let remove = fe.favorite_current_path();
    fe.complete(&remove[0], Outcome::Failed("locked".to_string()), 5);
    assert_eq!(fe.quick_access().len(), 1);
    assert_eq!(messages(&fe), vec!["error: disk full", "error: locked"]);
}

#[test]
fn the_root_has_no_name_to_be_bookmarked_under() {
    let mut fe = FE::new(path(&[]), Vec::new(), Platform::Posix);
    assert!(fe.favorite_current_path().is_empty());
    assert_eq!(fe.diagnostics().len(), 0);
    let mut fe = FE::new(path(&["a", ".."]), Vec::new(), Platform::Posix);
    assert!(fe.favorite_current_path().is_empty());
}

#[test]
fn a_new_file_is_created_under_the_typed_name() {
    let mut fe = explorer();
    assert!(fe.handle_event(EventType::NewFile, 0).is_empty());
    assert!(fe.creating_file());
    fe.set_new_file_name(b"new.txt".to_vec());
    let actions = fe.create_file();
    assert_eq!(
        actions,
        vec![
            Action::CreateFile(path(&["home", "u", "new.txt"])),
            Action::ListDir(path(&["home", "u"])),
        ]
    );
    assert!(!fe.creating_file());
    assert!(fe.new_file_name().is_empty());
}

#[test]
fn a_trailing_separator_asks_for_a_directory() {
    let mut fe = explorer();
    fe.begin_new_file();
    fe.set_new_file_name(b"docs/drafts/".to_vec());
    let actions = fe.create_file();
    assert_eq!(
        actions,
        vec![
            Action::CreateDir(path(&["home", "u", "docs", "drafts"])),
            Action::ListDir(path(&["home", "u"])),
        ]
    );
    fe.begin_new_file();
    fe.set_new_file_name(b"docs/readme".to_vec());
    assert_eq!(fe.create_file()[0], Action::CreateFile(path(&["home", "u", "docs", "readme"])));
}

#[test]
fn a_taken_name_gets_a_numeric_suffix() {
    let mut fe = explorer();
    fe.complete(&Action::ListDir(path(&["home", "u"])), Outcome::Listed(vec![file("note.txt")]), 0);
    fe.begin_new_file();
    fe.set_new_file_name(b"note.txt".to_vec());
    let first = fe.create_file();
    assert_eq!(first[0], Action::CreateFile(path(&["home", "u", "note.txt-2"])));
    fe.complete(&first[0], Outcome::Done, 0);
    fe.complete(&first[1], Outcome::Listed(vec![file("note.txt"), file("note.txt-2")]), 0);
    fe.begin_new_file();
    fe.set_new_file_name(b"note.txt".to_vec());
    let second = fe.create_file();
    assert_eq!(second[0], Action::CreateFile(path(&["home", "u", "note.txt-3"])));
}

#[test]
fn giving_up_a_new_file_ends_the_naming() {
    let mut fe = explorer();
    fe.begin_new_file();
    fe.set_new_file_name(b"x".to_vec());
    fe.cancel_new_file();
    assert!(!fe.creating_file());
}

#[test]
fn a_failed_creation_is_reported_and_the_listing_is_read_again() {
    let mut fe = explorer();
    fe.begin_new_file();
    fe.set_new_file_name(b"new".to_vec());
    fe.emit_event(EventType::ReloadDir);
    let _ = fe.take_events();
    let actions = fe.create_file();
    fe.complete(&actions[0], Outcome::Failed("ReadOnly".to_string()), 2);
    fe.complete(&actions[1], Outcome::Listed(home_listing()), 2);
    assert_eq!(messages(&fe), vec!["error: ReadOnly"]);
    assert_eq!(names(fe.display_entries()), vec!["c_dir", "a.txt", "b.txt"]);
}

#[test]
fn deleting_removes_a_file_or_a_whole_directory() {
    let mut fe = explorer();
    let a = shown(&fe, "a.txt");
    let c = shown(&fe, "c_dir");
    assert_eq!(
        fe.handle_event(EventType::DeleteFile(a), 0),
        vec![
            Action::RemoveFile(path(&["home", "u", "a.txt"])),
            Action::ListDir(path(&["home", "u"])),
        ]
    );
    assert_eq!(
        fe.delete_entry(c),
        vec![
            Action::RemoveDir(path(&["home", "u", "c_dir"])),
            Action::ListDir(path(&["home", "u"])),
        ]
    );
}

#[test]
fn a_drop_is_put_off_three_times_and_then_carried_out() {
    assert_eq!(MOVE_FILE_DELAY, 3);
    assert_eq!(MOVE_RETRY_CEILING, 4);
    let mut fe = explorer();
    let dropped = vec![
        DroppedFile { path: Some(path(&["mnt", "usb", "photo.png"])) },
        DroppedFile { path: None },
        DroppedFile { path: Some(path(&["mnt", "usb", "song.ogg"])) },
    ];
    let mut input = no_input();
    input.dropped_files = dropped.clone();
    fe.begin_frame(&input);
    assert!(fe.event_pool().get_event(&EventType::MoveFile(0, dropped.clone())));
    for count in 0..3u8 {
        let performed = run_frame(&mut fe, 0, |_| Outcome::Done);
        assert!(performed.is_empty());
        let waiting = vec![EventType::MoveFile(count + 1, dropped.clone())];
        assert_eq!(fe.event_pool().get_events(), waiting);
        fe.begin_frame(&no_input());
    }
    // The pointer is over a directory by now.
    fe.set_hovered(Some(shown(&fe, "c_dir")));
    let performed = run_frame(&mut fe, 0, |action| match action {
        Action::ListDir(_) => Outcome::Listed(home_listing()),
        _ => Outcome::Done,
    });
    assert_eq!(
        performed,
        vec![
            Action::Rename(
                path(&["mnt", "usb", "photo.png"]),
                path(&["home", "u", "c_dir", "photo.png"])
            ),
            Action::ListDir(path(&["home", "u"])),
            Action::Rename(
                path(&["mnt", "usb", "song.ogg"]),
                path(&["home", "u", "c_dir", "song.ogg"])
            ),
            Action::ListDir(path(&["home", "u"])),
        ]
    );
    assert!(fe.event_pool().get_events().is_empty());
    assert_eq!(fe.diagnostics().len(), 0);
}

#[test]
fn a_drop_goes_into_the_current_directory_unless_a_directory_is_hovered() {
    let mut fe = explorer();
    let dropped = vec![DroppedFile { path: Some(path(&["tmp", "x"])) }];
    let here = fe.move_dropped(3, dropped.clone(), 0);
    assert_eq!(here[0], Action::Rename(path(&["tmp", "x"]), path(&["home", "u", "x"])));
    fe.set_hovered(Some(shown(&fe, "a.txt")));
    let still_here = fe.move_dropped(3, dropped.clone(), 0);
    assert_eq!(still_here[0], Action::Rename(path(&["tmp", "x"]), path(&["home", "u", "x"])));
    fe.set_hovered(Some(shown(&fe, "c_dir")));
    let there = fe.move_dropped(3, dropped, 0);
    assert_eq!(there[0], Action::Rename(path(&["tmp", "x"]), path(&["home", "u", "c_dir", "x"])));
    let nameless = fe.move_dropped(3, vec![DroppedFile { path: Some(path(&[])) }], 0);
    assert_eq!(nameless[0], Action::Rename(path(&[]), path(&["home", "u", "c_dir"])));
}

#[test]
fn a_drop_at_the_ceiling_or_above_is_given_up_with_an_error() {
    let dropped = vec![DroppedFile { path: Some(path(&["tmp", "x"])) }];
    for count in [4u8, 5, 200, 255] {
        let mut fe = explorer();
        let actions = fe.handle_event(EventType::MoveFile(count, dropped.clone()), 1);
        assert!(actions.is_empty());
        fe.end_frame(1);
        assert!(fe.event_pool().get_events().is_empty());
        assert_eq!(messages(&fe), vec!["error: dropped files were put off too often to be moved"]);
    }
    // Right below the ceiling the files are moved and nothing is put off.
    let mut fe = explorer();
    let moved = fe.handle_event(EventType::MoveFile(3, dropped), 1);
    assert_eq!(moved.len(), 2);
    fe.end_frame(1);
    assert!(fe.event_pool().get_events().is_empty());
    assert_eq!(fe.diagnostics().len(), 0);
}

#[test]
fn a_failed_move_is_reported() {
    let mut fe = explorer();
    let dropped = vec![DroppedFile { path: Some(path(&["tmp", "x"])) }];
    fe.emit_event(EventType::MoveFile(3, dropped));
    let performed = run_frame(&mut fe, 0, |action| match action {
        Action::ListDir(_) => Outcome::Listed(home_listing()),
        _ => Outcome::Failed("CrossesDevices".to_string()),
    });
    assert_eq!(performed.len(), 2);
    assert_eq!(messages(&fe), vec!["error: CrossesDevices"]);
}

#[test]
fn a_drag_onto_a_directory_moves_the_entry_into_it() {
    let mut fe = explorer();
    let a = shown(&fe, "a.txt");
    let c = shown(&fe, "c_dir");
    assert!(fe.handle_event(EventType::StartDragEntry(a.clone()), 0).is_empty());
    assert_eq!(fe.dragging_file(), &Some(a));
    fe.set_hovered(Some(c));
    let actions = fe.handle_event(EventType::EndDragEntry, 0);
    assert_eq!(
        actions,
        vec![
            Action::Rename(
                path(&["home", "u", "a.txt"]),
                path(&["home", "u", "c_dir", "a.txt"])
            ),
            Action::ListDir(path(&["home", "u"])),
        ]
    );
    assert_eq!(fe.dragging_file(), &None);
    assert_eq!(fe.hovered_file(), &None);
}

#[test]
fn a_drag_that_ends_elsewhere_moves_nothing_and_is_over() {
    let mut fe = explorer();
    let a = shown(&fe, "a.txt");
    let b = shown(&fe, "b.txt");
    fe.start_drag(a.clone());
    fe.set_hovered(Some(b));
    assert!(fe.end_drag().is_empty());
    assert_eq!(fe.dragging_file(), &None);
    assert_eq!(fe.hovered_file(), &None);
    fe.start_drag(a);
    assert!(fe.end_drag().is_empty());
    assert_eq!(fe.dragging_file(), &None);
    fe.set_hovered(Some(shown(&fe, "c_dir")));
    assert!(fe.end_drag().is_empty());
    assert_eq!(fe.hovered_file(), &None);
}

#[test]
fn a_released_pointer_ends_the_drag() {
    let mut fe = explorer();
    fe.start_drag(shown(&fe, "a.txt"));
    let mut input = no_input();
    fe.end_input(&input);
    assert!(fe.event_pool().get_events().is_empty());
    input.pointer_released = true;
    fe.end_input(&input);
    assert_eq!(fe.event_pool().get_events(), vec![EventType::EndDragEntry]);
    run_frame(&mut fe, 0, |_| Outcome::Done);
    assert_eq!(fe.dragging_file(), &None);
}

#[test]
fn commands_become_processes_with_the_target_last() {
    let mut fe = explorer();
    let on_file = FileCommand {
        name: "view".to_string(),
        interpreter: "python3".to_string(),
        script: "/opt/view.py".to_string(),
        extensions: Some(vec!["txt".to_string()]),
        args: Some(vec!["-u".to_string()]),
        clickable: None,
    };
    let on_dir = DirCommand {
        name: "count".to_string(),
        interpreter: "wc".to_string(),
        script: String::new(),
        args: None,
    };
    let target = path(&["home", "u", "a.txt"]);
    assert_eq!(
        fe.handle_event(EventType::RunFileCmd(on_file, target.clone()), 0),
        vec![Action::Spawn(SpawnSpec {
            interpreter: "python3".to_string(),
            args: vec!["-u".to_string(), "/opt/view.py".to_string()],
            target: target.clone(),
        })]
    );
    assert_eq!(
        fe.handle_event(EventType::RunDirCmd(on_dir), 0),
        vec![Action::Spawn(SpawnSpec {
            interpreter: "wc".to_string(),
            args: Vec::new(),
            target: path(&["home", "u"]),
        })]
    );
    assert_eq!(fe.handle_event(EventType::Exec(target.clone()), 0), vec![Action::Exec(target)]);
    assert_eq!(
        fe.handle_event(EventType::OpenTerminal, 0),
        vec![Action::OpenTerminal(path(&["home", "u"]))]
    );
}

#[test]
fn a_process_that_does_not_start_is_reported() {
    let mut fe = explorer();
    let actions = fe.handle_event(EventType::OpenTerminal, 0);
    fe.complete(&actions[0], Outcome::Failed("NotFound".to_string()), 9);
    assert_eq!(messages(&fe), vec!["error: NotFound"]);
    assert_eq!(actions[0].failure("x".to_string()), FeError::Spawn("x".to_string()));
}

#[test]
fn failures_are_classed_by_what_the_action_touches() {
    let p = path(&["x"]);
    let bookmark = QuickAccessEntry { name: b"x".to_vec(), path: p.clone() };
    let spawn = SpawnSpec { interpreter: "sh".to_string(), args: Vec::new(), target: p.clone() };
    for action in [
        Action::ListDir(p.clone()),
        Action::RemoveDir(p.clone()),
        Action::RemoveFile(p.clone()),
        Action::CreateDir(p.clone()),
        Action::CreateFile(p.clone()),
        Action::Rename(p.clone(), p.clone()),
    ] {
        assert_eq!(action.failure("e".to_string()), FeError::Io("e".to_string()));
    }
    for action in [Action::SaveBookmark(bookmark), Action::RemoveBookmark(p.clone())] {
        assert_eq!(action.failure("e".to_string()), FeError::Persistence("e".to_string()));
    }
    for action in [Action::Exec(p.clone()), Action::Spawn(spawn), Action::OpenTerminal(p)] {
        assert_eq!(action.failure("e".to_string()), FeError::Spawn("e".to_string()));
    }
}

#[test]
fn events_without_a_transition_change_nothing() {
    let mut fe = explorer();
    for event in [EventType::FocusPathBar, EventType::FocusSearchBar, EventType::Quit] {
        assert!(fe.handle_event(event, 0).is_empty());
    }
    assert_eq!(fe.path(), &path(&["home", "u"]));
    assert_eq!(fe.diagnostics().len(), 0);
    assert_eq!(names(fe.display_entries()), vec!["c_dir", "a.txt", "b.txt"]);
}

#[test]
fn outcomes_that_do_not_fit_the_action_change_nothing() {
    let mut fe = explorer();
    let before = fe.entries().clone();
    fe.complete(&Action::ListDir(path(&["home", "u"])), Outcome::Done, 0);
    fe.complete(&Action::RemoveFile(path(&["x"])), Outcome::Listed(vec![file("q")]), 0);
    fe.complete(&Action::RemoveFile(path(&["x"])), Outcome::Done, 0);
    assert_eq!(fe.entries(), &before);
    assert!(fe.quick_access().is_empty());
    assert_eq!(fe.diagnostics().len(), 0);
}

#[test]
fn key_bindings_emit_their_events_in_table_order() {
    let mut fe = explorer();
    let mut input = no_input();
    input.command = true;
    input.keys_pressed = vec![Key::R, Key::N, Key::L];
    fe.begin_frame(&input);
    assert_eq!(
        fe.event_pool().get_events(),
        vec![EventType::FocusPathBar, EventType::NewFile, EventType::ReloadDir]
    );
    assert!(fe.event_pool().get_event(&EventType::FocusPathBar));
    assert!(!fe.event_pool().get_event(&EventType::FocusSearchBar));
    let performed = run_frame(&mut fe, 0, |_| Outcome::Listed(home_listing()));
    assert_eq!(performed, vec![Action::ListDir(path(&["home", "u"]))]);
    assert!(fe.creating_file());
}

#[test]
fn a_key_without_its_modifier_does_not_fire() {
    let mut fe = explorer();
    let mut input = no_input();
    input.keys_pressed = vec![Key::O, Key::B];
    input.ctrl = true;
    input.shift = true;
    fe.begin_frame(&input);
    assert!(fe.event_pool().get_events().is_empty());
    let mut input = no_input();
    input.command = true;
    fe.begin_frame(&input);
    assert!(fe.event_pool().get_events().is_empty());
}

#[test]
fn events_of_a_frame_are_handled_in_their_order() {
    let mut fe = explorer();
    fe.emit_event(EventType::SetPath(path(&["etc"])));
    fe.emit_event(EventType::FocusSearchBar);
    fe.emit_event(EventType::DirGoBack);
    fe.emit_event(EventType::DeleteFile(shown(&fe, "a.txt")));
    let performed = run_frame(&mut fe, 0, |action| match action {
        Action::ListDir(p) if p == &path(&["etc"]) => Outcome::Listed(vec![file("hosts")]),
        Action::ListDir(_) => Outcome::Listed(vec![file("b.txt"), dir("c_dir")]),
        _ => Outcome::Done,
    });
    assert_eq!(
        performed,
        vec![
            Action::ListDir(path(&["etc"])),
            Action::ListDir(path(&["home", "u"])),
            Action::RemoveFile(path(&["home", "u", "a.txt"])),
            Action::ListDir(path(&["home", "u"])),
        ]
    );
    assert_eq!(fe.path(), &path(&["home", "u"]));
    assert_eq!(fe.prev_path(), &Some(path(&["etc"])));
    assert_eq!(names(fe.display_entries()), vec!["c_dir", "b.txt"]);
    assert_eq!(fe.next_action(0), None);
}

#[test]
fn toggling_a_bookmark_twice_in_one_frame_cancels_out() {
    let mut fe = explorer();
    fe.emit_event(EventType::FavoriteCurrentPath);
    fe.emit_event(EventType::FavoriteCurrentPath);
    let performed = run_frame(&mut fe, 0, |_| Outcome::Done);
    assert_eq!(performed.len(), 2);
    assert!(matches!(performed[0], Action::SaveBookmark(_)));
    assert!(matches!(performed[1], Action::RemoveBookmark(_)));
    assert!(fe.quick_access().is_empty());
}

#[test]
fn an_event_emitted_while_handling_waits_for_the_next_handling() {
    let mut fe = explorer();
    fe.emit_event(EventType::NewFile);
    fe.handle_events();
    fe.emit_event(EventType::DirGoBack);
    assert_eq!(fe.next_action(0), None);
    assert!(fe.creating_file());
    assert_eq!(fe.diagnostics().len(), 0);
    assert_eq!(fe.event_pool().get_events(), vec![EventType::DirGoBack]);
}

#[test]
fn diagnostics_expire_at_the_end_of_a_frame() {
    let mut fe = explorer();
    fe.go_back_path(10);
    fe.go_back_path(12);
    fe.end_frame(14);
    assert_eq!(fe.diagnostics().len(), 2);
    fe.end_frame(15);
    assert_eq!(fe.diagnostics().len(), 1);
    assert_eq!(fe.diagnostics().entries()[0].start_time, 12);
    fe.end_frame(17);
    assert_eq!(fe.diagnostics().len(), 0);
}

#[test]
fn a_diagnostic_can_be_dismissed() {
    let mut fe = explorer();
    fe.go_back_path(0);
    fe.go_back_path(0);
    let first = fe.diagnostics().entries()[0].id;
    let second = fe.diagnostics().entries()[1].id;
    assert_ne!(first, second);
    assert!(fe.dismiss(first));
    assert!(!fe.dismiss(first));
    assert_eq!(fe.diagnostics().len(), 1);
    assert_eq!(fe.diagnostics().entries()[0].id, second);
}

#[test]
fn scheduled_events_reach_the_next_frame() {
    let mut fe = explorer();
    fe.schedule_event(EventType::NewFile);
    assert!(fe.take_events().is_empty());
    fe.end_frame(0);
    assert_eq!(fe.take_events(), vec![EventType::NewFile]);
    fe.end_frame(0);
    assert!(fe.take_events().is_empty());
}

#[test]
fn a_command_can_be_run_without_an_event() {
    let fe = explorer();
    let on_dir = DirCommand {
        name: "du".to_string(),
        interpreter: "du".to_string(),
        script: String::new(),
        args: Some(vec!["-sh".to_string()]),
    };
    assert_eq!(
        fe.run_dir_command(&on_dir),
        vec![Action::Spawn(SpawnSpec {
            interpreter: "du".to_string(),
            args: vec!["-sh".to_string()],
            target: path(&["home", "u"]),
        })]
    );
    let on_file = FileCommand {
        name: "cat".to_string(),
        interpreter: "cat".to_string(),
        script: String::new(),
        extensions: None,
        args: None,
        clickable: None,
    };
    let target = path(&["home", "u", "a.txt"]);
    assert_eq!(
        fe.run_file_command(&on_file, &target),
        vec![Action::Spawn(SpawnSpec {
            interpreter: "cat".to_string(),
            args: Vec::new(),
            target,
        })]
    );
}
