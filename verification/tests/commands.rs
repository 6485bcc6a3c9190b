use fe::commands::{DirCommand, FileCommand, SpawnSpec};
use fe::events::EventType;
use fe::path::FsPath;
use fe::utils::dir::{
    get_sort_icon, DirSorting, DirSortingType, File, SortOrder,
};

fn path(parts: &[&str]) -> FsPath {
    FsPath::new(b"/".to_vec(), parts.iter().map(|p| p.as_bytes().to_vec()).collect())
}

fn file(name: &str, is_exe: bool) -> File {
    File { path: path(&["d", name]), is_exe, size: 0, modified: 0 }
}

fn command(name: &str, extensions: Option<&[&str]>, clickable: Option<bool>) -> FileCommand {
    FileCommand {
        name: name.to_string(),
        interpreter: "sh".to_string(),
        script: format!("/opt/{}.sh", name),
        extensions: extensions.map(|list| list.iter().map(|e| e.to_string()).collect()),
        args: None,
        clickable,
    }
}

#[test]
fn a_command_runs_its_interpreter_on_the_target() {
    let cmd = FileCommand {
        name: "open".to_string(),
        interpreter: "python3".to_string(),
        script: "open.py".to_string(),
        extensions: None,
        args: Some(vec!["-O".to_string(), "-u".to_string()]),
        clickable: None,
    };
    let target = path(&["d", "a.txt"]);
    assert_eq!(
        cmd.run(&target),
        SpawnSpec {
            interpreter: "python3".to_string(),
            args: vec!["-O".to_string(), "-u".to_string(), "open.py".to_string()],
            target: target.clone(),
        }
    );
    let bare = DirCommand {
        name: "ls".to_string(),
        interpreter: "ls".to_string(),
        script: String::new(),
        args: None,
    };
    assert_eq!(
        bare.run(&target),
        SpawnSpec { interpreter: "ls".to_string(), args: Vec::new(), target: target.clone() }
    );
    let scripted = DirCommand {
        name: "s".to_string(),
        interpreter: "sh".to_string(),
        script: "s.sh".to_string(),
        args: Some(Vec::new()),
    };
    assert_eq!(scripted.run(&target).args, vec!["s.sh".to_string()]);
}

#[test]
fn commands_are_equal_by_value() {
    let a = command("a", Some(&["txt"]), Some(true));
    assert!(a.same_as(&a.clone()));
    assert!(!a.same_as(&command("a", Some(&["txt"]), None)));
    assert!(!a.same_as(&command("a", Some(&["txt"]), Some(false))));
    assert!(!a.same_as(&command("a", Some(&["md"]), Some(true))));
    assert!(!a.same_as(&command("a", Some(&["txt", "md"]), Some(true))));
    assert!(!a.same_as(&command("a", None, Some(true))));
    assert!(!a.same_as(&command("b", Some(&["txt"]), Some(true))));
}

#[test]
fn a_file_knows_its_extension() {
    assert_eq!(file("a.txt", false).ext(), Some(b"txt".to_vec()));
    assert_eq!(file("a", false).ext(), None);
    assert_eq!(file(".hidden", false).ext(), None);
    assert!(file("a.txt", false).is_of_ext(vec!["md".to_string(), "txt".to_string()]));
    assert!(!file("a.txt", false).is_of_ext(vec!["md".to_string()]));
    assert!(!file("a.txt", false).is_of_ext(vec!["TXT".to_string()]));
    assert!(!file("a.txt", false).is_of_ext(Vec::new()));
    assert!(!file("txt", false).is_of_ext(vec!["txt".to_string()]));
    assert!(file("a.\u{e9}", false).is_of_ext(vec!["\u{e9}".to_string()]));
}

#[test]
fn a_click_runs_an_executable() {
    let exe = file("run.sh", true);
    let commands = Some(vec![command("edit", Some(&["sh"]), Some(true))]);
    assert_eq!(exe.is_clickable(&commands), Some(EventType::Exec(exe.path.clone())));
    assert_eq!(exe.is_clickable(&None), Some(EventType::Exec(exe.path.clone())));
}

#[test]
fn a_click_runs_the_first_clickable_command_for_the_extension() {
    let text = file("a.txt", false);
    let commands = Some(vec![
        command("not-clickable", Some(&["txt"]), None),
        command("other-extension", Some(&["md"]), Some(true)),
        command("no-extensions", None, Some(true)),
        command("first", Some(&["md", "txt"]), Some(false)),
        command("second", Some(&["txt"]), Some(true)),
    ]);
    assert_eq!(
        text.is_clickable(&commands),
        Some(EventType::RunFileCmd(
            command("first", Some(&["md", "txt"]), Some(false)),
            text.path.clone()
        ))
    );
    assert_eq!(text.is_clickable(&None), None);
    assert_eq!(text.is_clickable(&Some(Vec::new())), None);
    assert_eq!(file("a", false).is_clickable(&commands), None);
    assert_eq!(file("a.rs", false).is_clickable(&commands), None);
}

#[test]
fn the_commands_offered_for_a_file_name_its_extension() {
    let text = file("a.txt", false);
    let commands = vec![
        command("one", Some(&["txt"]), None),
        command("two", Some(&["md"]), Some(true)),
        command("three", None, Some(true)),
        command("four", Some(&["md", "txt"]), None),
    ];
    let offered: Vec<String> = text.commands_for(&commands).into_iter().map(|c| c.name).collect();
    assert_eq!(offered, vec!["one", "four"]);
    assert!(file("a", false).commands_for(&commands).is_empty());
}

#[test]
fn sort_orders_toggle() {
    assert_eq!(SortOrder::Asc.toggle(), SortOrder::Desc);
    assert_eq!(SortOrder::Desc.toggle(), SortOrder::Asc);
    assert_eq!(SortOrder::Asc.icon(), "⬆");
    assert_eq!(SortOrder::Desc.icon(), "⬇");
}

#[test]
fn the_header_shows_the_arrow_of_the_next_direction() {
    let by_name_asc = DirSorting::FileNameAlphabetically(SortOrder::Asc);
    let by_name_desc = DirSorting::FileNameAlphabetically(SortOrder::Desc);
    assert_eq!(get_sort_icon(DirSortingType::FileNameAlphabetically, &by_name_asc), "⬇");
    assert_eq!(get_sort_icon(DirSortingType::FileNameAlphabetically, &by_name_desc), "⬆");
    assert_eq!(get_sort_icon(DirSortingType::FileSize, &by_name_desc), "⬇");
    assert_eq!(get_sort_icon(DirSortingType::LastModified, &by_name_asc), "⬇");
    let by_size_desc = DirSorting::FileSize(SortOrder::Desc);
    assert_eq!(get_sort_icon(DirSortingType::FileSize, &by_size_desc), "⬆");
}

#[test]
fn a_sort_has_a_key_and_a_direction() {
    let sort = DirSorting::LastModified(SortOrder::Desc);
    assert_eq!(DirSortingType::from(&sort), DirSortingType::LastModified);
    assert_eq!(sort.sorting_type(), DirSortingType::LastModified);
    assert_eq!(sort.sort_order(), SortOrder::Desc);
    assert_eq!(sort.select(DirSortingType::LastModified), DirSorting::LastModified(SortOrder::Asc));
    assert_eq!(sort.select(DirSortingType::FileSize), DirSorting::FileSize(SortOrder::Asc));
    assert_eq!(
        DirSorting::FileSize(SortOrder::Asc).select(DirSortingType::FileSize),
        DirSorting::FileSize(SortOrder::Desc)
    );
}
