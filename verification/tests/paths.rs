use fe::cli::{get_fe_dir, parse_args, CliArgs};
use fe::config::Config;
use fe::path::{extension_of_name, find_last_dot, FsPath};
use fe::text::{bytes_contains, bytes_eq, bytes_lt, decimal_digits, with_suffix};

fn path(parts: &[&str]) -> FsPath {
    FsPath::new(b"/".to_vec(), parts.iter().map(|p| p.as_bytes().to_vec()).collect())
}

#[test]
fn joining_adds_a_name() {
    assert_eq!(path(&["a"]).join(b"b"), path(&["a", "b"]));
    assert_eq!(path(&[]).join(b"b"), path(&["b"]));
    assert_eq!(path(&["a"]).join(b"b").file_name(), Some(b"b".to_vec()));
    assert_eq!(path(&["a"]).join(b"b").parent(), Some(path(&["a"])));
}

#[test]
fn a_path_has_a_final_name_unless_it_is_a_root_or_ends_in_dots() {
    assert_eq!(path(&["a", "b.txt"]).file_name(), Some(b"b.txt".to_vec()));
    assert_eq!(path(&[]).file_name(), None);
    assert_eq!(path(&["a", ".."]).file_name(), None);
    assert_eq!(path(&["a", "..."]).file_name(), Some(b"...".to_vec()));
    assert_eq!(path(&["a", "."]).file_name(), Some(b".".to_vec()));
    assert_eq!(path(&[]).parent(), None);
    assert_eq!(path(&["a"]).parent(), Some(path(&[])));
}

#[test]
fn paths_are_equal_by_root_and_names() {
    assert!(path(&["a", "b"]).same_as(&path(&["a", "b"])));
    assert!(!path(&["a", "b"]).same_as(&path(&["a"])));
    assert!(!path(&["a", "b"]).same_as(&path(&["a", "c"])));
    let relative = FsPath::new(Vec::new(), vec![b"a".to_vec(), b"b".to_vec()]);
    assert!(!path(&["a", "b"]).same_as(&relative));
    assert_eq!(path(&["a", "b"]).clone(), path(&["a", "b"]));
}

#[test]
fn the_extension_follows_the_last_dot() {
    let cases: [(&str, Option<&str>); 9] = [
        ("a.txt", Some("txt")),
        ("a.tar.gz", Some("gz")),
        ("a", None),
        (".bashrc", None),
        (".config.toml", Some("toml")),
        ("a.", Some("")),
        ("..", None),
        ("", None),
        ("a..b", Some("b")),
    ];
    for (name, expected) in cases {
        let expected = expected.map(|e| e.as_bytes().to_vec());
        assert_eq!(path(&["d", name]).extension(), expected, "{}", name);
        if name != ".." {
            assert_eq!(extension_of_name(name.as_bytes()), expected, "{}", name);
        }
    }
    assert_eq!(path(&[]).extension(), None);
    assert_eq!(find_last_dot(b"a.b.c"), Some(3));
    assert_eq!(find_last_dot(b"abc"), None);
    assert_eq!(find_last_dot(b"."), Some(0));
}

#[test]
fn a_typed_path_is_split_at_its_separators() {
    assert_eq!(path(&["a"]).descend(b"b/c"), path(&["a", "b", "c"]));
    assert_eq!(path(&["a"]).descend(b"b/c/"), path(&["a", "b", "c"]));
    assert_eq!(path(&["a"]).descend(b"/b//c"), path(&["a", "b", "c"]));
    assert_eq!(path(&["a"]).descend(b"b"), path(&["a", "b"]));
    assert_eq!(path(&["a"]).descend(b""), path(&["a"]));
    assert_eq!(path(&["a"]).descend(b"///"), path(&["a"]));
    assert_eq!(path(&["a"]).descend(b"../b"), path(&["a", "..", "b"]));
}

#[test]
fn bytes_compare_as_strings_do() {
    let samples: [&[u8]; 8] = [b"", b"a", b"ab", b"b", b"B", b"abc", b"\xff", b"a\x00"];
    for a in samples {
        for b in samples {
            assert_eq!(bytes_lt(a, b), a < b);
            assert_eq!(bytes_eq(a, b), a == b);
        }
    }
}

#[test]
fn substrings_are_found_byte_for_byte() {
    assert!(bytes_contains(b"hello", b"ell"));
    assert!(bytes_contains(b"hello", b"hello"));
    assert!(bytes_contains(b"hello", b"o"));
    assert!(bytes_contains(b"hello", b"h"));
    assert!(bytes_contains(b"hello", b""));
    assert!(bytes_contains(b"", b""));
    assert!(!bytes_contains(b"hello", b"Hell"));
    assert!(!bytes_contains(b"hello", b"hello!"));
    assert!(!bytes_contains(b"", b"a"));
    assert!(!bytes_contains(b"aab", b"aba"));
    assert!(bytes_contains(b"aaab", b"aab"));
}

#[test]
fn numbers_are_written_in_decimal() {
    assert_eq!(decimal_digits(0), b"0".to_vec());
    assert_eq!(decimal_digits(7), b"7".to_vec());
    assert_eq!(decimal_digits(10), b"10".to_vec());
    assert_eq!(decimal_digits(1234567890), b"1234567890".to_vec());
    assert_eq!(decimal_digits(u128::MAX), u128::MAX.to_string().into_bytes());
    assert_eq!(with_suffix(b"note", 2), b"note-2".to_vec());
    assert_eq!(with_suffix(b"", 15), b"-15".to_vec());
}

#[test]
fn the_configuration_file_defaults_to_the_home_directory() {
    let home = path(&["home", "u"]);
    assert_eq!(get_fe_dir(&home), path(&["home", "u", ".config", "fe"]));
    let parsed = parse_args(CliArgs { config_path: None }, &home);
    assert_eq!(parsed.config_path, Some(path(&["home", "u", ".config", "fe", "config.toml"])));
    let given = parse_args(CliArgs { config_path: Some(path(&["etc", "fe.toml"])) }, &home);
    assert_eq!(given.config_path, Some(path(&["etc", "fe.toml"])));
}

#[test]
fn the_data_directory_defaults_where_the_file_names_none() {
    let config = Config { commands: None, data_dir: None };
    let default_dir = "/home/u/.fe/data".to_string();
    assert_eq!(config.with_data_dir(default_dir.clone()).data_dir, Some(default_dir));
    let config = Config { commands: None, data_dir: Some("/var/fe".to_string()) };
    assert_eq!(config.with_data_dir("/home/u/.fe/data".to_string()).data_dir.unwrap(), "/var/fe");
}
