use path_input::base::{join_to_base, path_completion_base, prefix_needs_home, resolve_base};
use path_input::scan::{matching_names, scan_candidates, sort_names, DirEntryInfo};

fn dir(name: &str) -> DirEntryInfo {
    DirEntryInfo { name: Some(name.to_string()), is_dir: true }
}

fn file(name: &str) -> DirEntryInfo {
    DirEntryInfo { name: Some(name.to_string()), is_dir: false }
}

fn home() -> Option<String> {
    Some("/home/user".to_string())
}

#[test]
fn empty_prefix_is_the_working_directory() {
    assert_eq!(resolve_base("", None), Some(".".to_string()));
    assert_eq!(resolve_base("", home()), Some(".".to_string()));
    assert_eq!(path_completion_base(""), Some(".".to_string()));
}

#[test]
fn lone_slash_is_the_root() {
    assert_eq!(resolve_base("/", None), Some("/".to_string()));
    assert_eq!(path_completion_base("/"), Some("/".to_string()));
}

#[test]
fn tilde_is_the_home_directory() {
    assert_eq!(resolve_base("~/", home()), home());
    assert_eq!(resolve_base("~", home()), home());
}

#[test]
fn tilde_without_home_has_no_base() {
    assert_eq!(resolve_base("~/", None), None);
    assert_eq!(resolve_base("~/projects/", None), None);
}

#[test]
fn tilde_slash_is_joined_to_home() {
    assert_eq!(resolve_base("~/projects/", home()), Some("/home/user/projects".to_string()));
    assert_eq!(resolve_base("~/a/b/", home()), Some("/home/user/a/b".to_string()));
    assert_eq!(
        resolve_base("~/a/", Some("/home/user/".to_string())),
        Some("/home/user/a".to_string())
    );
}

#[test]
fn other_prefixes_are_literal_paths() {
    assert_eq!(resolve_base("src/", None), Some("src".to_string()));
    assert_eq!(resolve_base("/usr/local/", home()), Some("/usr/local".to_string()));
    assert_eq!(resolve_base("../", None), Some("..".to_string()));
    assert_eq!(resolve_base("~user/", home()), Some("~user".to_string()));
    assert_eq!(path_completion_base("/usr/local/"), Some("/usr/local".to_string()));
    assert_eq!(path_completion_base("src/"), Some("src".to_string()));
}

#[test]
fn only_one_trailing_slash_is_trimmed() {
    assert_eq!(resolve_base("src//", None), Some("src/".to_string()));
    assert_eq!(resolve_base("//", None), Some("/".to_string()));
    assert_eq!(resolve_base("src", None), Some("src".to_string()));
}

#[test]
fn home_is_needed_for_tilde_prefixes_only() {
    assert!(prefix_needs_home("~/"));
    assert!(prefix_needs_home("~"));
    assert!(prefix_needs_home("~/x/"));
    assert!(!prefix_needs_home(""));
    assert!(!prefix_needs_home("/"));
    assert!(!prefix_needs_home("~x/"));
    assert!(!prefix_needs_home("a/~/"));
}

#[test]
fn completion_base_of_tilde_is_what_dirs_reports() {
    let expected = dirs::home_dir().and_then(|p| p.into_os_string().into_string().ok());
    assert_eq!(path_completion_base("~/"), expected);
    let below = path_completion_base("~/projects/");
    match expected {
        Some(home) => assert_eq!(below, Some(join_to_base(home, "projects"))),
        None => assert_eq!(below, None),
    }
}

#[test]
fn join_puts_one_slash_between() {
    assert_eq!(join_to_base("/home/user".to_string(), "a/b"), "/home/user/a/b");
    assert_eq!(join_to_base("/home/user/".to_string(), "a"), "/home/user/a");
    assert_eq!(join_to_base("/home/user".to_string(), ""), "/home/user/");
    assert_eq!(join_to_base("".to_string(), "a"), "a");
    assert_eq!(join_to_base("/home/user".to_string(), "/etc"), "/etc");
}

#[test]
fn join_agrees_with_std_paths() {
    for (base, rest) in [("/home/user", "a/b"), ("/home/user/", "a"), ("/h", "/etc"), ("/h", "")] {
        let expected = std::path::Path::new(base).join(rest);
        assert_eq!(std::path::PathBuf::from(join_to_base(base.to_string(), rest)), expected);
    }
}

#[test]
fn candidates_are_directories_that_start_with_the_segment() {
    let entries = vec![dir("target"), file("tarball"), dir("src"), dir("tar"), dir("Target")];
    assert_eq!(matching_names(&entries, "tar"), vec!["target", "tar"]);
    assert_eq!(matching_names(&entries, ""), vec!["target", "src", "tar", "Target"]);
    assert_eq!(matching_names(&entries, "x"), Vec::<String>::new());
}

#[test]
fn hidden_directories_need_a_leading_dot() {
    let entries = vec![dir(".git"), dir("gamma"), dir(".github"), dir("src")];
    assert_eq!(matching_names(&entries, ""), vec!["gamma", "src"]);
    assert_eq!(matching_names(&entries, "g"), vec!["gamma"]);
    assert_eq!(matching_names(&entries, "."), vec![".git", ".github"]);
    assert_eq!(matching_names(&entries, ".gith"), vec![".github"]);
}

#[test]
fn entries_without_a_text_name_are_skipped() {
    let entries = vec![DirEntryInfo { name: None, is_dir: true }, dir("src")];
    assert_eq!(matching_names(&entries, ""), vec!["src"]);
    assert_eq!(matching_names(&vec![], "s"), Vec::<String>::new());
}

#[test]
fn names_are_sorted_by_code_point() {
    let mut names: Vec<String> =
        ["srcfoo", "src", "b", "Zed", "a", "\u{e9}t\u{e9}", "日本"].iter().map(|s| s.to_string()).collect();
    sort_names(&mut names);
    assert_eq!(names, vec!["Zed", "a", "b", "src", "srcfoo", "\u{e9}t\u{e9}", "日本"]);
}

#[test]
fn scan_gives_sorted_candidates() {
    let entries = vec![dir("srcfoo"), dir("tmp"), file("srcfile"), dir("src"), dir(".src")];
    assert_eq!(scan_candidates(&entries, "sr"), vec!["src", "srcfoo"]);
    assert_eq!(scan_candidates(&entries, ""), vec!["src", "srcfoo", "tmp"]);
    assert_eq!(scan_candidates(&entries, ".s"), vec![".src"]);
}
