use path_input::dialog::NewSessionDialog;
use path_input::keys::{KeyPress, PathKey, PathModifiers};
use path_input::model::PATH_FIELD;
use path_input::scan::DirEntryInfo;

fn dir(name: &str) -> DirEntryInfo {
    DirEntryInfo { name: Some(name.to_string()), is_dir: true }
}

fn plain(code: PathKey) -> KeyPress {
    KeyPress { code, modifiers: PathModifiers::none() }
}

fn ctrl(code: PathKey) -> KeyPress {
    KeyPress { code, modifiers: PathModifiers { control: true, ..PathModifiers::none() } }
}

fn alt(code: PathKey) -> KeyPress {
    KeyPress { code, modifiers: PathModifiers { alt: true, ..PathModifiers::none() } }
}

/// A dialog in which `value` was typed, cursor at its end.
fn typed(value: &str) -> NewSessionDialog {
    let mut dialog = NewSessionDialog::new();
    dialog.set_path_value_with_cursor(value.to_string(), value.chars().count());
    dialog
}

/// Recomputes the suggestion as if the directory asked for held `entries`;
/// returns the directory asked for.
fn suggest(dialog: &mut NewSessionDialog, entries: &[&str]) -> Option<String> {
    let request = dialog.recompute_path_ghost()?;
    let listing: Vec<DirEntryInfo> = entries.iter().map(|name| dir(name)).collect();
    dialog.complete_path_scan(&request, &listing);
    Some(request.base_dir)
}

#[test]
fn new_dialog_is_empty_and_focused_on_the_path() {
    let dialog = NewSessionDialog::new();
    assert_eq!(dialog.path_value(), "");
    assert_eq!(dialog.path_cursor(), 0);
    assert_eq!(dialog.focused_field(), PATH_FIELD);
    assert_eq!(dialog.ghost_text(), None);
    assert!(dialog.ghost_candidates().is_empty());
    assert!(!dialog.is_path_invalid_flash_active());
    assert!(!dialog.has_error_message());
}

#[test]
fn setting_the_value_places_the_cursor() {
    let mut dialog = NewSessionDialog::new();
    dialog.set_path_value_with_cursor("/tmp/日本".to_string(), 5);
    assert_eq!(dialog.path_value(), "/tmp/日本");
    assert_eq!(dialog.path_cursor(), 5);
    dialog.set_path_value_with_cursor("abc".to_string(), 99);
    assert_eq!(dialog.path_cursor(), 3);
    dialog.set_path_value_with_cursor("abc".to_string(), 0);
    assert_eq!(dialog.path_cursor(), 0);
}

#[test]
fn cursor_moves_left_and_right_to_the_target() {
    let mut dialog = typed("/tmp/日本/x");
    assert_eq!(dialog.path_cursor(), 9);
    dialog.move_path_cursor_to(2);
    assert_eq!(dialog.path_cursor(), 2);
    dialog.move_path_cursor_to(7);
    assert_eq!(dialog.path_cursor(), 7);
    dialog.move_path_cursor_to(7);
    assert_eq!(dialog.path_cursor(), 7);
    dialog.move_path_cursor_to(100);
    assert_eq!(dialog.path_cursor(), 9);
    dialog.move_path_cursor_to(0);
    assert_eq!(dialog.path_cursor(), 0);
    assert_eq!(dialog.path_value(), "/tmp/日本/x");
}

#[test]
fn recompute_asks_for_the_parent_directory() {
    let mut dialog = typed("tar");
    let request = dialog.recompute_path_ghost().unwrap();
    assert_eq!(request.base_dir, ".");
    assert_eq!(request.input_snapshot, "tar");
    assert_eq!(request.cursor_snapshot, 3);

    let mut dialog = typed("/usr/lo");
    assert_eq!(dialog.recompute_path_ghost().unwrap().base_dir, "/usr");
    let mut dialog = typed("/et");
    assert_eq!(dialog.recompute_path_ghost().unwrap().base_dir, "/");
    let mut dialog = typed("a/b/");
    assert_eq!(dialog.recompute_path_ghost().unwrap().base_dir, "a/b");
}

#[test]
fn recompute_in_mid_value_asks_for_nothing() {
    let mut dialog = typed("/usr/lo");
    assert_eq!(suggest(&mut dialog, &["local"]), Some("/usr".to_string()));
    assert_eq!(dialog.ghost_text(), Some("cal/"));
    dialog.move_path_cursor_to(3);
    assert!(dialog.recompute_path_ghost().is_none());
    assert_eq!(dialog.ghost_text(), None);
}

#[test]
fn single_candidate_is_suggested_and_accepted() {
    let mut dialog = typed("tar");
    suggest(&mut dialog, &["src", "target"]);
    assert_eq!(dialog.ghost_text(), Some("get/"));
    assert_eq!(dialog.ghost_candidates(), vec!["target"]);
    let outcome = dialog.accept_path_ghost();
    assert!(outcome.accepted);
    assert_eq!(dialog.path_value(), "target/");
    assert_eq!(dialog.path_cursor(), 7);
    assert_eq!(dialog.ghost_text(), None);
    assert_eq!(outcome.scan.unwrap().base_dir, "target");
}

#[test]
fn ambiguous_candidates_extend_without_a_slash() {
    let mut dialog = typed("sr");
    suggest(&mut dialog, &["srcfoo", "src", "tmp"]);
    assert_eq!(dialog.ghost_text(), Some("c"));
    assert_eq!(dialog.ghost_candidates(), vec!["src", "srcfoo"]);
    assert!(dialog.accept_path_ghost().accepted);
    assert_eq!(dialog.path_value(), "src");
    suggest(&mut dialog, &["srcfoo", "src", "tmp"]);
    assert_eq!(dialog.ghost_text(), Some("/"));
}

#[test]
fn hidden_directories_are_suggested_after_a_dot() {
    let mut dialog = typed("");
    suggest(&mut dialog, &[".git"]);
    assert_eq!(dialog.ghost_text(), None);
    let mut dialog = typed("g");
    suggest(&mut dialog, &[".git"]);
    assert_eq!(dialog.ghost_text(), None);
    let mut dialog = typed(".");
    suggest(&mut dialog, &[".git"]);
    assert_eq!(dialog.ghost_text(), Some("git/"));
}

#[test]
fn stale_ghost_is_rejected_and_value_kept() {
    let mut dialog = typed("tar");
    suggest(&mut dialog, &["target"]);
    assert_eq!(dialog.ghost_text(), Some("get/"));
    // a keystroke reaches the editor, and nothing recomputes the suggestion
    dialog.set_path_value_with_cursor("tarx".to_string(), 4);
    let outcome = dialog.accept_path_ghost();
    assert!(!outcome.accepted);
    assert!(outcome.scan.is_none());
    assert_eq!(dialog.path_value(), "tarx");
    assert_eq!(dialog.path_cursor(), 4);
    assert_eq!(dialog.ghost_text(), None);
}

#[test]
fn ghost_is_stale_after_a_cursor_move() {
    let mut dialog = typed("tar");
    suggest(&mut dialog, &["target"]);
    dialog.move_path_cursor_to(1);
    assert!(!dialog.accept_path_ghost().accepted);
    assert_eq!(dialog.path_value(), "tar");
    assert_eq!(dialog.path_cursor(), 1);
}

#[test]
fn accept_without_ghost_fails() {
    let mut dialog = typed("tar");
    let outcome = dialog.accept_path_ghost();
    assert!(!outcome.accepted);
    assert_eq!(dialog.path_value(), "tar");
}

#[test]
fn listing_for_an_older_value_is_dropped() {
    let mut dialog = typed("tar");
    let request = dialog.recompute_path_ghost().unwrap();
    dialog.set_path_value_with_cursor("tab".to_string(), 3);
    dialog.complete_path_scan(&request, &vec![dir("target")]);
    assert_eq!(dialog.ghost_text(), None);
    assert_eq!(dialog.path_value(), "tab");
}

#[test]
fn accepting_chains_into_an_empty_directory() {
    let mut dialog = typed("/tmp/pro");
    assert_eq!(suggest(&mut dialog, &["project"]), Some("/tmp".to_string()));
    assert_eq!(dialog.ghost_text(), Some("ject/"));
    let outcome = dialog.accept_path_ghost();
    assert!(outcome.accepted);
    assert_eq!(dialog.path_value(), "/tmp/project/");
    let request = outcome.scan.unwrap();
    assert_eq!(request.base_dir, "/tmp/project");
    dialog.complete_path_scan(&request, &vec![]);
    assert_eq!(dialog.ghost_text(), None);
    assert!(!dialog.accept_path_ghost().accepted);
    assert_eq!(dialog.path_value(), "/tmp/project/");
}

#[test]
fn accepting_chains_into_the_next_segment() {
    let mut dialog = typed("/tmp/pro");
    suggest(&mut dialog, &["project"]);
    let outcome = dialog.accept_path_ghost();
    let request = outcome.scan.unwrap();
    dialog.complete_path_scan(&request, &vec![dir("src"), dir("docs")]);
    assert_eq!(dialog.ghost_text(), Some("docs/"));
    assert!(dialog.accept_path_ghost().accepted);
    assert_eq!(dialog.path_value(), "/tmp/project/docs/");
}

#[test]
fn accepting_clears_the_errors() {
    let mut dialog = typed("tar");
    dialog.set_error_message(Some("no such directory".to_string()));
    dialog.set_path_invalid_flash_until(Some(1234));
    assert!(dialog.is_path_invalid_flash_active());
    assert!(dialog.has_error_message());
    suggest(&mut dialog, &["target"]);
    assert!(dialog.is_path_invalid_flash_active());
    assert!(dialog.accept_path_ghost().accepted);
    assert!(!dialog.is_path_invalid_flash_active());
    assert!(!dialog.has_error_message());
}

#[test]
fn rejected_accept_keeps_the_errors() {
    let mut dialog = typed("tar");
    suggest(&mut dialog, &["target"]);
    dialog.set_path_invalid_flash_until(Some(7));
    dialog.set_path_value_with_cursor("ta".to_string(), 2);
    assert!(!dialog.accept_path_ghost().accepted);
    assert!(dialog.is_path_invalid_flash_active());
}

#[test]
fn clear_drops_the_ghost() {
    let mut dialog = typed("tar");
    suggest(&mut dialog, &["target"]);
    dialog.clear_path_ghost();
    assert_eq!(dialog.ghost_text(), None);
    assert!(dialog.ghost_candidates().is_empty());
    assert_eq!(dialog.path_value(), "tar");
}

#[test]
fn right_and_end_accept_the_ghost() {
    for code in [PathKey::Right, PathKey::End] {
        let mut dialog = typed("tar");
        suggest(&mut dialog, &["target"]);
        let outcome = dialog.handle_path_shortcuts(plain(code));
        assert!(outcome.handled);
        assert_eq!(dialog.path_value(), "target/");
        assert_eq!(outcome.scan.unwrap().base_dir, "target");
    }
}

#[test]
fn right_without_ghost_is_left_to_the_editor() {
    let mut dialog = typed("tar");
    let outcome = dialog.handle_path_shortcuts(plain(PathKey::Right));
    assert!(!outcome.handled);
    assert!(outcome.scan.is_none());
    assert_eq!(dialog.path_value(), "tar");
}

#[test]
fn right_before_the_end_is_left_to_the_editor() {
    let mut dialog = typed("tar");
    suggest(&mut dialog, &["target"]);
    dialog.move_path_cursor_to(1);
    let outcome = dialog.handle_path_shortcuts(plain(PathKey::Right));
    assert!(!outcome.handled);
    assert_eq!(dialog.path_cursor(), 1);
    assert_eq!(dialog.ghost_text(), Some("get/"));
}

#[test]
fn right_with_a_stale_ghost_is_handled_but_changes_nothing() {
    let mut dialog = typed("tar");
    suggest(&mut dialog, &["target"]);
    dialog.set_path_value_with_cursor("tag".to_string(), 3);
    let outcome = dialog.handle_path_shortcuts(plain(PathKey::Right));
    assert!(outcome.handled);
    assert!(outcome.scan.is_none());
    assert_eq!(dialog.path_value(), "tag");
    assert_eq!(dialog.ghost_text(), None);
}

#[test]
fn home_and_ctrl_a_move_to_index_zero() {
    for key in [plain(PathKey::Home), ctrl(PathKey::Char('a'))] {
        let mut dialog = typed("/données/日本語/😀x");
        dialog.set_path_invalid_flash_until(Some(1));
        let outcome = dialog.handle_path_shortcuts(key);
        assert!(outcome.handled);
        assert!(outcome.scan.is_none());
        assert_eq!(dialog.path_cursor(), 0);
        assert_eq!(dialog.path_value(), "/données/日本語/😀x");
        assert!(!dialog.is_path_invalid_flash_active());
        assert_eq!(dialog.ghost_text(), None);
    }
}

#[test]
fn home_from_mid_value_moves_to_index_zero() {
    let mut dialog = typed("日本語/テスト");
    dialog.move_path_cursor_to(5);
    assert!(dialog.handle_path_shortcuts(plain(PathKey::Home)).handled);
    assert_eq!(dialog.path_cursor(), 0);
}

#[test]
fn home_on_an_empty_value_asks_for_the_working_directory() {
    let mut dialog = NewSessionDialog::new();
    let outcome = dialog.handle_path_shortcuts(plain(PathKey::Home));
    assert!(outcome.handled);
    assert_eq!(outcome.scan.unwrap().base_dir, ".");
}

#[test]
fn ctrl_left_walks_back_over_segments() {
    let mut dialog = typed("/a/bb");
    assert!(dialog.handle_path_shortcuts(ctrl(PathKey::Left)).handled);
    assert_eq!(dialog.path_cursor(), 3);
    assert!(dialog.handle_path_shortcuts(ctrl(PathKey::Left)).handled);
    assert_eq!(dialog.path_cursor(), 1);
    assert!(dialog.handle_path_shortcuts(ctrl(PathKey::Left)).handled);
    assert_eq!(dialog.path_cursor(), 0);
    assert!(dialog.handle_path_shortcuts(ctrl(PathKey::Left)).handled);
    assert_eq!(dialog.path_cursor(), 0);
}

#[test]
fn alt_b_walks_back_over_wide_characters() {
    let mut dialog = typed("/日本/語語語");
    assert!(dialog.handle_path_shortcuts(alt(PathKey::Char('b'))).handled);
    assert_eq!(dialog.path_cursor(), 4);
    dialog.move_path_cursor_to_previous_segment();
    assert_eq!(dialog.path_cursor(), 1);
    dialog.move_path_cursor_to_previous_segment();
    assert_eq!(dialog.path_cursor(), 0);
}

#[test]
fn shortcuts_need_the_focus_on_the_path() {
    let mut dialog = typed("/a/bb");
    suggest(&mut dialog, &["bbq"]);
    dialog.set_focused_field(PATH_FIELD + 1);
    for key in [plain(PathKey::Right), plain(PathKey::Home), ctrl(PathKey::Left)] {
        let outcome = dialog.handle_path_shortcuts(key);
        assert!(!outcome.handled);
        assert!(outcome.scan.is_none());
    }
    assert_eq!(dialog.path_cursor(), 5);
    assert_eq!(dialog.path_value(), "/a/bb");
    assert_eq!(dialog.ghost_text(), Some("q/"));
}

#[test]
fn other_keys_are_not_handled() {
    let mut dialog = typed("/a/bb");
    for key in [plain(PathKey::Left), plain(PathKey::Char('a')), plain(PathKey::Other), ctrl(PathKey::Right)] {
        assert!(!dialog.handle_path_shortcuts(key).handled);
    }
    assert_eq!(dialog.path_cursor(), 5);
}

#[test]
fn tilde_prefix_asks_for_a_directory_under_home() {
    let mut dialog = typed("~/pro");
    let request = dialog.recompute_path_ghost();
    let home = dirs::home_dir().and_then(|p| p.into_os_string().into_string().ok());
    assert_eq!(request.map(|r| r.base_dir), home);
}
