use path_input::completion::compute_ghost_text;
use path_input::keys::{classify_key, KeyPress, PathKey, PathModifiers, PathShortcut};
use path_input::navigate::{find_previous_segment_start, find_segment_start};

fn strings(values: &[&str]) -> Vec<String> {
    values.iter().map(|v| v.to_string()).collect()
}

fn plain(code: PathKey) -> KeyPress {
    KeyPress { code, modifiers: PathModifiers::none() }
}

fn ctrl(code: PathKey) -> KeyPress {
    KeyPress { code, modifiers: PathModifiers { control: true, ..PathModifiers::none() } }
}

fn alt(code: PathKey) -> KeyPress {
    KeyPress { code, modifiers: PathModifiers { alt: true, ..PathModifiers::none() } }
}

#[test]
fn single_match_is_completed_with_a_slash() {
    assert_eq!(compute_ghost_text(&strings(&["target"]), "tar"), Some("get/".to_string()));
}

#[test]
fn several_matches_are_extended_to_their_common_prefix() {
    assert_eq!(compute_ghost_text(&strings(&["src", "srcfoo"]), "sr"), Some("c".to_string()));
}

#[test]
fn no_extension_falls_back_to_the_first_match() {
    assert_eq!(compute_ghost_text(&strings(&["src", "srcfoo"]), "src"), Some("/".to_string()));
    assert_eq!(compute_ghost_text(&strings(&["alpha", "beta"]), ""), Some("alpha/".to_string()));
}

#[test]
fn no_match_gives_no_ghost() {
    assert_eq!(compute_ghost_text(&[], "tar"), None);
    assert_eq!(compute_ghost_text(&[], ""), None);
}

#[test]
fn fully_typed_single_match_offers_the_slash() {
    assert_eq!(compute_ghost_text(&strings(&["target"]), "target"), Some("/".to_string()));
}

#[test]
fn ghost_text_keeps_whole_characters() {
    assert_eq!(compute_ghost_text(&strings(&["日本語"]), "日"), Some("本語/".to_string()));
    assert_eq!(
        compute_ghost_text(&strings(&["caf\u{e9}s", "caf\u{e9}t"]), "c"),
        Some("af\u{e9}".to_string())
    );
}

#[test]
fn segment_starts_behind_the_last_slash() {
    let chars: Vec<char> = "/usr/lo".chars().collect();
    assert_eq!(find_segment_start(&chars, 7), 5);
    assert_eq!(find_segment_start(&chars, 5), 5);
    assert_eq!(find_segment_start(&chars, 4), 1);
    assert_eq!(find_segment_start(&chars, 0), 0);
    let bare: Vec<char> = "src".chars().collect();
    assert_eq!(find_segment_start(&bare, 3), 0);
}

#[test]
fn previous_segment_walks_back_segment_by_segment() {
    let chars: Vec<char> = "/a/bb".chars().collect();
    assert_eq!(find_previous_segment_start(&chars, 5), 3);
    assert_eq!(find_previous_segment_start(&chars, 3), 1);
    assert_eq!(find_previous_segment_start(&chars, 1), 0);
    assert_eq!(find_previous_segment_start(&chars, 0), 0);
}

#[test]
fn previous_segment_skips_runs_of_slashes() {
    let chars: Vec<char> = "ab//cd///".chars().collect();
    assert_eq!(find_previous_segment_start(&chars, 9), 4);
    assert_eq!(find_previous_segment_start(&chars, 4), 0);
    assert_eq!(find_previous_segment_start(&chars, 5), 4);
}

#[test]
fn right_and_end_accept_only_without_modifiers() {
    assert_eq!(classify_key(plain(PathKey::Right)), Some(PathShortcut::AcceptGhost));
    assert_eq!(classify_key(plain(PathKey::End)), Some(PathShortcut::AcceptGhost));
    assert_eq!(classify_key(ctrl(PathKey::Right)), None);
    assert_eq!(classify_key(alt(PathKey::End)), None);
}

#[test]
fn home_and_ctrl_a_jump_to_start() {
    assert_eq!(classify_key(plain(PathKey::Home)), Some(PathShortcut::JumpToStart));
    assert_eq!(classify_key(ctrl(PathKey::Home)), Some(PathShortcut::JumpToStart));
    assert_eq!(classify_key(ctrl(PathKey::Char('a'))), Some(PathShortcut::JumpToStart));
    assert_eq!(classify_key(plain(PathKey::Char('a'))), None);
    assert_eq!(classify_key(alt(PathKey::Char('a'))), None);
}

#[test]
fn ctrl_left_and_alt_b_jump_to_previous_segment() {
    assert_eq!(classify_key(ctrl(PathKey::Left)), Some(PathShortcut::JumpToPreviousSegment));
    assert_eq!(classify_key(alt(PathKey::Char('b'))), Some(PathShortcut::JumpToPreviousSegment));
    assert_eq!(classify_key(plain(PathKey::Left)), None);
    assert_eq!(classify_key(ctrl(PathKey::Char('b'))), None);
    assert_eq!(classify_key(alt(PathKey::Left)), None);
}

#[test]
fn other_keys_are_no_shortcuts() {
    assert_eq!(classify_key(plain(PathKey::Other)), None);
    assert_eq!(classify_key(ctrl(PathKey::Other)), None);
    assert_eq!(classify_key(plain(PathKey::Char('x'))), None);
    assert!(PathModifiers::none().is_empty());
    assert!(!PathModifiers { meta: true, ..PathModifiers::none() }.is_empty());
}
