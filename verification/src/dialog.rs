use crate::base::{base_dir_of, path_completion_base, text_of};
use crate::completion::compute_ghost_text;
use crate::editor::{
    input_cursor, input_cursor_index, input_new, input_step_left, input_step_right, input_text,
    input_value,
};
use crate::keys::{classify_key, KeyPress, PathShortcut};
use crate::model::{DialogView, GhostView, ScanView, PATH_FIELD};
use crate::navigate::{find_previous_segment_start, find_segment_start, previous_segment_start};
use crate::prefix::texts;
use crate::scan::{
    candidates_of, is_candidate, lemma_candidates_start_with_segment,
    lemma_sorted_names_same_members, scan_candidates, sorted_candidates, DirEntryInfo,
};
use crate::text::{chars_of, split_at_char};
use tui_input::Input;
use vstd::prelude::*;
use vstd::string::*;

verus! {

/// A pending suggestion for the path field.
pub struct PathGhostCompletion {
    input_snapshot: String,
    cursor_snapshot: usize,
    ghost_text: String,
    candidates: Vec<String>,
}

impl View for PathGhostCompletion {
    type V = GhostView;

    closed spec fn view(&self) -> GhostView {
        GhostView {
            input_snapshot: self.input_snapshot@,
            cursor_snapshot: self.cursor_snapshot as nat,
            ghost_text: self.ghost_text@,
            candidates: texts(self.candidates@),
        }
    }
}

impl PathGhostCompletion {
    #[verifier::type_invariant]
    spec fn well_formed(self) -> bool {
        self@.wf()
    }
}

/// A directory to list on behalf of the path field, with the value and the
/// cursor that ask for it.
pub struct ScanRequest {
    pub base_dir: String,
    pub input_snapshot: String,
    pub cursor_snapshot: usize,
}

impl View for ScanRequest {
    type V = ScanView;

    open spec fn view(&self) -> ScanView {
        ScanView {
            base_dir: self.base_dir@,
            input_snapshot: self.input_snapshot@,
            cursor_snapshot: self.cursor_snapshot as nat,
        }
    }
}

/// The model of a request that may be absent.
pub open spec fn scan_view(request: Option<ScanRequest>) -> Option<ScanView> {
    match request {
        Some(r) => Some(r@),
        None => None,
    }
}

/// What became of a key press: whether the path field handled it, and the
/// directory to list next where it asks for one.
pub struct Handled {
    pub handled: bool,
    pub scan: Option<ScanRequest>,
}

/// What became of accepting the suggestion: whether it was applied, and the
/// directory to list next where that asks for one.
pub struct Accepted {
    pub accepted: bool,
    pub scan: Option<ScanRequest>,
}

/// The state of the dialog that the path field works on.
pub struct NewSessionDialog {
    path: Input,
    path_ghost: Option<PathGhostCompletion>,
    focused_field: usize,
    error_message: Option<String>,
    path_invalid_flash_until: Option<u64>,
}

/// The model of a suggestion that may be absent.
pub closed spec fn pending_view(pending: Option<PathGhostCompletion>) -> Option<GhostView> {
    match pending {
        Some(g) => Some(g@),
        None => None,
    }
}

impl View for NewSessionDialog {
    type V = DialogView;

    closed spec fn view(&self) -> DialogView {
        DialogView {
            value: input_text(self.path),
            cursor: input_cursor(self.path),
            pending: pending_view(self.path_ghost),
            focused_field: self.focused_field,
            error_message: text_of(self.error_message),
            flash_until: self.path_invalid_flash_until,
        }
    }
}

impl NewSessionDialog {
    /// A dialog with an empty path, the focus on the path field, no
    /// suggestion and no error.
    pub fn new() -> (dialog: NewSessionDialog)
        ensures
            dialog@ == (DialogView {
                value: Seq::empty(),
                cursor: 0,
                pending: None,
                focused_field: PATH_FIELD,
                error_message: None,
                flash_until: None,
            }),
            dialog@.wf(),
    {
        NewSessionDialog {
            path: input_new(String::new()),
            path_ghost: None,
            focused_field: PATH_FIELD,
            error_message: None,
            path_invalid_flash_until: None,
        }
    }

    /// Moves the focus to `field`.
    pub fn set_focused_field(&mut self, field: usize)
        ensures
            final(self)@ == (DialogView { focused_field: field, ..old(self)@ }),
    {
        self.focused_field = field;
    }

    /// The field in focus.
    pub fn focused_field(&self) -> (field: usize)
        ensures
            field == self@.focused_field,
    {
        self.focused_field
    }

    /// Shows `message` as the dialog's error, or none.
    pub fn set_error_message(&mut self, message: Option<String>)
        ensures
            final(self)@ == (DialogView { error_message: text_of(message), ..old(self)@ }),
    {
        self.error_message = message;
    }

    /// Whether the dialog shows an error message.
    pub fn has_error_message(&self) -> (shown: bool)
        ensures
            shown == self@.error_message is Some,
    {
        self.error_message.is_some()
    }

    /// Marks the path as invalid until `deadline`, or not at all.
    pub fn set_path_invalid_flash_until(&mut self, deadline: Option<u64>)
        ensures
            final(self)@ == (DialogView { flash_until: deadline, ..old(self)@ }),
    {
        self.path_invalid_flash_until = deadline;
    }

    /// Whether the path is marked as invalid.
    pub fn is_path_invalid_flash_active(&self) -> (active: bool)
        ensures
            active == self@.flash_until is Some,
    {
        self.path_invalid_flash_until.is_some()
    }

    /// The value of the path field.
    pub fn path_value(&self) -> (value: String)
        ensures
            value@ == self@.value,
    {
        input_value(&self.path).to_owned()
    }

    /// The cursor of the path field, as a character index.
    pub fn path_cursor(&self) -> (cursor: usize)
        ensures
            cursor == self@.cursor,
            cursor <= self@.value.len(),
    {
        input_cursor_index(&self.path)
    }

    /// The text of the pending suggestion, if there is one.
    pub fn ghost_text(&self) -> (text: Option<&str>)
        ensures
            match text {
                Some(t) => self@.pending is Some && t@ == self@.pending->0.ghost_text && t@.len()
                    > 0,
                None => self@.pending is None,
            },
    {
        match &self.path_ghost {
            Some(g) => {
                proof {
                    use_type_invariant(g);
                }
                Some(g.ghost_text.as_str())
            },
            None => None,
        }
    }

    /// The names that the pending suggestion was chosen among, sorted; none
    /// without a suggestion.
    pub fn ghost_candidates(&self) -> (names: Vec<String>)
        ensures
            match self@.pending {
                Some(g) => texts(names@) == g.candidates,
                None => names@.len() == 0,
            },
    {
        match &self.path_ghost {
            Some(g) => {
                let mut names: Vec<String> = Vec::new();
                for i in 0..g.candidates.len()
                    invariant
                        texts(names@) == texts(g.candidates@).take(i as int),
                {
                    let ghost before = texts(names@);
                    names.push(g.candidates[i].clone());
                    assert(texts(names@) =~= before.push(g.candidates@[i as int]@));
                    assert(texts(names@) =~= texts(g.candidates@).take(i + 1));
                }
                assert(texts(g.candidates@).take(g.candidates@.len() as int) =~= texts(
                    g.candidates@,
                ));
                names
            },
            None => Vec::new(),
        }
    }

    /// Drops the pending suggestion.
    pub fn clear_path_ghost(&mut self)
        ensures
            final(self)@ == old(self)@.without_ghost(),
    {
        self.path_ghost = None;
    }

    /// Moves the cursor to the character index `target_char_idx`, or to the
    /// end of the value where that lies beyond it, one character at a time.
    pub fn move_path_cursor_to(&mut self, target_char_idx: usize)
        ensures
            final(self)@ == old(self)@.with_cursor(target_char_idx as nat),
            final(self)@.wf(),
    {
        proof {
            match &self.path_ghost {
                Some(g) => {
                    use_type_invariant(g);
                },
                None => {},
            }
        }
        let char_len = input_value(&self.path).unicode_len();
        let cursor = input_cursor_index(&self.path);
        let target = if target_char_idx < char_len {
            target_char_idx
        } else {
            char_len
        };
        let current = if cursor < char_len {
            cursor
        } else {
            char_len
        };
        let ghost before = self@;
        if target < current {
            let mut remaining = current - target;
            while remaining > 0
                invariant
                    self@ == (DialogView { cursor: (target + remaining) as nat, ..before }),
                decreases remaining,
            {
                input_step_left(&mut self.path);
                remaining = remaining - 1;
            }
        } else if target > current {
            let mut remaining = target - current;
            while remaining > 0
                invariant
                    remaining <= target <= before.value.len(),
                    self@ == (DialogView { cursor: (target - remaining) as nat, ..before }),
                decreases remaining,
            {
                input_step_right(&mut self.path);
                remaining = remaining - 1;
            }
        }
    }

    /// Moves the cursor to the start of the path segment before it: back
    /// over the slashes directly before the cursor, then over the name
    /// before those.
    pub fn move_path_cursor_to_previous_segment(&mut self)
        ensures
            final(self)@ == old(self)@.with_cursor(
                previous_segment_start(old(self)@.value, old(self)@.cursor_char() as int) as nat,
            ),
            final(self)@.wf(),
    {
        proof {
            match &self.path_ghost {
                Some(g) => {
                    use_type_invariant(g);
                },
                None => {},
            }
        }
        let chars = chars_of(input_value(&self.path));
        let raw = input_cursor_index(&self.path);
        let cursor = if raw < chars.len() {
            raw
        } else {
            chars.len()
        };
        if cursor == 0 {
            return;
        }
        let target = find_previous_segment_start(chars.as_slice(), cursor);
        self.move_path_cursor_to(target);
    }

    /// Replaces the value of the path field and puts the cursor at the
    /// character index `cursor_char_idx`, or at the end of the value where
    /// that lies beyond it.
    pub fn set_path_value_with_cursor(&mut self, value: String, cursor_char_idx: usize)
        ensures
            final(self)@ == old(self)@.with_path(value@, cursor_char_idx as nat),
            final(self)@.wf(),
    {
        proof {
            match &self.path_ghost {
                Some(g) => {
                    use_type_invariant(g);
                },
                None => {},
            }
        }
        self.path = input_new(value);
        let total_chars = input_value(&self.path).unicode_len();
        let target = if cursor_char_idx < total_chars {
            cursor_char_idx
        } else {
            total_chars
        };
        let ghost before = self@;
        let mut left_steps = total_chars - target;
        while left_steps > 0
            invariant
                self@ == (DialogView { cursor: (target + left_steps) as nat, ..before }),
            decreases left_steps,
        {
            input_step_left(&mut self.path);
            left_steps = left_steps - 1;
        }
    }

    /// Starts afresh on the suggestion: the pending one is dropped, and for
    /// a cursor at the end of the value the directory to list is returned.
    /// The listing goes to `complete_path_scan`.
    pub fn recompute_path_ghost(&mut self) -> (request: Option<ScanRequest>)
        ensures
            final(self)@ == old(self)@.without_ghost(),
            final(self)@.is_scan_request(scan_view(request)),
            final(self)@.wf(),
    {
        self.path_ghost = None;
        let value = input_value(&self.path).to_owned();
        let chars = chars_of(value.as_str());
        let char_len = chars.len();
        let raw = input_cursor_index(&self.path);
        let cursor_char = if raw < char_len {
            raw
        } else {
            char_len
        };
        if cursor_char < char_len {
            assert(self@.scan_request(None) is None);
            return None;
        }
        let segment_start = find_segment_start(chars.as_slice(), cursor_char);
        let parts = split_at_char(value.as_str(), segment_start);
        let base = path_completion_base(parts.0);
        let ghost prefix = parts.0@;
        assert(prefix == self@.parent_prefix());
        let request = match base {
            Some(base_dir) => Some(
                ScanRequest { base_dir, input_snapshot: value, cursor_snapshot: cursor_char },
            ),
            None => None,
        };
        proof {
            let home = choose|home: Option<Seq<char>>|
                text_of(base) == #[trigger] base_dir_of(prefix, home);
            assert(scan_view(request) == self@.scan_request(home));
        }
        request
    }

    /// Takes in the listing of the directory that `request` asked for. Where
    /// the value and the cursor still are what they were at the request, the
    /// suggestion for `entries` becomes the pending one; otherwise none is
    /// pending.
    pub fn complete_path_scan(&mut self, request: &ScanRequest, entries: &Vec<DirEntryInfo>)
        ensures
            final(self)@ == old(self)@.complete_scan(request@, entries@),
            final(self)@.wf(),
    {
        self.path_ghost = None;
        let value = input_value(&self.path).to_owned();
        let chars = chars_of(value.as_str());
        let char_len = chars.len();
        let cursor = input_cursor_index(&self.path);
        if cursor < char_len || request.cursor_snapshot != cursor || !(request.input_snapshot
            == value) {
            return;
        }
        let segment_start = find_segment_start(chars.as_slice(), char_len);
        let parts = split_at_char(value.as_str(), segment_start);
        let candidates = scan_candidates(entries, parts.1);
        proof {
            let segment = parts.1@;
            assert(segment =~= self@.current_segment());
            let found = candidates_of(entries@, segment);
            lemma_candidates_start_with_segment(entries@, segment);
            lemma_sorted_names_same_members(found);
            assert forall|i: int| 0 <= i < texts(candidates@).len() implies segment.is_prefix_of(
                #[trigger] texts(candidates@)[i],
            ) by {
                let name = texts(candidates@)[i];
                assert(sorted_candidates(entries@, segment).contains(name));
                assert(found.contains(name));
                let k = choose|k: int| 0 <= k < found.len() && found[k] == name;
                assert(is_candidate(found[k], segment));
            }
        }
        let suggestion = compute_ghost_text(candidates.as_slice(), parts.1);
        match suggestion {
            Some(ghost_text) => {
                self.path_ghost = Some(
                    PathGhostCompletion {
                        input_snapshot: value,
                        cursor_snapshot: cursor,
                        ghost_text,
                        candidates,
                    },
                );
            },
            None => {},
        }
    }

    /// Accepts the pending suggestion. Where it was made for the value and
    /// the cursor as they stand, it is appended to the value, the cursor
    /// moves behind it, the errors are cleared and a fresh suggestion is
    /// started on. Otherwise nothing but the pending suggestion changes,
    /// which is dropped in any case.
    pub fn accept_path_ghost(&mut self) -> (outcome: Accepted)
        ensures
            outcome.accepted == old(self)@.ghost_is_fresh(),
            final(self)@ == old(self)@.after_accept(),
            outcome.accepted ==> final(self)@.is_scan_request(scan_view(outcome.scan)),
            !outcome.accepted ==> outcome.scan is None,
            final(self)@.wf(),
    {
        let pending = self.path_ghost.take();
        let value = input_value(&self.path).to_owned();
        let char_len = value.as_str().unicode_len();
        let raw = input_cursor_index(&self.path);
        let cursor_char = if raw < char_len {
            raw
        } else {
            char_len
        };
        let suggestion = match pending {
            Some(g) => g,
            None => {
                return Accepted { accepted: false, scan: None };
            },
        };
        if !(suggestion.input_snapshot == value) || suggestion.cursor_snapshot != cursor_char {
            return Accepted { accepted: false, scan: None };
        }
        let mut new_value = value;
        new_value.append(suggestion.ghost_text.as_str());
        let new_cursor = new_value.as_str().unicode_len();
        self.set_path_value_with_cursor(new_value, new_cursor);
        self.error_message = None;
        self.path_invalid_flash_until = None;
        let scan = self.recompute_path_ghost();
        Accepted { accepted: true, scan }
    }

    /// Handles `key` where it is a shortcut of the path field, which works
    /// while that field has the focus. Right and End accept the pending
    /// suggestion while the cursor stands at the end of the value. Home and
    /// Ctrl+A move the cursor to the start, Ctrl+Left and Alt+B to the start
    /// of the previous segment; both clear the errors and start afresh on
    /// the suggestion. Any other key is left to the editor.
    pub fn handle_path_shortcuts(&mut self, key: KeyPress) -> (outcome: Handled)
        ensures
            outcome.handled == old(self)@.shortcut(key) is Some,
            final(self)@ == old(self)@.after_key(key),
            old(self)@.rescans_after(key) ==> final(self)@.is_scan_request(scan_view(outcome.scan)),
            !old(self)@.rescans_after(key) ==> outcome.scan is None,
            final(self)@.wf(),
    {
        proof {
            match &self.path_ghost {
                Some(g) => {
                    use_type_invariant(g);
                },
                None => {},
            }
        }
        let cursor = input_cursor_index(&self.path);
        if self.focused_field != PATH_FIELD {
            return Handled { handled: false, scan: None };
        }
        match classify_key(key) {
            Some(PathShortcut::AcceptGhost) => {
                let char_len = input_value(&self.path).unicode_len();
                if cursor >= char_len && self.path_ghost.is_some() {
                    let accepted = self.accept_path_ghost();
                    Handled { handled: true, scan: accepted.scan }
                } else {
                    Handled { handled: false, scan: None }
                }
            },
            Some(PathShortcut::JumpToStart) => {
                self.move_path_cursor_to(0);
                self.error_message = None;
                self.path_invalid_flash_until = None;
                let scan = self.recompute_path_ghost();
                Handled { handled: true, scan }
            },
            Some(PathShortcut::JumpToPreviousSegment) => {
                self.move_path_cursor_to_previous_segment();
                self.error_message = None;
                self.path_invalid_flash_until = None;
                let scan = self.recompute_path_ghost();
                Handled { handled: true, scan }
            },
            None => Handled { handled: false, scan: None },
        }
    }
}

} // verus!
