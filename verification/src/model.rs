use crate::base::{base_dir_of, needs_home};
use crate::completion::ghost_text_of;
use crate::keys::{shortcut_of, KeyPress, PathShortcut};
use crate::navigate::{current_segment_of, parent_prefix_of, previous_segment_start};
use crate::scan::{sorted_candidates, DirEntryInfo};
use vstd::prelude::*;

verus! {

/// The field of the dialog that holds the path.
pub const PATH_FIELD: usize = 1;

/// A pending suggestion: the text to append, and the value and cursor that
/// it was computed for.
pub struct GhostView {
    pub input_snapshot: Seq<char>,
    pub cursor_snapshot: nat,
    pub ghost_text: Seq<char>,
    pub candidates: Seq<Seq<char>>,
}

/// A directory to list, and the value and cursor that ask for it.
pub struct ScanView {
    pub base_dir: Seq<char>,
    pub input_snapshot: Seq<char>,
    pub cursor_snapshot: nat,
}

/// The dialog as the path field sees it: the value being typed, the cursor
/// as a character index, the pending suggestion, the field in focus and the
/// error indicators.
pub struct DialogView {
    pub value: Seq<char>,
    pub cursor: nat,
    pub pending: Option<GhostView>,
    pub focused_field: usize,
    pub error_message: Option<Seq<char>>,
    pub flash_until: Option<u64>,
}

impl GhostView {
    /// A suggestion is made behind the end of a value only, and is not empty.
    pub open spec fn wf(self) -> bool {
        &&& self.cursor_snapshot == self.input_snapshot.len()
        &&& self.ghost_text.len() > 0
        &&& self.candidates.len() > 0
    }
}

impl DialogView {
    /// The cursor stands within the value, and the suggestion is well formed.
    pub open spec fn wf(self) -> bool {
        &&& self.cursor <= self.value.len()
        &&& self.pending is Some ==> self.pending->0.wf()
    }

    /// The cursor, held to the length of the value.
    pub open spec fn cursor_char(self) -> nat {
        if self.cursor < self.value.len() {
            self.cursor
        } else {
            self.value.len()
        }
    }

    /// The same dialog with no suggestion pending.
    pub open spec fn without_ghost(self) -> DialogView {
        DialogView { pending: None, ..self }
    }

    /// The same dialog with no error shown.
    pub open spec fn without_errors(self) -> DialogView {
        DialogView { error_message: None, flash_until: None, ..self }
    }

    /// The same dialog with the cursor at `target`, or at the end of the
    /// value where `target` lies beyond it.
    pub open spec fn with_cursor(self, target: nat) -> DialogView {
        DialogView {
            cursor: if target < self.value.len() {
                target
            } else {
                self.value.len()
            },
            ..self
        }
    }

    /// The same dialog with another value and the cursor at `cursor`, or at
    /// the end of the value where `cursor` lies beyond it.
    pub open spec fn with_path(self, value: Seq<char>, cursor: nat) -> DialogView {
        DialogView { value, ..self }.with_cursor(cursor)
    }

    /// The text before the segment at the end of the value.
    pub open spec fn parent_prefix(self) -> Seq<char> {
        parent_prefix_of(self.value, self.value.len() as int)
    }

    /// The segment at the end of the value.
    pub open spec fn current_segment(self) -> Seq<char> {
        current_segment_of(self.value, self.value.len() as int)
    }

    /// A suggestion is looked for, and that asks for the home directory.
    pub open spec fn scan_needs_home(self) -> bool {
        self.cursor >= self.value.len() && needs_home(self.parent_prefix())
    }

    /// The directory listing that a fresh suggestion asks for, with the home
    /// directory as `home` gives it. None is asked for while the cursor
    /// stands before the end of the value, or the directory is not known.
    pub open spec fn scan_request(self, home: Option<Seq<char>>) -> Option<ScanView> {
        if self.cursor < self.value.len() {
            None
        } else {
            match base_dir_of(self.parent_prefix(), home) {
                Some(base_dir) => Some(
                    ScanView {
                        base_dir,
                        input_snapshot: self.value,
                        cursor_snapshot: self.value.len(),
                    },
                ),
                None => None,
            }
        }
    }

    /// `request` is what a fresh suggestion asks for, whatever the home
    /// directory is found to be; where it is not asked for, `request` is
    /// fixed.
    pub open spec fn is_scan_request(self, request: Option<ScanView>) -> bool {
        &&& exists|home: Option<Seq<char>>| request == #[trigger] self.scan_request(home)
        &&& !self.scan_needs_home() ==> request == self.scan_request(None)
    }

    /// The suggestion for the value as it stands, given the entries of the
    /// directory that its last segment is typed in.
    pub open spec fn ghost_for(self, entries: Seq<DirEntryInfo>) -> Option<GhostView> {
        let candidates = sorted_candidates(entries, self.current_segment());
        match ghost_text_of(candidates, self.current_segment()) {
            Some(ghost_text) => Some(
                GhostView {
                    input_snapshot: self.value,
                    cursor_snapshot: self.value.len(),
                    ghost_text,
                    candidates,
                },
            ),
            None => None,
        }
    }

    /// `request` was made for the value and cursor as they stand.
    pub open spec fn scan_is_fresh(self, request: ScanView) -> bool {
        &&& request.input_snapshot == self.value
        &&& request.cursor_snapshot == self.cursor
        &&& self.cursor >= self.value.len()
    }

    /// The dialog after the listing for `request` has come in: the
    /// suggestion for `entries`, and none where the value or the cursor has
    /// changed since the request.
    pub open spec fn complete_scan(self, request: ScanView, entries: Seq<DirEntryInfo>) -> DialogView {
        if self.scan_is_fresh(request) {
            DialogView { pending: self.ghost_for(entries), ..self }
        } else {
            self.without_ghost()
        }
    }

    /// A suggestion is pending that was made for the value and cursor as
    /// they stand.
    pub open spec fn ghost_is_fresh(self) -> bool {
        &&& self.pending is Some
        &&& self.pending->0.input_snapshot == self.value
        &&& self.pending->0.cursor_snapshot == self.cursor_char()
    }

    /// The dialog after an attempt to accept the suggestion. A fresh one is
    /// appended to the value, the cursor moves behind it and the errors are
    /// cleared. In any case no suggestion is pending afterwards.
    pub open spec fn after_accept(self) -> DialogView {
        if self.ghost_is_fresh() {
            let value = self.value + self.pending->0.ghost_text;
            DialogView {
                value,
                cursor: value.len(),
                pending: None,
                error_message: None,
                flash_until: None,
                ..self
            }
        } else {
            self.without_ghost()
        }
    }

    /// The dialog after the cursor has jumped to `target`: the errors and
    /// the suggestion are cleared.
    pub open spec fn after_jump(self, target: nat) -> DialogView {
        self.with_cursor(target).without_errors().without_ghost()
    }

    /// The shortcut that `key` triggers in this dialog, if any. Shortcuts
    /// work while the path field has the focus; accepting needs the cursor
    /// at the end of the value and a suggestion pending.
    pub open spec fn shortcut(self, key: KeyPress) -> Option<PathShortcut> {
        if self.focused_field != PATH_FIELD {
            None
        } else {
            match shortcut_of(key) {
                Some(PathShortcut::AcceptGhost) => if self.cursor >= self.value.len()
                    && self.pending is Some {
                    Some(PathShortcut::AcceptGhost)
                } else {
                    None
                },
                other => other,
            }
        }
    }

    /// The dialog after `key`.
    pub open spec fn after_key(self, key: KeyPress) -> DialogView {
        match self.shortcut(key) {
            Some(PathShortcut::AcceptGhost) => self.after_accept(),
            Some(PathShortcut::JumpToStart) => self.after_jump(0),
            Some(PathShortcut::JumpToPreviousSegment) => self.after_jump(
                previous_segment_start(self.value, self.cursor_char() as int) as nat,
            ),
            None => self,
        }
    }

    /// `key` leads to a fresh look for a suggestion.
    pub open spec fn rescans_after(self, key: KeyPress) -> bool {
        match self.shortcut(key) {
            Some(PathShortcut::AcceptGhost) => self.ghost_is_fresh(),
            Some(_) => true,
            None => false,
        }
    }
}

} // verus!
