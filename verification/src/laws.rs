use crate::base::base_dir_of;
use crate::completion::{ghost_text_of, lemma_ghost_text_iff_matches};
use crate::keys::{KeyPress, PathKey, PathShortcut};
use crate::model::{DialogView, ScanView, PATH_FIELD};
use crate::navigate::{lemma_previous_segment_start, previous_segment_start, segment_start};
use crate::scan::{
    candidates_of, lemma_sorted_names_same_members, sorted_candidates, DirEntryInfo,
};
use vstd::prelude::*;

verus! {

/// A suggestion that was made for another value, or for another cursor, is
/// not applied: accepting fails, the value and the cursor stay, and the
/// suggestion is gone.
pub proof fn lemma_stale_ghost_is_rejected(state: DialogView)
    requires
        !state.ghost_is_fresh(),
    ensures
        state.after_accept() == state.without_ghost(),
        state.after_accept().value == state.value,
        state.after_accept().cursor == state.cursor,
        state.after_accept().pending is None,
{
}

/// A suggestion does not survive an edit. After it was computed, any change
/// of the value makes it stale: accepting then fails and leaves the changed
/// value as it is.
pub proof fn lemma_edit_makes_ghost_stale(
    state: DialogView,
    request: ScanView,
    entries: Seq<DirEntryInfo>,
    value: Seq<char>,
    cursor: nat,
)
    requires
        value != state.value,
    ensures
        !state.complete_scan(request, entries).with_path(value, cursor).ghost_is_fresh(),
        state.complete_scan(request, entries).with_path(value, cursor).after_accept().value
            == value,
        state.complete_scan(request, entries).with_path(value, cursor).after_accept().pending
            is None,
{
}

/// A suggestion does not survive a move of the cursor either: with the
/// cursor before the end of the value, accepting fails.
pub proof fn lemma_cursor_move_makes_ghost_stale(
    state: DialogView,
    request: ScanView,
    entries: Seq<DirEntryInfo>,
    target: nat,
)
    requires
        target < state.value.len(),
    ensures
        !state.complete_scan(request, entries).with_cursor(target).ghost_is_fresh(),
        state.complete_scan(request, entries).with_cursor(target).after_accept().value
            == state.value,
{
}

/// A suggestion that was just computed is fresh: accepting it appends its
/// text to the value and puts the cursor behind it.
pub proof fn lemma_fresh_ghost_is_accepted(
    state: DialogView,
    request: ScanView,
    entries: Seq<DirEntryInfo>,
)
    requires
        state.cursor <= state.value.len(),
        state.complete_scan(request, entries).pending is Some,
    ensures
        state.complete_scan(request, entries).ghost_is_fresh(),
        state.complete_scan(request, entries).after_accept().value == state.value
            + state.complete_scan(request, entries).pending->0.ghost_text,
        state.complete_scan(request, entries).after_accept().cursor
            == state.complete_scan(request, entries).after_accept().value.len(),
{
}

/// Accepting chains. After a suggestion that ends in a slash was accepted,
/// the cursor stands at the end of the value behind an empty segment, so a
/// fresh suggestion is looked for; and where the directory listed for it
/// holds no candidate, the outcome is simply that none is pending.
pub proof fn lemma_accept_chains(
    state: DialogView,
    home: Option<Seq<char>>,
    request: ScanView,
    entries: Seq<DirEntryInfo>,
)
    requires
        state.ghost_is_fresh(),
        state.pending->0.ghost_text.len() > 0,
        state.pending->0.ghost_text.last() == '/',
    ensures
        state.after_accept().value == state.value + state.pending->0.ghost_text,
        state.after_accept().cursor == state.after_accept().value.len(),
        state.after_accept().pending is None,
        state.after_accept().current_segment() == Seq::<char>::empty(),
        state.after_accept().scan_request(home) is Some <==> base_dir_of(
            state.after_accept().value,
            home,
        ) is Some,
        candidates_of(entries, Seq::empty()).len() == 0 ==> state.after_accept().complete_scan(
            request,
            entries,
        ).pending is None,
{
    let next = state.after_accept();
    let len = next.value.len() as int;
    assert(next.value[len - 1] == '/');
    assert(segment_start(next.value, len) == len);
    assert(next.current_segment() =~= Seq::<char>::empty());
    assert(next.parent_prefix() =~= next.value);
    if candidates_of(entries, Seq::empty()).len() == 0 {
        lemma_sorted_names_same_members(candidates_of(entries, Seq::empty()));
        lemma_ghost_text_iff_matches(
            sorted_candidates(entries, Seq::empty()),
            Seq::empty(),
        );
    }
}

/// Home, and `a` with Control held, put the cursor at character index 0
/// whatever the value holds, as long as the path field has the focus. The
/// value stays, and the errors and the suggestion are cleared.
pub proof fn lemma_jump_to_start(state: DialogView, key: KeyPress)
    requires
        state.focused_field == PATH_FIELD,
        key.code is Home || (key.code == PathKey::Char('a') && key.modifiers.control),
    ensures
        state.shortcut(key) == Some(PathShortcut::JumpToStart),
        state.rescans_after(key),
        state.after_key(key).cursor == 0,
        state.after_key(key).value == state.value,
        state.after_key(key).pending is None,
        state.after_key(key).error_message is None,
        state.after_key(key).flash_until is None,
{
}

/// Left with Control held, and `b` with Alt held, put the cursor at the
/// start of the previous segment: at the start of the value or behind a
/// slash, and before where it stood unless it stood at the start.
pub proof fn lemma_jump_to_previous_segment(state: DialogView, key: KeyPress)
    requires
        state.focused_field == PATH_FIELD,
        (key.code is Left && key.modifiers.control) || (key.code == PathKey::Char('b')
            && key.modifiers.alt),
    ensures
        state.shortcut(key) == Some(PathShortcut::JumpToPreviousSegment),
        state.after_key(key).value == state.value,
        state.after_key(key).cursor == previous_segment_start(
            state.value,
            state.cursor_char() as int,
        ),
        state.after_key(key).cursor <= state.cursor_char(),
        state.cursor_char() > 0 ==> state.after_key(key).cursor < state.cursor_char(),
        state.after_key(key).cursor == 0 || state.value[state.after_key(key).cursor - 1] == '/',
{
    lemma_previous_segment_start(state.value, state.cursor_char() as int);
}

/// Without the focus on the path field no key is a shortcut, and nothing
/// changes.
pub proof fn lemma_no_shortcut_without_focus(state: DialogView, key: KeyPress)
    requires
        state.focused_field != PATH_FIELD,
    ensures
        state.shortcut(key) is None,
        state.after_key(key) == state,
        !state.rescans_after(key),
{
}

/// Right and End are left to the editor unless a suggestion is pending and
/// the cursor stands at the end of the value.
pub proof fn lemma_accept_keys_need_ghost_at_end(state: DialogView, key: KeyPress)
    requires
        key.code is Right || key.code is End,
        state.pending is None || state.cursor < state.value.len(),
    ensures
        state.shortcut(key) is None,
        state.after_key(key) == state,
{
}

/// The dialog stays well formed through every step.
pub proof fn lemma_steps_keep_well_formed(
    state: DialogView,
    key: KeyPress,
    request: ScanView,
    entries: Seq<DirEntryInfo>,
    value: Seq<char>,
    cursor: nat,
)
    requires
        state.wf(),
    ensures
        state.without_ghost().wf(),
        state.with_cursor(cursor).wf(),
        state.with_path(value, cursor).wf(),
        state.complete_scan(request, entries).wf(),
        state.after_accept().wf(),
        state.after_key(key).wf(),
{
    let segment = state.current_segment();
    lemma_ghost_text_iff_matches(sorted_candidates(entries, segment), segment);
    lemma_previous_segment_start(state.value, state.cursor_char() as int);
}

/// A suggestion is pending after a listing exactly when the listing was
/// asked for by the value and cursor as they stand and holds a candidate
/// for the segment being typed.
pub proof fn lemma_ghost_pending_iff_candidates(
    state: DialogView,
    request: ScanView,
    entries: Seq<DirEntryInfo>,
)
    ensures
        state.complete_scan(request, entries).pending is Some <==> state.scan_is_fresh(request)
            && candidates_of(entries, state.current_segment()).len() > 0,
        state.complete_scan(request, entries).pending is Some ==> state.complete_scan(
            request,
            entries,
        ).pending->0.ghost_text == ghost_text_of(
            sorted_candidates(entries, state.current_segment()),
            state.current_segment(),
        )->0,
{
    let segment = state.current_segment();
    lemma_sorted_names_same_members(candidates_of(entries, segment));
    lemma_ghost_text_iff_matches(sorted_candidates(entries, segment), segment);
}

} // verus!
