use crossterm::event::{Event, KeyCode, KeyEvent, KeyModifiers};
use tui_input::backend::crossterm::EventHandler;
use tui_input::Input;
use vstd::prelude::*;

verus! {

/// `tui_input::Input`, a single-line editor: a text and a cursor in it. What
/// it holds is spoken of through `input_text` and `input_cursor` only.
#[verifier::external_type_specification]
#[verifier::external_body]
pub struct ExInput(tui_input::Input);

/// The text that the editor holds, as a sequence of characters: what
/// `Input::value` gives.
pub uninterp spec fn input_text(input: Input) -> Seq<char>;

/// The editor's cursor, as the number of characters of its text that
/// precede it: what `Input::cursor` gives.
pub uninterp spec fn input_cursor(input: Input) -> nat;

/// `tui_input::Input::new`: an editor over `value`, cursor behind its last
/// character.
#[verifier::external_body]
pub(crate) fn input_new(value: String) -> (input: Input)
    ensures
        input_text(input) == value@,
        input_cursor(input) == value@.len(),
{
    Input::new(value)
}

/// `tui_input::Input::value`: the text the editor holds.
#[verifier::external_body]
pub(crate) fn input_value(input: &Input) -> (value: &str)
    ensures
        value@ == input_text(*input),
{
    input.value()
}

/// `tui_input::Input::cursor`: the cursor as a character index. Every way of
/// making or changing an `Input` keeps it within the text, which the contract
/// states as well.
#[verifier::external_body]
pub(crate) fn input_cursor_index(input: &Input) -> (cursor: usize)
    ensures
        cursor == input_cursor(*input),
        cursor <= input_text(*input).len(),
{
    input.cursor()
}

/// `Input::handle_event` on an unmodified Left key press: the text stays and
/// the cursor moves one character towards the start, unless it is there.
#[verifier::external_body]
pub(crate) fn input_step_left(input: &mut Input)
    ensures
        input_text(*final(input)) == input_text(*old(input)),
        input_cursor(*final(input)) == if input_cursor(*old(input)) == 0 {
            0
        } else {
            input_cursor(*old(input)) - 1
        },
{
    input.handle_event(&Event::Key(KeyEvent::new(KeyCode::Left, KeyModifiers::NONE)));
}

/// `Input::handle_event` on an unmodified Right key press: the text stays and
/// the cursor moves one character towards the end, unless it is there.
#[verifier::external_body]
pub(crate) fn input_step_right(input: &mut Input)
    requires
        input_cursor(*old(input)) <= input_text(*old(input)).len(),
    ensures
        input_text(*final(input)) == input_text(*old(input)),
        input_cursor(*final(input)) == if input_cursor(*old(input)) == input_text(
            *old(input),
        ).len() {
            input_cursor(*old(input))
        } else {
            input_cursor(*old(input)) + 1
        },
{
    input.handle_event(&Event::Key(KeyEvent::new(KeyCode::Right, KeyModifiers::NONE)));
}

} // verus!
