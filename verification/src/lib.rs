//! Ghost-text completion for a single-line field in which a directory path
//! is typed.
//!
//! On every edit the field asks which directory to list (`base`), picks the
//! directories in it that continue the segment being typed (`scan`), and
//! turns them into one suggested continuation (`completion`, on top of
//! `prefix`). The suggestion is drawn behind the cursor and accepted with one
//! key (`keys`); it carries the value and cursor it was made for, and is
//! dropped unapplied when they have changed since. `dialog` holds the state
//! and its steps, `model` says over plain sequences what each step does, and
//! `laws` proves what holds of the steps together. Listing a directory is
//! left to the caller: a step that needs a listing returns a request, and
//! the listing is handed back with it.

pub mod base;
pub mod completion;
pub mod dialog;
pub mod editor;
pub mod keys;
pub mod laws;
pub mod model;
pub mod navigate;
pub mod prefix;
pub mod scan;
pub mod text;
