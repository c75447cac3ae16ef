//! Note lifecycle management for a personal memo directory: crash-safe,
//! collision-free creation of a new note around an external editing session,
//! and selection — interactive or random — of an existing note to reopen.
//!
//! Every decision lives here and is verified: what a draft is seeded with,
//! which filename a title finalizes under, what a timestamp title says and
//! how it reads back, how the picker's cursor moves, and when a session
//! stops with which error. The caller performs the filesystem, editor and
//! terminal work it is told to do, and reports back how it went.

use vstd::prelude::*;

pub mod compose;
pub mod names;
pub mod numeral;
pub mod selector;
pub mod timestamp;

verus! {

/// The ways a note operation can fail.
#[derive(Debug, Clone, Copy, PartialEq, Eq, Structural)]
pub enum Error {
    /// A directory or file read, write or rename failed.
    IoError,
    /// The external editor could not be launched or exited abnormally.
    EditorFailed,
    /// The selector was invoked against an empty notes directory.
    NoNotesFound,
}

} // verus!
