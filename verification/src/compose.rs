//! The compose session: producing exactly one new, durably saved note from an
//! external editing run, without ever leaving a half-written file under a
//! final note name. The session decides every step; the caller only performs
//! the filesystem and editor work it is told to do and reports how it went.

use crate::names::{candidate_name, is_first_free, resolve_filename, taken_names};
use crate::timestamp::{derive_title, ts_chars, TimeFields};
use crate::Error;
use vstd::prelude::*;

verus! {

/// A title as characters, where one was supplied.
pub open spec fn title_view(t: Option<String>) -> Option<Seq<char>> {
    match t {
        Option::Some(s) => Option::Some(s@),
        Option::None => Option::None,
    }
}

/// The initial content of a draft: a heading line for a supplied title,
/// nothing for a timestamp title.
pub open spec fn seed_chars(title: Option<Seq<char>>) -> Seq<char> {
    match title {
        Option::Some(t) => seq!['#', ' '] + t + seq!['\n'],
        Option::None => Seq::empty(),
    }
}

/// Builds the seed content for a draft.
pub fn seed_content(title: &Option<String>) -> (r: String)
    ensures
        r@ == seed_chars(title_view(*title)),
{
    proof {
        reveal_strlit("# ");
        reveal_strlit("\n");
    }
    match title {
        Option::Some(t) => {
            let mut r = String::from_str("# ");
            r.append(t.as_str());
            r.append("\n");
            assert(r@ =~= seed_chars(title_view(*title)));
            r
        },
        Option::None => {
            let r = String::new();
            assert(r@ =~= seed_chars(title_view(*title)));
            r
        },
    }
}

/// Where a compose session stands.
#[derive(Debug, Clone, Copy, PartialEq, Eq, Structural)]
pub enum ComposePhase {
    /// The draft slot is being acquired.
    Drafting,
    /// The editor runs on the seeded draft.
    Editing,
    /// The directory is being listed to resolve the final name.
    Resolving,
    /// The draft is being renamed into place.
    Renaming,
    /// The note was finalized.
    Finished,
    /// The session failed; a draft, if one was created, is left behind.
    Failed,
}

/// What the caller must do next. Only `Finalize` ever makes a note visible
/// under a final name.
#[derive(Debug)]
pub enum ComposeAction {
    /// Create a uniquely named draft file inside the notes directory (on the
    /// same filesystem as the final destination), write this seed content to
    /// it and flush it, then report `DraftCreated` or `DraftFailed`.
    CreateDraft { seed: String },
    /// Run the external editor on the draft, blocking until it exits, then
    /// report `EditorExited`.
    RunEditor,
    /// List the filenames directly inside the notes directory, then report
    /// `Listed` or `ListFailed`.
    ListDirectory,
    /// Atomically rename the draft to this filename inside the notes
    /// directory, then report `Renamed` or `RenameFailed`.
    Finalize { filename: String },
    /// Report this result to the user; the session is over.
    Stop { result: Result<(), Error> },
}

/// What the caller reports back after performing an action.
#[derive(Debug)]
pub enum ComposeEvent {
    DraftCreated,
    DraftFailed,
    EditorExited { ok: bool },
    Listed { existing: Vec<String> },
    ListFailed,
    Renamed,
    RenameFailed,
}

/// Whether an event can answer the action a session in this phase asked for.
pub open spec fn compatible(phase: ComposePhase, event: ComposeEvent) -> bool {
    match (phase, event) {
        (ComposePhase::Drafting, ComposeEvent::DraftCreated) => true,
        (ComposePhase::Drafting, ComposeEvent::DraftFailed) => true,
        (ComposePhase::Editing, ComposeEvent::EditorExited { .. }) => true,
        (ComposePhase::Resolving, ComposeEvent::Listed { .. }) => true,
        (ComposePhase::Resolving, ComposeEvent::ListFailed) => true,
        (ComposePhase::Renaming, ComposeEvent::Renamed) => true,
        (ComposePhase::Renaming, ComposeEvent::RenameFailed) => true,
        _ => false,
    }
}

/// One compose invocation: the optional supplied title and where the session
/// stands.
#[derive(Debug)]
pub struct ComposeSession {
    pub title: Option<String>,
    pub phase: ComposePhase,
}

impl ComposeSession {
    /// Starts a compose session: the first duty is to acquire a seeded draft
    /// slot.
    pub fn start(title: Option<String>) -> (r: (ComposeSession, ComposeAction))
        ensures
            r.0.phase is Drafting,
            title_view(r.0.title) == title_view(title),
            r.1 matches ComposeAction::CreateDraft { seed } && seed@ == seed_chars(
                title_view(title),
            ),
    {
        let seed = seed_content(&title);
        (ComposeSession { title, phase: ComposePhase::Drafting }, ComposeAction::CreateDraft {
            seed,
        })
    }

    /// Advances the session by one reported event and says what to do next.
    ///
    /// A failed draft, listing or rename stops the session with `IoError`; a
    /// failed editor run stops it with `EditorFailed`, leaving the draft in
    /// place. A successful listing resolves the final filename: the supplied
    /// title verbatim, or the local end-of-editing time, carrying the first
    /// free numeric suffix — never a name the listing already holds.
    pub fn step(&mut self, event: ComposeEvent) -> (action: ComposeAction)
        requires
            compatible(old(self).phase, event),
        ensures
            title_view(final(self).title) == title_view(old(self).title),
            old(self).phase is Drafting && event is DraftCreated ==> final(self).phase is Editing
                && action is RunEditor,
            old(self).phase is Drafting && event is DraftFailed ==> final(self).phase is Failed && (
            action matches ComposeAction::Stop { result } && result == Err::<(), Error>(
                Error::IoError,
            )),
            old(self).phase is Editing ==> (event matches ComposeEvent::EditorExited { ok }
                ==> if ok {
                final(self).phase is Resolving && action is ListDirectory
            } else {
                final(self).phase is Failed && (action matches ComposeAction::Stop { result }
                    && result == Err::<(), Error>(Error::EditorFailed))
            }),
            old(self).phase is Resolving ==> (event matches ComposeEvent::Listed { existing }
                ==> final(self).phase is Renaming && (action
                matches ComposeAction::Finalize { filename } && !taken_names(existing@).contains(
                filename@,
            ) && (match title_view(old(self).title) {
                Option::Some(tc) => exists|k: nat|
                    is_first_free(existing@, tc, k) && filename@ == candidate_name(tc, k),
                Option::None => exists|f: TimeFields|
                    f.wf() && exists|k: nat|
                        is_first_free(existing@, ts_chars(f), k) && filename@ == candidate_name(
                            ts_chars(f),
                            k,
                        ),
            }))),
            old(self).phase is Resolving && event is ListFailed ==> final(self).phase is Failed && (
            action matches ComposeAction::Stop { result } && result == Err::<(), Error>(
                Error::IoError,
            )),
            old(self).phase is Renaming && event is Renamed ==> final(self).phase is Finished && (
            action matches ComposeAction::Stop { result } && result == Ok::<(), Error>(())),
            old(self).phase is Renaming && event is RenameFailed ==> final(self).phase is Failed
                && (action matches ComposeAction::Stop { result } && result == Err::<(), Error>(
                Error::IoError,
            )),
    {
        match event {
            ComposeEvent::DraftCreated => {
                self.phase = ComposePhase::Editing;
                ComposeAction::RunEditor
            },
            ComposeEvent::DraftFailed => {
                self.phase = ComposePhase::Failed;
                ComposeAction::Stop { result: Err(Error::IoError) }
            },
            ComposeEvent::EditorExited { ok } => {
                if ok {
                    self.phase = ComposePhase::Resolving;
                    ComposeAction::ListDirectory
                } else {
                    self.phase = ComposePhase::Failed;
                    ComposeAction::Stop { result: Err(Error::EditorFailed) }
                }
            },
            ComposeEvent::Listed { existing } => {
                let title = match &self.title {
                    Option::Some(t) => Option::Some(t.clone()),
                    Option::None => Option::None,
                };
                let name = derive_title(title);
                let filename = resolve_filename(&existing, name.as_str());
                self.phase = ComposePhase::Renaming;
                proof {
                    let k0 = choose|k: nat|
                        is_first_free(existing@, name@, k) && filename@ == candidate_name(
                            name@,
                            k,
                        );
                    if title_view(old(self).title) is Some {
                        let tc = title_view(old(self).title)->Some_0;
                        assert(name@ == tc);
                        assert(is_first_free(existing@, tc, k0) && filename@ == candidate_name(
                            tc,
                            k0,
                        ));
                    } else {
                        let f0 = choose|f: TimeFields| f.wf() && name@ == ts_chars(f);
                        assert(f0.wf());
                        assert(is_first_free(existing@, ts_chars(f0), k0) && filename@
                            == candidate_name(ts_chars(f0), k0));
                    }
                }
                ComposeAction::Finalize { filename }
            },
            ComposeEvent::ListFailed => {
                self.phase = ComposePhase::Failed;
                ComposeAction::Stop { result: Err(Error::IoError) }
            },
            ComposeEvent::Renamed => {
                self.phase = ComposePhase::Finished;
                ComposeAction::Stop { result: Ok(()) }
            },
            ComposeEvent::RenameFailed => {
                self.phase = ComposePhase::Failed;
                ComposeAction::Stop { result: Err(Error::IoError) }
            },
        }
    }
}

/// A failed session is over for good: no event fits the `Failed` phase, so
/// in particular no finalize — and so no file under a final note name — can
/// ever follow a failed editor run. A finished one accepts nothing more
/// either: a session finalizes at most one note.
pub proof fn lemma_failure_is_terminal(event: ComposeEvent)
    ensures
        !compatible(ComposePhase::Failed, event),
        !compatible(ComposePhase::Finished, event),
{
}

} // verus!
