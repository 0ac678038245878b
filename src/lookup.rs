//! The decisions of one lookup, as a state machine.
//!
//! A lookup opens a snapshot of the process table, fetches its first entry,
//! then fetches entry after entry until one carries the wanted executable
//! name. The caller performs each of these operations and reports how it went
//! as an [`Event`]; [`Lookup::step`] answers with the next [`Action`]. The
//! last action is always [`Action::Finish`], which says whether the snapshot
//! must be released and what the lookup returns:
//!
//! - the snapshot could not be opened: nothing to release, and
//!   [`LookupError::SnapshotCreationFailure`];
//! - the first entry could not be fetched: release, and
//!   [`LookupError::FirstEntryRetrievalFailure`];
//! - an entry carries the wanted name: release, and the identifier of that
//!   entry, the first such one in the order of the snapshot;
//! - fetching a later entry failed: this is taken as the end of the table
//!   (a failure of the operating system is not told apart from it), release,
//!   and no identifier.
use vstd::prelude::*;

use crate::name::{entry_matches, entry_name};

verus! {

/// One entry of the process table: a process identifier and the executable
/// name, as the buffer of UTF-16 code units that the operating system fills.
#[derive(Clone, Debug)]
pub struct ProcessEntry {
    pub pid: u32,
    pub exe_file: Vec<u16>,
}

/// Why a lookup failed; each carries the operating system's error code.
#[derive(Clone, Copy, Debug, PartialEq, Eq)]
pub enum LookupError {
    SnapshotCreationFailure(i32),
    FirstEntryRetrievalFailure(i32),
}

/// Where a lookup stands.
#[derive(Clone, Copy, Debug, PartialEq, Eq, Structural)]
pub enum Phase {
    /// The snapshot is being opened.
    Opening,
    /// The snapshot is open; its first entry is being fetched.
    AwaitingFirst,
    /// The snapshot is open; a later entry is being fetched.
    Scanning,
    /// The lookup has finished.
    Done,
}

/// How an operation that the caller performed went.
#[derive(Clone, Debug)]
pub enum Event {
    /// The snapshot was opened.
    Opened,
    /// The snapshot could not be opened.
    OpenFailed(i32),
    /// An entry was fetched.
    Fetched(ProcessEntry),
    /// No entry could be fetched.
    FetchFailed(i32),
}

/// What the caller does next.
#[derive(Clone, Copy, Debug, PartialEq, Eq)]
pub enum Action {
    /// Fetch the first entry of the snapshot.
    FetchFirst,
    /// Fetch the next entry of the snapshot.
    FetchNext,
    /// Release the snapshot if `release` holds, and return `result`.
    Finish { release: bool, result: Result<Option<u32>, LookupError> },
}

/// Whether a lookup in `phase` expects the outcome `ev`.
pub open spec fn phase_accepts(phase: Phase, ev: Event) -> bool {
    match phase {
        Phase::Opening => ev is Opened || ev is OpenFailed,
        Phase::AwaitingFirst | Phase::Scanning => ev is Fetched || ev is FetchFailed,
        Phase::Done => false,
    }
}

/// The next phase and the action of a lookup for `wanted` in `phase` on `ev`.
pub open spec fn step_spec(phase: Phase, wanted: Seq<char>, ev: Event) -> (Phase, Action) {
    match ev {
        Event::Opened => (Phase::AwaitingFirst, Action::FetchFirst),
        Event::OpenFailed(code) => (
            Phase::Done,
            Action::Finish {
                release: false,
                result: Err(LookupError::SnapshotCreationFailure(code)),
            },
        ),
        Event::Fetched(e) => if entry_name(e.exe_file@) == wanted {
            (Phase::Done, Action::Finish { release: true, result: Ok(Some(e.pid)) })
        } else {
            (Phase::Scanning, Action::FetchNext)
        },
        Event::FetchFailed(code) => if phase is AwaitingFirst {
            (
                Phase::Done,
                Action::Finish {
                    release: true,
                    result: Err(LookupError::FirstEntryRetrievalFailure(code)),
                },
            )
        } else {
            (Phase::Done, Action::Finish { release: true, result: Ok(None) })
        },
    }
}

/// The actions of a lookup for `wanted` that starts in `phase` and sees
/// `events`, up to the first event that it does not expect.
pub open spec fn run(phase: Phase, wanted: Seq<char>, events: Seq<Event>) -> Seq<Action>
    decreases events.len(),
{
    if events.len() == 0 || !phase_accepts(phase, events[0]) {
        Seq::empty()
    } else {
        let (next, action) = step_spec(phase, wanted, events[0]);
        seq![action] + run(next, wanted, events.drop_first())
    }
}

/// A lookup in progress: its phase and the executable name that it looks for.
pub struct Lookup {
    phase: Phase,
    wanted: String,
}

impl View for Lookup {
    type V = (Phase, Seq<char>);

    closed spec fn view(&self) -> (Phase, Seq<char>) {
        (self.phase, self.wanted@)
    }
}

impl Lookup {
    /// A lookup for the executable named `wanted`, about to open its snapshot.
    pub fn new(wanted: &str) -> (r: Lookup)
        ensures
            r@ == (Phase::Opening, wanted@),
    {
        Lookup { phase: Phase::Opening, wanted: wanted.to_string() }
    }

    /// Where the lookup stands.
    pub fn phase(&self) -> (r: Phase)
        ensures
            r == self@.0,
    {
        self.phase
    }

    /// Whether the lookup expects `ev` now.
    pub fn accepts(&self, ev: &Event) -> (r: bool)
        ensures
            r == phase_accepts(self@.0, *ev),
    {
        match self.phase {
            Phase::Opening => matches!(ev, Event::Opened | Event::OpenFailed(_)),
            Phase::AwaitingFirst | Phase::Scanning => matches!(ev, Event::Fetched(_) | Event::FetchFailed(_)),
            Phase::Done => false,
        }
    }

    /// Takes the outcome of the last action and says what to do next.
    pub fn step(&mut self, ev: Event) -> (a: Action)
        requires
            phase_accepts(old(self)@.0, ev),
        ensures
            (final(self)@.0, a) == step_spec(old(self)@.0, old(self)@.1, ev),
            final(self)@.1 == old(self)@.1,
    {
        match ev {
            Event::Opened => {
                self.phase = Phase::AwaitingFirst;
                Action::FetchFirst
            },
            Event::OpenFailed(code) => {
                self.phase = Phase::Done;
                Action::Finish {
                    release: false,
                    result: Err(LookupError::SnapshotCreationFailure(code)),
                }
            },
            Event::Fetched(e) => {
                if entry_matches(e.exe_file.as_slice(), self.wanted.as_str()) {
                    self.phase = Phase::Done;
                    Action::Finish { release: true, result: Ok(Some(e.pid)) }
                } else {
                    self.phase = Phase::Scanning;
                    Action::FetchNext
                }
            },
            Event::FetchFailed(code) => {
                let first = self.phase == Phase::AwaitingFirst;
                self.phase = Phase::Done;
                if first {
                    Action::Finish {
                        release: true,
                        result: Err(LookupError::FirstEntryRetrievalFailure(code)),
                    }
                } else {
                    Action::Finish { release: true, result: Ok(None) }
                }
            },
        }
    }
}

} // verus!
