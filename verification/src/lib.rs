//! Turns the free-text help output of an external command into a structured,
//! selectable list of flags, and composes a command line from the selection.
//!
//! The crate holds the core logic only: supervising a child process with a
//! wall-clock budget (as a step function driven by a poll loop), the two-phase
//! help-text acquisition strategy, the heuristic flag-line parser, and the
//! selection model that survives a re-parse. Terminal drawing and the actual
//! process spawning are left to the surrounding program.

use vstd::prelude::*;

pub mod acquire;
pub mod extract;
pub mod flag;
pub mod model;
pub mod supervisor;

verus! {

/// Which locale the help text is requested in: the system's own, or a
/// locale-neutral override so the text is in a consistent language.
#[derive(Clone, Copy, Debug, PartialEq, Eq, Structural)]
pub enum Language {
    System,
    English,
}

/// Every failure the core can report.
#[derive(Clone, Copy, Debug, PartialEq, Eq, Structural)]
pub enum Error {
    /// A supervised process exceeded its wall-clock budget and was killed.
    Timeout,
    /// A supervised process exited with a non-success status.
    CommandFailed,
    /// Both acquisition phases (native help, then manual page) failed.
    NoHelpAvailable,
    /// Text was obtained, but no line of it matched the flag grammar.
    NoFlagsFound,
}

/// The language the other mode toggles to.
pub open spec fn spec_other_language(l: Language) -> Language {
    match l {
        Language::System => Language::English,
        Language::English => Language::System,
    }
}

} // verus!
