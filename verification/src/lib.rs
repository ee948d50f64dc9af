//! Core of a mutation-testing engine.
//!
//! The engine enumerates small candidate edits ("mutations") over a subject
//! codebase, applies each one to an isolated copy of the tree, runs the
//! project's check/build/test pipeline against the copy, and classifies the
//! result: a mutant whose tests fail was *caught*; one whose tests still pass
//! was *missed* and reveals a gap in test coverage.
//!
//! This crate holds the decision logic: site scanning and mutation
//! generation, byte-span edit application, the phase state machine, outcome
//! classification, result ordering, and the plain-text rendering of every
//! message. Subprocess execution, filesystem copies and terminal styling are
//! left to a thin unverified shell around this crate.

use vstd::prelude::*;
use vstd::string::StringExecFns;

pub mod console;
pub mod lab;
pub mod mutate;
pub mod outcome;

verus! {

/// Options controlling a run, as far as the core consults them.
pub struct Options {
    /// Run the cheap Check phase before Build.
    pub check: bool,
    /// Run the Test phase after Build; switched off for a build-only survey.
    pub test: bool,
    /// Show elapsed times in terminal output.
    pub show_times: bool,
    /// Print output for mutants that were caught (normally suppressed).
    pub print_caught: bool,
    /// Print output for mutants that failed to build (normally suppressed).
    pub print_unviable: bool,
    /// Print captured logs for every scenario, not only interesting ones.
    pub show_all_logs: bool,
}

/// Process exit code for a run in which the baseline was clean and no mutant
/// was missed.
pub const EXIT_SUCCESS: i32 = 0;

/// Process exit code when at least one mutant was missed by the test suite.
pub const EXIT_MUTANTS_MISSED: i32 = 2;

/// Process exit code when the unmutated baseline failed to check, build or
/// test, so no mutants were evaluated.
pub const EXIT_BASELINE_FAILED: i32 = 4;

/// An error raised while driving a run.
///
/// Scan and isolation errors are per-item and recoverable: the run degrades
/// gracefully and reports them as warnings. A missing toolchain or a broken
/// baseline makes every further result meaningless, so those abort the run.
pub enum RunError {
    /// A source file could not be parsed; its sites are skipped.
    Scan { file: String },
    /// An isolated tree copy could not be prepared for one scenario.
    Isolation { path: String },
    /// The external build-and-test command could not be launched at all.
    Toolchain { command: String },
    /// The unmutated tree did not pass the pipeline.
    BaselineBroken,
}

impl RunError {
    /// The diagnostic line for this error.
    pub open spec fn spec_message(self) -> Seq<char> {
        match self {
            RunError::Scan { file } => "failed to parse "@ + file@ + "; its sites are skipped"@,
            RunError::Isolation { path } => "failed to prepare an isolated tree at "@ + path@,
            RunError::Toolchain { command } => "failed to launch "@ + command@,
            RunError::BaselineBroken => "baseline failed; mutant results would be meaningless"@,
        }
    }

    /// Render the diagnostic line for this error.
    pub fn message(&self) -> (r: String)
        ensures
            r@ == self.spec_message(),
    {
        match self {
            RunError::Scan { file } => {
                let mut s = String::from_str("failed to parse ");
                s.append(file.as_str());
                s.append("; its sites are skipped");
                s
            },
            RunError::Isolation { path } => {
                let mut s = String::from_str("failed to prepare an isolated tree at ");
                s.append(path.as_str());
                s
            },
            RunError::Toolchain { command } => {
                let mut s = String::from_str("failed to launch ");
                s.append(command.as_str());
                s
            },
            RunError::BaselineBroken => String::from_str(
                "baseline failed; mutant results would be meaningless",
            ),
        }
    }

    /// Whether this error aborts the whole run rather than one item.
    pub fn is_fatal(&self) -> (r: bool)
        ensures
            r == (self is Toolchain || self is BaselineBroken),
    {
        match self {
            RunError::Toolchain { .. } => true,
            RunError::BaselineBroken => true,
            _ => false,
        }
    }
}

} // verus!
