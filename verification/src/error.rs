//! The two diagnostic classes: fatal conditions that must stop the whole run,
//! and the single warning-only condition (a file-sourced white-list entry that
//! collides with the black list, reported as a record index and name pair).

use vstd::prelude::*;
use crate::variable::EnvironmentVariable;

verus! {

/// Which configuration file a diagnostic speaks of.
#[derive(Clone, Copy, Debug, PartialEq, Eq, Structural)]
pub enum FileKind {
    Black,
    White,
    Settings,
}

/// A condition on which the whole run must stop before any environment is
/// handed to process replacement. All record indices and byte offsets are
/// zero-based.
#[derive(Debug)]
pub enum FatalError {
    /// A configuration-file record contains an ASCII NUL byte.
    NulInRecord { kind: FileKind, record: usize, column: usize },
    /// A non-empty settings-file record has no tab byte separating a name
    /// from its value.
    NoTabInSettingsRecord { record: usize },
    /// A default white-list name is also a default black-list name: a
    /// developer misconfiguration, caught at construction time.
    DefaultWhiteListedNameIsBlackListed { name: EnvironmentVariable },
    /// No program-to-invoke argument was supplied.
    NoProgramName,
    /// The program-to-invoke argument is empty.
    EmptyProgramName,
    /// The program-to-invoke argument contains a path-separator byte: it must
    /// be a bare executable name, not a path.
    ProgramNameIsAPath,
}

} // verus!
