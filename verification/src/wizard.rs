//! Kinds of the single-step text wizards that the palette and the commands open.
use vstd::prelude::*;

verus! {

/// What a one-field wizard collects; completing it calls the matching action.
#[derive(Clone, Copy, Debug, PartialEq, Eq, Structural)]
pub enum WizardKind {
    /// Name of a new course.
    CreateCourse,
    /// New name of the current course.
    RenameCourse,
    /// New title of the current session.
    RenameSession,
    /// Path of an exported session file to load.
    LoadFile,
    /// Spending limit.
    BudgetLimit,
}

} // verus!
