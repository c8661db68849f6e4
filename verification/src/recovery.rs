//! What to do when a file cannot be opened.
//!
//! The policy is the same for every file: a file that is missing is created,
//! and every other failure ends the program.

use vstd::prelude::*;

verus! {

/// How an attempt to open a file ended.
#[derive(Debug, Clone, Copy, PartialEq, Eq, Structural)]
pub enum Opening {
    /// The file is there, and is open.
    Opened,
    /// There is no such file.
    NotFound,
    /// The attempt failed for another reason.
    Failed,
}

/// What to do next.
#[derive(Debug, Clone, Copy, PartialEq, Eq, Structural)]
pub enum Step {
    /// Go on with the file that is open.
    Proceed,
    /// Create the file, and report how that went to `after_create`.
    Create,
    /// End the program with a diagnostic.
    GiveUp,
}

/// The step that follows an attempt to open a file.
pub fn after_open(opening: Opening) -> (step: Step)
    ensures
        step == match opening {
            Opening::Opened => Step::Proceed,
            Opening::NotFound => Step::Create,
            Opening::Failed => Step::GiveUp,
        },
{
    match opening {
        Opening::Opened => Step::Proceed,
        Opening::NotFound => Step::Create,
        Opening::Failed => Step::GiveUp,
    }
}

/// The step that follows an attempt to create the missing file. There is no
/// second attempt.
pub fn after_create(created: bool) -> (step: Step)
    ensures
        step == if created {
            Step::Proceed
        } else {
            Step::GiveUp
        },
        step != Step::Create,
{
    if created {
        Step::Proceed
    } else {
        Step::GiveUp
    }
}

} // verus!
