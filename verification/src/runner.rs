//! Recipes: what a run of one is asked to do, and how its end is read.

pub mod site;
pub mod store;

use vstd::prelude::*;

verus! {

/// How a recipe ended. `Success`, `Warning` and `Error` rise in severity;
/// `Unknown` stands for an end that tells nothing.
#[derive(Debug, Clone, Copy, PartialEq, Eq, Structural)]
pub enum RecipeStatus {
    Success,
    Warning,
    Error,
    Unknown,
}

/// What became of the process that was to run a recipe.
#[derive(Debug, Clone, Copy, PartialEq, Eq, Structural)]
pub enum ProcessOutcome {
    /// It ran and left with this exit code.
    Exited { code: i32 },
    /// It ran and was ended by a signal, so that there is no exit code.
    Signaled,
    /// It could not be started.
    NotSpawned,
}

/// The status that an exit code stands for.
pub open spec fn status_of_code(code: i32) -> RecipeStatus {
    if code == 0 {
        RecipeStatus::Success
    } else if code == 1 {
        RecipeStatus::Warning
    } else if code == 2 {
        RecipeStatus::Error
    } else {
        RecipeStatus::Unknown
    }
}

/// The exit code that stands for a status.
pub open spec fn code_of_status(status: RecipeStatus) -> i32 {
    match status {
        RecipeStatus::Success => 0,
        RecipeStatus::Warning => 1,
        RecipeStatus::Error => 2,
        RecipeStatus::Unknown => 3,
    }
}

/// The status that the end of a process stands for: that of its exit code
/// where it has one, `Unknown` where a signal ended it, and `Error` where it
/// never started.
pub open spec fn status_of_outcome(outcome: ProcessOutcome) -> RecipeStatus {
    match outcome {
        ProcessOutcome::Exited { code } => status_of_code(code),
        ProcessOutcome::Signaled => RecipeStatus::Unknown,
        ProcessOutcome::NotSpawned => RecipeStatus::Error,
    }
}

impl RecipeStatus {
    /// Reads an exit code: 0, 1 and 2 are `Success`, `Warning` and `Error`,
    /// every other code is `Unknown`.
    pub fn from_status_code(code: i32) -> (status: RecipeStatus)
        ensures
            status == status_of_code(code),
    {
        match code {
            0 => RecipeStatus::Success,
            1 => RecipeStatus::Warning,
            2 => RecipeStatus::Error,
            _ => RecipeStatus::Unknown,
        }
    }

    /// The exit code of a status: 0 to 3, in the order of the variants.
    pub fn to_status_code(&self) -> (code: i32)
        ensures
            code == code_of_status(*self),
    {
        match self {
            RecipeStatus::Success => 0,
            RecipeStatus::Warning => 1,
            RecipeStatus::Error => 2,
            RecipeStatus::Unknown => 3,
        }
    }

    /// Reads the end of the process that was to run a recipe.
    pub fn from_outcome(outcome: ProcessOutcome) -> (status: RecipeStatus)
        ensures
            status == status_of_outcome(outcome),
    {
        match outcome {
            ProcessOutcome::Exited { code } => RecipeStatus::from_status_code(code),
            ProcessOutcome::Signaled => RecipeStatus::Unknown,
            ProcessOutcome::NotSpawned => RecipeStatus::Error,
        }
    }
}

/// Codes and statuses answer each other. Every status is read back from its
/// own code, and the codes 0 to 3 are given back by the status they stand
/// for. Every code but 0, 1 and 2 is read as `Unknown`, so that of the codes
/// outside 0 to 3 none comes back.
pub proof fn lemma_status_codes(code: i32, status: RecipeStatus)
    ensures
        status_of_code(code_of_status(status)) == status,
        0 <= code <= 3 ==> code_of_status(status_of_code(code)) == code,
        !(0 <= code <= 2) ==> status_of_code(code) == RecipeStatus::Unknown,
        !(0 <= code <= 3) ==> code_of_status(status_of_code(code)) != code,
        status != RecipeStatus::Unknown ==> 0 <= code_of_status(status) <= 2,
{
}

} // verus!
