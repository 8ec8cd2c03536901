//! Exit codes: how an answer of the library is told to the caller of a
//! command.

use crate::deploy::DeployError;
use crate::runner::{code_of_status, RecipeStatus};
use vstd::prelude::*;

verus! {

/// The exit code of a deployment that could not run its recipe.
pub const DEPLOY_FAILURE: i32 = 16;

/// An answer that has an exit code: 0 where it is a yes, 1 where it is a no.
pub trait ToStatusCode {
    /// Whether the answer is a yes.
    spec fn is_yes(&self) -> bool;

    fn to_status_code(&self) -> (code: i32)
        ensures
            code == if self.is_yes() {
                0i32
            } else {
                1i32
            },
    ;
}

impl ToStatusCode for bool {
    open spec fn is_yes(&self) -> bool {
        *self
    }

    fn to_status_code(&self) -> (code: i32) {
        if *self {
            0
        } else {
            1
        }
    }
}

impl<T> ToStatusCode for Option<T> {
    open spec fn is_yes(&self) -> bool {
        self is Some
    }

    fn to_status_code(&self) -> (code: i32) {
        self.is_some().to_status_code()
    }
}

impl<T, E> ToStatusCode for Result<T, E> {
    open spec fn is_yes(&self) -> bool {
        self is Ok
    }

    fn to_status_code(&self) -> (code: i32) {
        self.is_ok().to_status_code()
    }
}

/// The exit code of a deployment: that of the status of its recipe, or 16
/// where no recipe was run.
pub fn deploy_exit_code(result: &Result<RecipeStatus, DeployError>) -> (code: i32)
    ensures
        code == match *result {
            Ok(status) => code_of_status(status),
            Err(_) => DEPLOY_FAILURE,
        },
{
    match result {
        Ok(status) => status.to_status_code(),
        Err(_) => DEPLOY_FAILURE,
    }
}

} // verus!
