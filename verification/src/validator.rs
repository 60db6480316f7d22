//! Checks that the user of a prompt puts on its answer.

use vstd::prelude::*;
use crate::list_option::ListOption;

verus! {

/// The message shown for an answer that was turned down.
#[derive(Debug, PartialEq, Eq)]
pub enum ErrorMessage {
    /// The message that the rendering surface has for such answers.
    Default,
    /// A message of the validator's own.
    Custom(String),
}

/// The verdict of a validator on an answer.
#[derive(Debug, PartialEq, Eq)]
pub enum Validation {
    /// The answer stands.
    Valid,
    /// The answer is turned down, for the reason given.
    Invalid(ErrorMessage),
}

/// The failure of a validator to reach a verdict, in the validator's words.
pub type CustomUserError = String;

/// A check on the checked options of a multiple-choice prompt, run when the
/// user submits. It is handed the checked options in ascending order of
/// their indices.
pub trait MultiOptionValidator<T> {
    /// The verdict on `input`, or the reason why there is none.
    fn validate(&self, input: &[ListOption<&T>]) -> Result<Validation, CustomUserError>;
}

} // verus!
