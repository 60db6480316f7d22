//! What a key press asks of a prompt, and what handling it leaves to do.

use vstd::prelude::*;
use crate::error::InquireError;
use crate::input::InputAction;

verus! {

/// Whether the screen still shows the prompt's state after an action.
#[derive(Clone, Copy, Debug, PartialEq, Eq, Structural)]
pub enum ActionResult {
    /// The state shown is the state held: nothing to draw.
    Clean,
    /// The state changed: the prompt has to be drawn again.
    NeedsRedraw,
}

impl ActionResult {
    /// The result of two actions handled together: a redraw is needed if
    /// either needs one.
    pub fn merge(self, other: Self) -> (r: Self)
        ensures
            r == self.merged(other),
    {
        match (self, other) {
            (ActionResult::Clean, ActionResult::Clean) => ActionResult::Clean,
            _ => ActionResult::NeedsRedraw,
        }
    }

    /// What [`ActionResult::merge`] returns.
    pub open spec fn merged(self, other: Self) -> Self {
        if self is Clean && other is Clean {
            ActionResult::Clean
        } else {
            ActionResult::NeedsRedraw
        }
    }

    /// Whether this result asks for a redraw.
    pub fn needs_redraw(&self) -> (r: bool)
        ensures
            r == (*self is NeedsRedraw),
    {
        match self {
            ActionResult::Clean => false,
            ActionResult::NeedsRedraw => true,
        }
    }
}

/// An action on a prompt: one of the three that every prompt knows, or one
/// of the prompt's own.
pub enum Action<I> {
    /// Try to finish with the current answer.
    Submit,
    /// Ask to leave the prompt without an answer.
    Cancel,
    /// Leave the prompt at once.
    Interrupt,
    /// An action of the prompt's own kind.
    Inner(I),
}

/// What the loop that runs a prompt does after an action.
#[derive(Debug, PartialEq, Eq)]
pub enum Step<A> {
    /// Goes on: draws the prompt again if asked to, and waits for the next
    /// action.
    Continue(ActionResult),
    /// Ends with the answer.
    Answered(A),
    /// Ends without an answer, after drawing the prompt as canceled.
    Canceled,
    /// Ends without an answer and without drawing anything.
    Interrupted,
}

impl<A> Step<A> {
    /// What the prompt fails with once the loop ends on this step: a
    /// cancellation where it was canceled, an interruption where it was
    /// interrupted, and nothing where it goes on or has its answer.
    pub open spec fn ends_with(self) -> Option<InquireError> {
        match self {
            Step::Canceled => Some(InquireError::OperationCanceled),
            Step::Interrupted => Some(InquireError::OperationInterrupted),
            _ => None,
        }
    }

    /// The error that the prompt fails with once the loop ends on this step,
    /// if it ends without an answer.
    pub fn failure(&self) -> (r: Option<InquireError>)
        ensures
            r == self.ends_with(),
    {
        match self {
            Step::Canceled => Some(InquireError::OperationCanceled),
            Step::Interrupted => Some(InquireError::OperationInterrupted),
            _ => None,
        }
    }
}

/// The actions of a single-choice prompt.
pub enum SelectPromptAction {
    /// An edit of the filter text.
    FilterInput(InputAction),
    /// One row up, wrapping if the prompt is set to.
    MoveUp,
    /// One row down, wrapping if the prompt is set to.
    MoveDown,
    /// One page up, stopping at the first row.
    PageUp,
    /// One page down, stopping at the last row.
    PageDown,
    /// To the first row.
    MoveToStart,
    /// To the last row.
    MoveToEnd,
}

/// The actions of a multiple-choice prompt.
pub enum MultiSelectPromptAction {
    /// An edit of the filter text.
    FilterInput(InputAction),
    /// One row up, wrapping if the prompt is set to.
    MoveUp,
    /// One row down, wrapping if the prompt is set to.
    MoveDown,
    /// One page up, stopping at the first row.
    PageUp,
    /// One page down, stopping at the last row.
    PageDown,
    /// To the first row.
    MoveToStart,
    /// To the last row.
    MoveToEnd,
    /// Check the option under the cursor if it is unchecked, uncheck it if
    /// it is checked.
    ToggleCurrentOption,
    /// Check every option that passes the filter.
    SelectAll,
    /// Uncheck every option.
    ClearSelections,
}

impl MultiSelectPromptAction {
    /// Whether the action changes which options are checked.
    pub open spec fn changes_selection(self) -> bool {
        self is ToggleCurrentOption || self is SelectAll || self is ClearSelections
    }
}

} // verus!
