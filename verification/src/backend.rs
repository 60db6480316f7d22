//! The rendering surface that the prompts draw on.
//!
//! A frame is opened, drawn into piece by piece, measured, and then either
//! shown or thrown away. Nothing of a frame that is thrown away may reach the
//! screen, however often that happens. Each call may fail; a prompt hands the
//! failure on as it is and stops.

use vstd::prelude::*;
use std::collections::BTreeSet;
use crate::error::InquireResult;
use crate::input::Input;
use crate::list_option::ListOption;
use crate::paginate::Page;
use crate::validator::ErrorMessage;

verus! {

/// What every prompt asks of the surface.
pub trait CommonBackend {
    /// Opens a frame.
    fn frame_setup(&mut self) -> InquireResult<()>;

    /// Shows the open frame. `is_last_frame` tells that the prompt is over,
    /// so that what follows starts on a line of its own.
    fn frame_finish(&mut self, is_last_frame: bool) -> InquireResult<()>;

    /// Throws the open frame away without showing any of it.
    fn frame_abort(&mut self) -> InquireResult<()>;

    /// Rows that showing the open frame would take, if known.
    fn current_flush_height(&self) -> Option<u16>;

    /// Rows of the terminal, if known.
    fn current_terminal_height(&self) -> Option<u16>;

    /// Draws the message shown for an answer that was turned down.
    fn render_error_message(&mut self, error: &ErrorMessage) -> InquireResult<()>;

    /// Draws the help text.
    fn render_help_message(&mut self, help: &str) -> InquireResult<()>;

    /// Draws the prompt as it stands once it was canceled.
    fn render_canceled_prompt(&mut self, prompt: &str) -> InquireResult<()>;

    /// Draws the prompt as it stands once it was answered.
    fn render_prompt_with_answer(&mut self, prompt: &str, answer: &str) -> InquireResult<()>;
}

/// What a single-choice prompt asks of the surface.
pub trait SelectBackend: CommonBackend {
    /// Draws the prompt's message and, where there is one, the filter.
    fn render_select_prompt(&mut self, prompt: &str, cur_input: Option<&Input>) -> InquireResult<
        (),
    >;

    /// Draws a page of options, each given by its text and index.
    fn render_options(&mut self, page: Page<'_, ListOption<&str>>) -> InquireResult<()>;
}

/// What a multiple-choice prompt asks of the surface.
pub trait MultiSelectBackend: CommonBackend {
    /// Draws the prompt's message and, where there is one, the filter.
    fn render_multiselect_prompt(
        &mut self,
        prompt: &str,
        cur_input: Option<&Input>,
    ) -> InquireResult<()>;

    /// Draws a page of options, each given by its text and index, and marks
    /// those whose index is in `checked`.
    fn render_options(
        &mut self,
        page: Page<'_, ListOption<&str>>,
        checked: &BTreeSet<usize>,
    ) -> InquireResult<()>;
}

} // verus!
