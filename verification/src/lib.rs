//! Selection-prompt engine: the state machine behind single-choice and
//! multiple-choice list prompts, over an abstract rendering surface.
//!
//! A prompt holds a list of options, a cursor and, where it filters, the
//! filter text typed so far. Each change of the filter text has a scorer
//! score the options anew; the options that have a score make the scored
//! order, best match first. Actions move the cursor over the scored order,
//! check and uncheck options, and end the prompt. Before it is shown the
//! prompt is drawn off screen and measured, and drawn again with fewer
//! options for as long as it is taller than the terminal.
//!
//! The prompts do no input or output of their own. They draw through the
//! traits of [`backend`], and take the actions that the caller reads and
//! hands to `step`.

pub mod action;
pub mod backend;
pub mod checked;
pub mod config;
pub mod cursor;
pub mod error;
pub mod input;
pub mod list_option;
pub mod multiselect;
pub mod paginate;
pub mod scoring;
pub mod select;
pub mod sizing;
pub mod validator;

pub use action::{Action, ActionResult, MultiSelectPromptAction, SelectPromptAction, Step};
pub use config::{MultiSelect, MultiSelectConfig, Select, SelectConfig};
pub use error::{InquireError, InquireResult};
pub use input::{Input, InputAction, InputActionResult};
pub use list_option::ListOption;
pub use multiselect::MultiSelectPrompt;
pub use paginate::{paginate, Page};
pub use select::SelectPrompt;
pub use validator::{CustomUserError, ErrorMessage, MultiOptionValidator, Validation};
