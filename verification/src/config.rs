//! What a prompt is made from, and the settings it keeps while it runs.

use vstd::prelude::*;
use crate::validator::MultiOptionValidator;

verus! {

/// Settings of a running single-choice prompt.
#[derive(Clone, Copy, Debug, PartialEq, Eq, Structural)]
pub struct SelectConfig {
    /// Number of options drawn at once. A redraw that finds the frame too
    /// tall lowers it, and nothing raises it again.
    pub page_size: usize,
    /// Whether the cursor goes back to the first row when the filter changes
    /// the scored order.
    pub reset_cursor: bool,
    /// Whether a single step past either end of the list continues from the
    /// other end.
    pub wrap_around: bool,
}

/// Settings of a running multiple-choice prompt.
#[derive(Clone, Copy, Debug, PartialEq, Eq, Structural)]
pub struct MultiSelectConfig {
    /// Number of options drawn at once. A redraw that finds the frame too
    /// tall lowers it, and nothing raises it again.
    pub page_size: usize,
    /// Whether the filter text stays when the selection changes. Where it
    /// does not, checking or unchecking options empties the filter.
    pub keep_filter: bool,
    /// Whether the cursor goes back to the first row when the filter changes
    /// the scored order.
    pub reset_cursor: bool,
    /// Whether a single step past either end of the list continues from the
    /// other end.
    pub wrap_around: bool,
}

/// What a single-choice prompt is made from.
///
/// `scorer` is called with the filter text, an option, the option's text and
/// its index, and returns the option's score or `None` to filter it out.
/// `formatter` turns the chosen option into the text shown as the answer.
pub struct Select<'a, T, S, F> {
    /// The question.
    pub message: &'a str,
    /// The options to choose from.
    pub options: Vec<T>,
    /// Help text shown below the options.
    pub help_message: Option<&'a str>,
    /// Number of options drawn at once, at least 1.
    pub page_size: usize,
    /// Whether a single step past either end of the list continues from the
    /// other end.
    pub wrap_around: bool,
    /// Row that the cursor starts on.
    pub starting_cursor: usize,
    /// Text that the filter starts with.
    pub starting_filter_input: Option<&'a str>,
    /// Whether the cursor goes back to the first row when the filter changes
    /// the scored order.
    pub reset_cursor: bool,
    /// Whether the options can be filtered by typing.
    pub filter_input_enabled: bool,
    /// Scores an option against the filter text.
    pub scorer: S,
    /// Writes the answer out.
    pub formatter: F,
}

/// Number of options drawn at once unless another is asked for.
pub const DEFAULT_PAGE_SIZE: usize = 7;

impl<'a, T, S, F> Select<'a, T, S, F> {
    /// What to make a prompt from that asks `message` and offers `options`,
    /// with the settings that prompts have unless told otherwise: a page of
    /// [`DEFAULT_PAGE_SIZE`] options, the cursor on the first, single steps
    /// that wrap, no help text, and a filter that starts empty and resets the
    /// cursor when it changes the order.
    pub fn new(message: &'a str, options: Vec<T>, scorer: S, formatter: F) -> (r: Self)
        ensures
            r == (Select {
                message,
                options,
                help_message: None,
                page_size: DEFAULT_PAGE_SIZE,
                wrap_around: true,
                starting_cursor: 0,
                starting_filter_input: None,
                reset_cursor: true,
                filter_input_enabled: true,
                scorer,
                formatter,
            }),
    {
        Select {
            message,
            options,
            help_message: None,
            page_size: DEFAULT_PAGE_SIZE,
            wrap_around: true,
            starting_cursor: 0,
            starting_filter_input: None,
            reset_cursor: true,
            filter_input_enabled: true,
            scorer,
            formatter,
        }
    }
}

/// What a multiple-choice prompt is made from.
///
/// `scorer` is called with the filter text, an option, the option's text and
/// its index, and returns the option's score or `None` to filter it out.
/// `formatter` turns the chosen options into the text shown as the answer.
#[verifier::reject_recursive_types(T)]
pub struct MultiSelect<'a, T, S, F> {
    /// The question.
    pub message: &'a str,
    /// The options to choose from.
    pub options: Vec<T>,
    /// Indices of the options that start out checked.
    pub default: Option<Vec<usize>>,
    /// Help text shown below the options.
    pub help_message: Option<&'a str>,
    /// Number of options drawn at once, at least 1.
    pub page_size: usize,
    /// Whether a single step past either end of the list continues from the
    /// other end.
    pub wrap_around: bool,
    /// Row that the cursor starts on.
    pub starting_cursor: usize,
    /// Text that the filter starts with.
    pub starting_filter_input: Option<&'a str>,
    /// Whether the cursor goes back to the first row when the filter changes
    /// the scored order.
    pub reset_cursor: bool,
    /// Whether the options can be filtered by typing.
    pub filter_input_enabled: bool,
    /// Whether the filter text stays when the selection changes.
    pub keep_filter: bool,
    /// Scores an option against the filter text.
    pub scorer: S,
    /// Writes the answer out.
    pub formatter: F,
    /// Check that the checked options have to pass on submit.
    pub validator: Option<Box<dyn MultiOptionValidator<T>>>,
}

impl<'a, T, S, F> MultiSelect<'a, T, S, F> {
    /// What to make a prompt from that asks `message` and offers `options`,
    /// with the settings that prompts have unless told otherwise: a page of
    /// [`DEFAULT_PAGE_SIZE`] options, the cursor on the first, single steps
    /// that wrap, nothing checked, no help text, no validator, and a filter
    /// that starts empty, resets the cursor when it changes the order and
    /// stays when the selection changes.
    pub fn new(message: &'a str, options: Vec<T>, scorer: S, formatter: F) -> (r: Self)
        ensures
            r == (MultiSelect {
                message,
                options,
                default: None,
                help_message: None,
                page_size: DEFAULT_PAGE_SIZE,
                wrap_around: true,
                starting_cursor: 0,
                starting_filter_input: None,
                reset_cursor: true,
                filter_input_enabled: true,
                keep_filter: true,
                scorer,
                formatter,
                validator: None,
            }),
    {
        MultiSelect {
            message,
            options,
            default: None,
            help_message: None,
            page_size: DEFAULT_PAGE_SIZE,
            wrap_around: true,
            starting_cursor: 0,
            starting_filter_input: None,
            reset_cursor: true,
            filter_input_enabled: true,
            keep_filter: true,
            scorer,
            formatter,
            validator: None,
        }
    }
}

} // verus!
