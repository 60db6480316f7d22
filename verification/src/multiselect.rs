//! The multiple-choice prompt.

use vstd::prelude::*;
use core::fmt::Display;
use std::collections::BTreeSet;
use crate::action::{Action, ActionResult, MultiSelectPromptAction, Step};
use crate::backend::MultiSelectBackend;
use crate::checked::{ascending, ascending_list};
use crate::config::{MultiSelect, MultiSelectConfig};
use crate::cursor::{cursor_down, cursor_in_bounds, cursor_up, down_target, up_target};
use crate::error::{
    cursor_out_of_bounds_text,
    empty_options_text,
    index_out_of_bounds_text,
    InquireError,
    InquireResult,
};
use crate::input::{filter_text, starting_filter, Input, InputAction, InputActionResult};
use crate::list_option::{unborrowed, ListOption};
use crate::paginate::paginate;
use crate::scoring::{
    all_indices,
    display_texts,
    displays,
    identity_order,
    is_order_of,
    is_ranking,
    rank,
    reconcile_cursor,
    reconciled_cursor,
    lemma_ranking_is_order,
    scored_by,
    scorer_is_total,
    scores_of,
};
use crate::sizing::{
    judge_frame,
    lemma_redraw_commits,
    lemma_redraw_retries,
    lemma_redraw_starts,
    redrawing,
    redraws,
    working_page_size,
    Attempt,
    Measurement,
};
use crate::validator::{ErrorMessage, MultiOptionValidator, Validation};

verus! {

/// A prompt that asks for any number of a list of options.
///
/// The options keep the indices they are given with. What is on screen is
/// the scored order: the indices of the options that pass the filter, best
/// match first. The cursor is a row of the scored order. The checked options
/// are kept by index, whether they pass the filter or not.
#[verifier::reject_recursive_types(T)]
pub struct MultiSelectPrompt<'a, T, S, F> {
    message: &'a str,
    config: MultiSelectConfig,
    options: Vec<T>,
    string_options: Vec<String>,
    help_message: Option<&'a str>,
    cursor_index: usize,
    checked: BTreeSet<usize>,
    input: Option<Input>,
    scored_options: Vec<usize>,
    scorer: S,
    formatter: F,
    validator: Option<Box<dyn MultiOptionValidator<T>>>,
    error: Option<ErrorMessage>,
}

/// The state of a multiple-choice prompt.
#[verifier::reject_recursive_types(T)]
pub struct MultiSelectView<T, S, F> {
    /// The question.
    pub message: Seq<char>,
    /// Help text, if any.
    pub help_message: Option<Seq<char>>,
    /// The settings.
    pub config: MultiSelectConfig,
    /// The options, by index.
    pub options: Seq<T>,
    /// The texts of the options, by index.
    pub texts: Seq<String>,
    /// The scored order.
    pub order: Seq<usize>,
    /// The cursor, a row of the scored order.
    pub cursor: usize,
    /// The indices of the checked options.
    pub checked: Set<usize>,
    /// The filter text, where the prompt filters.
    pub filter: Option<Seq<char>>,
    /// The message left by the last answer that was turned down.
    pub error: Option<ErrorMessage>,
    /// Scores an option against the filter text.
    pub scorer: S,
    /// Writes the answer out.
    pub formatter: F,
    /// Check that the checked options have to pass on submit.
    pub validator: Option<Box<dyn MultiOptionValidator<T>>>,
}

/// Whether `answer` lists the options of `options` whose indices are in
/// `checked`, each with its index, by ascending index.
pub open spec fn is_selection_of<T>(
    answer: Seq<ListOption<T>>,
    checked: Set<usize>,
    options: Seq<T>,
) -> bool {
    &&& forall|a: int, b: int|
        0 <= a < b < answer.len() ==> (#[trigger] answer[a]).index < (#[trigger] answer[b]).index
    &&& forall|k: int|
        0 <= k < answer.len() ==> checked.contains((#[trigger] answer[k]).index) && answer[k].value
            == options[answer[k].index as int]
    &&& forall|i: usize|
        checked.contains(i) ==> exists|k: int|
            0 <= k < answer.len() && (#[trigger] answer[k]).index == i
}

/// The first entry of `default` that is no index below `len`, if there is
/// one.
pub open spec fn first_out_of_bounds(default: Seq<usize>, len: int) -> Option<usize>
    decreases default.len(),
{
    if default.len() == 0 {
        None
    } else if default[0] >= len {
        Some(default[0])
    } else {
        first_out_of_bounds(default.drop_first(), len)
    }
}

/// The indices that start out checked.
pub open spec fn starting_checked(default: Option<Vec<usize>>) -> Set<usize> {
    match default {
        Some(indices) => indices@.to_set(),
        None => Set::empty(),
    }
}

impl<T, S, F> MultiSelectView<T, S, F> where
    S: Fn(&str, &T, &str, usize) -> Option<i64>,
    F: Fn(&[ListOption<&T>]) -> String,
 {
    /// Whether `after` is this state with another page size.
    pub open spec fn resized_to(self, after: Self) -> bool {
        exists|page_size: usize| after == #[trigger] self.with_page_size(page_size)
    }

    /// Whether `after` is a state that a prompt in this state can be brought
    /// to in one go and be used in: by scoring its options, by a redraw, which
    /// can change the page size, or by an action that does not end it.
    pub open spec fn leads_to(self, after: Self) -> bool {
        ||| self.rescores_to(after)
        ||| self.resized_to(after)
        ||| exists|
            action: Action<MultiSelectPromptAction>,
            r: InquireResult<Step<Seq<ListOption<T>>>>,
        |
            #![trigger self.steps(action, after, r)]
            self.steps(action, after, r) && !(r matches Ok(Step::Answered(_)))
    }
}

/// The text of the error that making a prompt from `mso` fails with, or
/// `None` if a prompt is made: there have to be options, the starting cursor
/// has to be an index of the options, and so has each index that starts out
/// checked. The first of these that is not met gives the error, and among the
/// indices the first that is out of bounds.
pub open spec fn refusal<T, S, F>(mso: MultiSelect<'_, T, S, F>) -> Option<Seq<char>> {
    let len = mso.options.len();
    if len == 0 {
        Some(empty_options_text())
    } else if mso.starting_cursor >= len {
        Some(cursor_out_of_bounds_text(mso.starting_cursor as nat, len as nat))
    } else {
        match mso.default {
            Some(default) => match first_out_of_bounds(default@, len as int) {
                Some(index) => Some(index_out_of_bounds_text(index as nat, len as nat)),
                None => None,
            },
            None => None,
        }
    }
}

/// The state that a prompt made from `mso` starts in, its options having the
/// texts `texts`: every option is in the scored order, by ascending index.
pub open spec fn initial_state<T, S, F>(
    mso: MultiSelect<'_, T, S, F>,
    texts: Seq<String>,
) -> MultiSelectView<T, S, F> {
    MultiSelectView {
        message: mso.message@,
        help_message: match mso.help_message {
            Some(help) => Some(help@),
            None => None,
        },
        config: MultiSelectConfig {
            page_size: mso.page_size,
            keep_filter: mso.keep_filter,
            reset_cursor: mso.reset_cursor,
            wrap_around: mso.wrap_around,
        },
        options: mso.options@,
        texts,
        order: identity_order(mso.options.len() as nat),
        cursor: mso.starting_cursor,
        checked: starting_checked(mso.default),
        filter: starting_filter(mso.filter_input_enabled, mso.starting_filter_input),
        error: None,
        scorer: mso.scorer,
        formatter: mso.formatter,
        validator: mso.validator,
    }
}

impl<T, S, F> MultiSelectView<T, S, F> where
    S: Fn(&str, &T, &str, usize) -> Option<i64>,
    F: Fn(&[ListOption<&T>]) -> String,
 {
    /// What holds of the state of every prompt from the moment it is made
    /// until its answer is taken: there are options, each with its text; the
    /// scored order holds indices of options, none twice; it holds all of
    /// them in ascending order if the prompt does not filter; the cursor is
    /// on one of its rows, or 0 if it has none; what is checked is an index
    /// of an option.
    pub open spec fn wf(self) -> bool {
        &&& self.options.len() > 0
        &&& self.texts.len() == self.options.len()
        &&& is_order_of(self.order, self.options.len() as int)
        &&& cursor_in_bounds(self.cursor as int, self.order.len() as int)
        &&& self.filter is None ==> self.order == identity_order(self.options.len())
        &&& forall|i: usize| self.checked.contains(i) ==> i < self.options.len()
        &&& scorer_is_total::<T, S>(self.scorer)
        &&& self.can_format()
    }

    /// Whether the formatter can be called on every answer.
    pub open spec fn can_format(self) -> bool {
        forall|answer: &[ListOption<&T>]| #[trigger] call_requires(self.formatter, (answer,))
    }

    /// The state with the cursor on `cursor`.
    pub open spec fn with_cursor(self, cursor: usize) -> Self {
        MultiSelectView { cursor, ..self }
    }

    /// The state with `options` for the options.
    pub open spec fn with_options(self, options: Seq<T>) -> Self {
        MultiSelectView { options, ..self }
    }

    /// The state with the page size `page_size`.
    pub open spec fn with_page_size(self, page_size: usize) -> Self {
        MultiSelectView { config: MultiSelectConfig { page_size, ..self.config }, ..self }
    }

    /// The state with the filter text `text`.
    pub open spec fn with_filter(self, text: Seq<char>) -> Self {
        MultiSelectView { filter: Some(text), ..self }
    }

    /// The state with `checked` for the checked options.
    pub open spec fn with_checked(self, checked: Set<usize>) -> Self {
        MultiSelectView { checked, ..self }
    }

    /// The state with `error` for the message of the answer turned down.
    pub open spec fn with_error(self, error: Option<ErrorMessage>) -> Self {
        MultiSelectView { error, ..self }
    }

    /// The state after the cursor moved up `qty` rows.
    pub open spec fn moved_up(self, qty: usize, wrap: bool) -> Self {
        self.with_cursor(
            up_target(self.cursor as int, self.order.len() as int, qty as int, wrap) as usize,
        )
    }

    /// The state after the cursor moved down `qty` rows.
    pub open spec fn moved_down(self, qty: usize, wrap: bool) -> Self {
        self.with_cursor(
            down_target(self.cursor as int, self.order.len() as int, qty as int, wrap) as usize,
        )
    }

    /// What a move from this state to `after` reports: a redraw if the
    /// cursor is elsewhere.
    pub open spec fn move_result(self, after: Self) -> ActionResult {
        if after.cursor != self.cursor {
            ActionResult::NeedsRedraw
        } else {
            ActionResult::Clean
        }
    }

    /// The state once the scored order was computed anew as `order`. Where
    /// that is the order there was, nothing changes. Where it is another, it
    /// takes the place of the old one, and the cursor goes to the first row
    /// if the prompt resets it, and else stays, or goes to the last row if
    /// it stood beyond.
    pub open spec fn reordered(self, order: Seq<usize>) -> Self {
        if order == self.order {
            self
        } else {
            MultiSelectView {
                order,
                cursor: reconciled_cursor(self.cursor, order.len() as int, self.config.reset_cursor),
                ..self
            }
        }
    }

    /// Whether `after` is a state that scoring the options in this state
    /// leads to. A prompt that does not filter is left as it is. One that
    /// does has its scorer score each option against the filter text, and is
    /// reordered by those scores.
    pub open spec fn rescores_to(self, after: Self) -> bool {
        match self.filter {
            None => after == self,
            Some(filter) => exists|scores: Seq<Option<i64>>|
                #![trigger is_ranking(after.order, scores)]
                scores_of(self.scorer, filter, self.options, self.texts, scores) && is_ranking(
                    after.order,
                    scores,
                ) && after == self.reordered(after.order),
        }
    }

    /// Whether an option is under the cursor.
    pub open spec fn has_highlight(self) -> bool {
        self.cursor < self.order.len()
    }

    /// The state after the option under the cursor went from checked to
    /// unchecked or from unchecked to checked. With no option under the
    /// cursor it is the state there was.
    pub open spec fn toggled(self) -> Self {
        if self.has_highlight() {
            let index = self.order[self.cursor as int];
            if self.checked.contains(index) {
                self.with_checked(self.checked.remove(index))
            } else {
                self.with_checked(self.checked.insert(index))
            }
        } else {
            self
        }
    }

    /// What toggling reports: a redraw if an option was under the cursor.
    pub open spec fn toggle_result(self) -> ActionResult {
        if self.has_highlight() {
            ActionResult::NeedsRedraw
        } else {
            ActionResult::Clean
        }
    }

    /// The state with the options of the scored order checked, and no
    /// others.
    pub open spec fn all_selected(self) -> Self {
        self.with_checked(self.order.to_set())
    }

    /// The state with no option checked.
    pub open spec fn none_selected(self) -> Self {
        self.with_checked(Set::empty())
    }

    /// Whether `action` empties the filter in this state: it does if it
    /// changes the selection while there is filter text, unless the prompt
    /// keeps its filter.
    pub open spec fn clears_filter(self, action: MultiSelectPromptAction) -> bool {
        &&& !self.config.keep_filter
        &&& self.filter matches Some(text) && text.len() > 0
        &&& action.changes_selection()
    }

    /// What emptying the filter after `action` reports: a redraw if the
    /// filter was emptied.
    pub open spec fn clear_result(self, action: MultiSelectPromptAction) -> ActionResult {
        if self.clears_filter(action) {
            ActionResult::NeedsRedraw
        } else {
            ActionResult::Clean
        }
    }

    /// Whether `after` is a state that this state can be in once `action`
    /// was handled and the filter was emptied on its account. Where the
    /// filter is emptied, the options are scored again.
    pub open spec fn filter_cleared_to(self, action: MultiSelectPromptAction, after: Self) -> bool {
        if self.clears_filter(action) {
            self.with_filter(Seq::empty()).rescores_to(after)
        } else {
            after == self
        }
    }

    /// Whether handling `action` in this state can lead to the state `after`
    /// and report `result`.
    pub open spec fn handles(
        self,
        action: MultiSelectPromptAction,
        after: Self,
        result: ActionResult,
    ) -> bool {
        match action {
            MultiSelectPromptAction::MoveUp => after == self.moved_up(1, self.config.wrap_around)
                && result == self.move_result(after),
            MultiSelectPromptAction::MoveDown => after == self.moved_down(
                1,
                self.config.wrap_around,
            ) && result == self.move_result(after),
            MultiSelectPromptAction::PageUp => after == self.moved_up(self.config.page_size, false)
                && result == self.move_result(after),
            MultiSelectPromptAction::PageDown => after == self.moved_down(
                self.config.page_size,
                false,
            ) && result == self.move_result(after),
            MultiSelectPromptAction::MoveToStart => after == self.moved_up(usize::MAX, false)
                && result == self.move_result(after),
            MultiSelectPromptAction::MoveToEnd => after == self.moved_down(usize::MAX, false)
                && result == self.move_result(after),
            MultiSelectPromptAction::ToggleCurrentOption => self.toggled().filter_cleared_to(
                action,
                after,
            ) && result == self.toggled().clear_result(action).merged(self.toggle_result()),
            MultiSelectPromptAction::SelectAll => self.all_selected().filter_cleared_to(
                action,
                after,
            ) && result is NeedsRedraw,
            MultiSelectPromptAction::ClearSelections => self.none_selected().filter_cleared_to(
                action,
                after,
            ) && result is NeedsRedraw,
            MultiSelectPromptAction::FilterInput(edit) => match self.filter {
                None => after == self && result is Clean,
                Some(text) => match Input::reported(text, edit) {
                    InputActionResult::ContentChanged => self.with_filter(
                        Input::edited(text, edit),
                    ).rescores_to(after) && result is NeedsRedraw,
                    InputActionResult::PositionChanged => after == self && result is NeedsRedraw,
                    InputActionResult::Clean => after == self && result is Clean,
                },
            },
        }
    }

    /// Whether `after` and `r` are what submitting in this state can lead to
    /// when the validator's verdict is `validation`. A valid selection is
    /// the answer: the checked options with their indices, by ascending
    /// index. One that is turned down leaves the validator's message in the
    /// state, and no answer.
    pub open spec fn concludes(
        self,
        validation: Validation,
        after: Self,
        r: Option<Seq<ListOption<T>>>,
    ) -> bool {
        match validation {
            Validation::Valid => r matches Some(answer) && is_selection_of(
                answer,
                self.checked,
                self.options,
            ) && after == self.with_options(after.options),
            Validation::Invalid(message) => r is None && after == self.with_error(Some(message)),
        }
    }

    /// Whether `action` in this state can lead to the state `after` and to
    /// the result `r`: what the loop does next, or the failure of the
    /// validator.
    ///
    /// Submitting ends the prompt with the checked options if the validator
    /// lets them pass, as it does where there is none. If it turns them
    /// down, its message is kept and a redraw is asked for. If it fails, so
    /// does the action, and nothing changes. Canceling and interrupting end
    /// the prompt without an answer. Any other action is handled, and the
    /// loop goes on. Once the answer is taken, the options are no longer
    /// what they were, and all else is.
    pub open spec fn steps(
        self,
        action: Action<MultiSelectPromptAction>,
        after: Self,
        r: InquireResult<Step<Seq<ListOption<T>>>>,
    ) -> bool {
        match action {
            Action::Submit => {
                &&& match r {
                    Ok(Step::Answered(answer)) => is_selection_of(
                        answer,
                        self.checked,
                        self.options,
                    ) && after == self.with_options(after.options),
                    Ok(Step::Continue(result)) => result is NeedsRedraw && after.error is Some
                        && after == self.with_error(after.error),
                    Ok(_) => false,
                    Err(e) => e is Custom && after == self,
                }
                &&& self.validator is None ==> r matches Ok(Step::Answered(_))
            },
            Action::Cancel => after == self && r matches Ok(Step::Canceled),
            Action::Interrupt => after == self && r matches Ok(Step::Interrupted),
            Action::Inner(inner) => r matches Ok(Step::Continue(result)) && self.handles(
                inner,
                after,
                result,
            ),
        }
    }
}

impl<'a, T, S, F> View for MultiSelectPrompt<'a, T, S, F> {
    type V = MultiSelectView<T, S, F>;

    closed spec fn view(&self) -> MultiSelectView<T, S, F> {
        MultiSelectView {
            message: self.message@,
            help_message: match self.help_message {
                Some(help) => Some(help@),
                None => None,
            },
            config: self.config,
            options: self.options@,
            texts: self.string_options@,
            order: self.scored_options@,
            cursor: self.cursor_index,
            checked: self.checked@,
            filter: match self.input {
                Some(input) => Some(input@),
                None => None,
            },
            error: self.error,
            scorer: self.scorer,
            formatter: self.formatter,
            validator: self.validator,
        }
    }
}

impl<'a, T, S, F> MultiSelectPrompt<'a, T, S, F> where
    T: Display,
    S: Fn(&str, &T, &str, usize) -> Option<i64>,
    F: Fn(&[ListOption<&T>]) -> String,
 {
    /// Whether the prompt is in a state to be used.
    pub open spec fn wf(&self) -> bool {
        self@.wf()
    }

    /// Makes the prompt that `mso` describes.
    ///
    /// Fails, with no prompt made, if there are no options, if the starting
    /// cursor is no index of the options, or if one of the indices that
    /// start out checked is none; the error names the first such index. The
    /// prompt starts with every option in the scored order, by ascending
    /// index. `setup` then applies the filter it starts with. The prompt is
    /// in a state to be used if its scorer and its formatter can be called
    /// on every input.
    pub fn new(mso: MultiSelect<'a, T, S, F>) -> (r: InquireResult<Self>)
        ensures
            match refusal(mso) {
                Some(text) => r matches Err(InquireError::InvalidConfiguration(given)) && given@
                    == text,
                None => r matches Ok(prompt) && prompt@ == initial_state(mso, prompt@.texts)
                    && displays(prompt@.options, prompt@.texts) && (scorer_is_total::<T, S>(
                    mso.scorer,
                ) && prompt@.can_format() ==> prompt.wf()),
            },
    {
        if mso.options.is_empty() {
            return Err(InquireError::empty_options());
        }
        if mso.starting_cursor >= mso.options.len() {
            return Err(
                InquireError::cursor_out_of_bounds(mso.starting_cursor, mso.options.len()),
            );
        }
        let mut checked: BTreeSet<usize> = BTreeSet::new();
        if let Some(default) = &mso.default {
            let mut k: usize = 0;
            assert(default@.skip(0) =~= default@);
            while k < default.len()
                invariant
                    k <= default.len(),
                    mso.options.len() > 0,
                    mso.starting_cursor < mso.options.len(),
                    mso.default == Some(*default),
                    first_out_of_bounds(default@, mso.options.len() as int) == first_out_of_bounds(
                        default@.skip(k as int),
                        mso.options.len() as int,
                    ),
                    checked@ == default@.take(k as int).to_set(),
                    forall|i: usize| checked@.contains(i) ==> i < mso.options.len(),
                decreases default.len() - k,
            {
                let index = default[k];
                proof {
                    let rest = default@.skip(k as int);
                    assert(rest[0] == index);
                    assert(rest.drop_first() =~= default@.skip(k + 1));
                }
                if index >= mso.options.len() {
                    return Err(InquireError::index_out_of_bounds(index, mso.options.len()));
                }
                checked.insert(index);
                proof {
                    assert(default@.take(k + 1) =~= default@.take(k as int).push(index));
                    assert(default@.take(k + 1).to_set() =~= default@.take(k as int).to_set().insert(
                        index,
                    )) by {
                        default@.take(k as int).lemma_push_to_set_commute(index);
                    }
                }
                k += 1;
            }
            proof {
                assert(default@.take(k as int) =~= default@);
                assert(default@.skip(k as int).len() == 0);
            }
        }
        let string_options = display_texts(&mso.options);
        let scored_options = all_indices(mso.options.len());
        let input = if mso.filter_input_enabled {
            Some(
                Input::new_with(
                    match mso.starting_filter_input {
                        Some(text) => text.to_owned(),
                        None => String::new(),
                    },
                ),
            )
        } else {
            None
        };
        let prompt = MultiSelectPrompt {
            message: mso.message,
            config: MultiSelectConfig {
                page_size: mso.page_size,
                keep_filter: mso.keep_filter,
                reset_cursor: mso.reset_cursor,
                wrap_around: mso.wrap_around,
            },
            options: mso.options,
            string_options,
            scored_options,
            help_message: mso.help_message,
            cursor_index: mso.starting_cursor,
            input,
            scorer: mso.scorer,
            formatter: mso.formatter,
            validator: mso.validator,
            error: None,
            checked,
        };
        Ok(prompt)
    }

    /// Moves the cursor up `qty` rows, past the first row to the end of the
    /// list if `wrap` is set, and reports whether it moved.
    pub fn move_cursor_up(&mut self, qty: usize, wrap: bool) -> (r: ActionResult)
        requires
            old(self).wf(),
        ensures
            final(self).wf(),
            final(self)@ == old(self)@.moved_up(qty, wrap),
            r == old(self)@.move_result(final(self)@),
            !wrap ==> final(self)@.cursor <= old(self)@.cursor,
    {
        let new_position = cursor_up(self.cursor_index, self.scored_options.len(), qty, wrap);
        self.update_cursor_position(new_position)
    }

    /// Moves the cursor down `qty` rows, past the last row to the start of
    /// the list if `wrap` is set, and reports whether it moved.
    pub fn move_cursor_down(&mut self, qty: usize, wrap: bool) -> (r: ActionResult)
        requires
            old(self).wf(),
        ensures
            final(self).wf(),
            final(self)@ == old(self)@.moved_down(qty, wrap),
            r == old(self)@.move_result(final(self)@),
            !wrap ==> final(self)@.cursor >= old(self)@.cursor,
    {
        let new_position = cursor_down(self.cursor_index, self.scored_options.len(), qty, wrap);
        self.update_cursor_position(new_position)
    }

    /// Puts the cursor on `new_position` and reports whether that is
    /// another row than it was on.
    pub fn update_cursor_position(&mut self, new_position: usize) -> (r: ActionResult)
        ensures
            final(self)@ == old(self)@.with_cursor(new_position),
            r == old(self)@.move_result(final(self)@),
    {
        if new_position != self.cursor_index {
            self.cursor_index = new_position;
            ActionResult::NeedsRedraw
        } else {
            ActionResult::Clean
        }
    }

    /// Checks the option under the cursor if it is unchecked and unchecks
    /// it if it is checked. With no option under the cursor nothing changes
    /// and no redraw is asked for.
    pub fn toggle_cursor_selection(&mut self) -> (r: ActionResult)
        requires
            old(self).wf(),
        ensures
            final(self).wf(),
            final(self)@ == old(self)@.toggled(),
            r == old(self)@.toggle_result(),
    {
        if self.cursor_index >= self.scored_options.len() {
            return ActionResult::Clean;
        }
        let index = self.scored_options[self.cursor_index];
        if self.checked.contains(&index) {
            self.checked.remove(&index);
        } else {
            self.checked.insert(index);
        }
        ActionResult::NeedsRedraw
    }

    /// Checks the options of the scored order, and unchecks all others.
    pub fn select_all(&mut self)
        requires
            old(self).wf(),
        ensures
            final(self).wf(),
            final(self)@ == old(self)@.all_selected(),
    {
        self.checked.clear();
        let mut k: usize = 0;
        while k < self.scored_options.len()
            invariant
                k <= self.scored_options.len(),
                self@ == old(self)@.with_checked(self@.checked),
                old(self).wf(),
                self@.checked == old(self)@.order.take(k as int).to_set(),
            decreases self.scored_options.len() - k,
        {
            let index = self.scored_options[k];
            self.checked.insert(index);
            proof {
                let order = old(self)@.order;
                assert(order.take(k + 1) =~= order.take(k as int).push(index));
                order.take(k as int).lemma_push_to_set_commute(index);
            }
            k += 1;
        }
        proof {
            let order = old(self)@.order;
            assert(order.take(k as int) =~= order);
            assert forall|i: usize| self@.checked.contains(i) implies i < self@.options.len() by {
                let j = choose|j: int| 0 <= j < order.len() && order[j] == i;
                assert(order[j] < self@.options.len());
            }
        }
    }

    /// Unchecks every option.
    pub fn clear_selections(&mut self)
        requires
            old(self).wf(),
        ensures
            final(self).wf(),
            final(self)@ == old(self)@.none_selected(),
    {
        self.checked.clear();
    }

    /// Empties the filter after an action that changed the selection, scores
    /// the options again, and reports whether it did. It does nothing if the
    /// prompt keeps its filter or does not filter, if there is no filter
    /// text, or after any other action.
    pub fn clear_input_if_needed(&mut self, action: &MultiSelectPromptAction) -> (r: ActionResult)
        requires
            old(self).wf(),
        ensures
            final(self).wf(),
            old(self)@.filter_cleared_to(*action, final(self)@),
            r == old(self)@.clear_result(*action),
    {
        if self.config.keep_filter {
            return ActionResult::Clean;
        }
        let empty = match &self.input {
            Some(input) => input.is_empty(),
            None => true,
        };
        if empty {
            return ActionResult::Clean;
        }
        match action {
            MultiSelectPromptAction::ToggleCurrentOption
            | MultiSelectPromptAction::SelectAll
            | MultiSelectPromptAction::ClearSelections => {
                self.clear_filter();
                self.run_scorer();
                ActionResult::NeedsRedraw
            },
            _ => ActionResult::Clean,
        }
    }

    /// Empties the filter text. The scored order is left as it is.
    fn clear_filter(&mut self)
        requires
            old(self).wf(),
            old(self)@.filter is Some,
        ensures
            final(self).wf(),
            final(self)@ == old(self)@.with_filter(Seq::empty()),
    {
        match &mut self.input {
            Some(input) => input.clear(),
            None => {},
        }
    }

    /// The checked options with their indices, by ascending index.
    pub fn checked_options(&self) -> (r: Vec<ListOption<&T>>)
        requires
            self.wf(),
        ensures
            is_selection_of(unborrowed(r@), self@.checked, self@.options),
    {
        let indices = ascending_list(&self.checked);
        let mut selected: Vec<ListOption<&T>> = Vec::new();
        let mut k: usize = 0;
        while k < indices.len()
            invariant
                self.wf(),
                indices@.to_set() == self@.checked,
                k <= indices.len(),
                selected.len() == k,
                forall|j: int|
                    0 <= j < k ==> (#[trigger] selected[j]).index == indices[j]
                        && *selected[j].value == self@.options[indices[j] as int],
            decreases indices.len() - k,
        {
            let index = indices[k];
            assert(indices@.contains(index));
            assert(self@.checked.contains(index));
            selected.push(ListOption::new(index, &self.options[index]));
            k += 1;
        }
        proof {
            let answer = unborrowed(selected@);
            assert forall|j: int| 0 <= j < answer.len() implies self@.checked.contains(
                (#[trigger] answer[j]).index,
            ) && answer[j].value == self@.options[answer[j].index as int] by {
                assert(indices@.contains(indices[j]));
            }
            assert forall|i: usize| self@.checked.contains(i) implies exists|j: int|
                0 <= j < answer.len() && (#[trigger] answer[j]).index == i by {
                assert(indices@.contains(i));
                let j = choose|j: int| 0 <= j < indices.len() && indices[j] == i;
                assert(answer[j].index == i);
            }
        }
        selected
    }

    /// Asks the validator for its verdict on the checked options. Without a
    /// validator the selection is valid. A validator that fails to reach a
    /// verdict has its failure handed on.
    pub fn validate_current_answer(&self) -> (r: InquireResult<Validation>)
        requires
            self.wf(),
        ensures
            self@.validator is None ==> r == Ok::<_, InquireError>(Validation::Valid),
            r matches Err(e) ==> e is Custom,
    {
        match &self.validator {
            Some(validator) => {
                let selected_options = self.checked_options();
                match validator.validate(selected_options.as_slice()) {
                    Ok(validation) => Ok(validation),
                    Err(failure) => Err(InquireError::Custom(failure)),
                }
            },
            None => Ok(Validation::Valid),
        }
    }

    /// Takes the checked options out of the prompt, with their indices, by
    /// ascending index. The prompt is spent: what is left of its options is
    /// no longer the list that the indices count in, and all that is in order
    /// afterwards is to write the answer out.
    pub fn get_final_answer(&mut self) -> (answer: Vec<ListOption<T>>)
        requires
            old(self).wf(),
        ensures
            is_selection_of(answer@, old(self)@.checked, old(self)@.options),
            final(self)@ == old(self)@.with_options(final(self)@.options),
    {
        let indices = ascending_list(&self.checked);
        let ghost options = self.options@;
        let ghost checked = self.checked@;
        let mut taken: Vec<ListOption<T>> = Vec::new();
        let mut k: usize = indices.len();
        proof {
            assert forall|j: int| 0 <= j < indices.len() implies (#[trigger] indices[j])
                < options.len() by {
                assert(indices@.contains(indices[j]));
                assert(self@.checked.contains(indices[j]));
                assert(indices[j] < self@.options.len());
            }
        }
        // From the highest index down, so that what takes the place of an
        // option taken out is never one that is still to be taken.
        while k > 0
            invariant
                self@ == old(self)@.with_options(self@.options),
                k <= indices.len(),
                ascending(indices@),
                forall|j: int| 0 <= j < indices.len() ==> (#[trigger] indices[j]) < options.len(),
                taken.len() == indices.len() - k,
                forall|m: int|
                    0 <= m < taken.len() ==> (#[trigger] taken[m]).index == indices[indices.len()
                        - 1 - m] && taken[m].value == options[taken[m].index as int],
                k == indices.len() ==> self.options@ == options,
                k < indices.len() ==> self.options.len() >= indices[k as int] && forall|j: int|
                    0 <= j < indices[k as int] ==> self.options[j] == options[j],
            decreases k,
        {
            k -= 1;
            let index = indices[k];
            assert(k + 1 < indices.len() ==> indices[k as int] < indices[k + 1]);
            let value = self.options.swap_remove(index);
            taken.push(ListOption::new(index, value));
        }
        let mut answer: Vec<ListOption<T>> = Vec::new();
        let ghost all = taken@;
        while taken.len() > 0
            invariant
                taken.len() + answer.len() == all.len(),
                taken@ == all.take(taken.len() as int),
                forall|m: int|
                    0 <= m < answer.len() ==> (#[trigger] answer[m]) == all[all.len() - 1 - m],
            decreases taken.len(),
        {
            let item = taken.pop().unwrap();
            answer.push(item);
        }
        proof {
            assert forall|m: int| 0 <= m < answer.len() implies (#[trigger] answer[m]).index
                == indices[m] && answer[m].value == options[indices[m] as int] by {
                assert(answer[m] == all[all.len() - 1 - m]);
            }
            assert forall|m: int| 0 <= m < answer.len() implies checked.contains(
                (#[trigger] answer[m]).index,
            ) by {
                assert(indices@.contains(indices[m]));
            }
            assert forall|i: usize| checked.contains(i) implies exists|m: int|
                0 <= m < answer.len() && (#[trigger] answer[m]).index == i by {
                assert(indices@.contains(i));
                let m = choose|m: int| 0 <= m < indices.len() && indices[m] == i;
                assert(answer[m].index == i);
            }
        }
        answer
    }

    /// Acts on what the validator found: takes the answer if the selection
    /// is valid, and else keeps the validator's message to show it.
    pub fn conclude(&mut self, validation: Validation) -> (r: Option<Vec<ListOption<T>>>)
        requires
            old(self).wf(),
        ensures
            old(self)@.concludes(
                validation,
                final(self)@,
                match r {
                    Some(answer) => Some(answer@),
                    None => None,
                },
            ),
            r is None ==> final(self).wf(),
    {
        match validation {
            Validation::Valid => Some(self.get_final_answer()),
            Validation::Invalid(message) => {
                self.error = Some(message);
                None
            },
        }
    }

    /// Has the validator judge the checked options, and takes them for the
    /// answer if they pass. If they are turned down there is no answer, and
    /// the validator's message is kept to show it. Without a validator they
    /// pass.
    pub fn submit(&mut self) -> (r: InquireResult<Option<Vec<ListOption<T>>>>)
        requires
            old(self).wf(),
        ensures
            match r {
                Ok(Some(answer)) => is_selection_of(
                    answer@,
                    old(self)@.checked,
                    old(self)@.options,
                ) && final(self)@ == old(self)@.with_options(final(self)@.options),
                Ok(None) => final(self)@.error is Some && final(self)@ == old(self)@.with_error(
                    final(self)@.error,
                ),
                Err(e) => e is Custom && final(self)@ == old(self)@,
            },
            old(self)@.validator is None ==> r matches Ok(Some(_)),
            !(r matches Ok(Some(_))) ==> final(self).wf(),
    {
        let validation = self.validate_current_answer()?;
        Ok(self.conclude(validation))
    }

    /// Has the scorer score each option against the filter text, or against
    /// the empty text if the prompt does not filter.
    pub fn score_options(&self) -> (scores: Vec<Option<i64>>)
        requires
            self.wf(),
        ensures
            scores_of(
                self@.scorer,
                filter_text(self@.filter),
                self@.options,
                self@.texts,
                scores@,
            ),
    {
        let content = match &self.input {
            Some(input) => input.content(),
            None => "",
        };
        proof {
            reveal_strlit("");
            assert(content@ =~= filter_text(self@.filter));
        }
        let mut scores: Vec<Option<i64>> = Vec::new();
        let mut i: usize = 0;
        while i < self.options.len()
            invariant
                self.wf(),
                i <= self.options.len(),
                scores.len() == i,
                forall|k: int|
                    0 <= k < i ==> scored_by(
                        self@.scorer,
                        content@,
                        self@.options[k],
                        self@.texts[k],
                        k as usize,
                        #[trigger] scores[k],
                    ),
            decreases self.options.len() - i,
        {
            let text = self.string_options[i].as_str();
            let score = (self.scorer)(content, &self.options[i], text, i);
            assert(scored_by(
                self@.scorer,
                content@,
                self@.options[i as int],
                self@.texts[i as int],
                i,
                score,
            )) by {
                assert(call_ensures(self.scorer, (content, &self.options[i as int], text, i), score));
            }
            scores.push(score);
            i += 1;
        }
        scores
    }

    /// Reorders the options by `scores`, which holds the score of each
    /// option, or `None` for an option that is filtered out. A prompt that
    /// does not filter is left as it is.
    pub fn apply_scores(&mut self, scores: &Vec<Option<i64>>)
        requires
            old(self).wf(),
            scores.len() == old(self)@.options.len(),
        ensures
            final(self).wf(),
            old(self)@.filter is None ==> final(self)@ == old(self)@,
            old(self)@.filter is Some ==> is_ranking(final(self)@.order, scores@) && final(self)@
                == old(self)@.reordered(final(self)@.order),
    {
        if self.input.is_none() {
            return ;
        }
        let new_scored_options = rank(scores);
        if self.scored_options == new_scored_options {
            proof {
                assert(self.scored_options@ =~= new_scored_options@);
            }
            return ;
        }
        self.scored_options = new_scored_options;
        self.cursor_index = reconcile_cursor(
            self.cursor_index,
            self.scored_options.len(),
            self.config.reset_cursor,
        );
    }

    /// Computes the scored order anew from the filter text, and puts the
    /// cursor back inside it. A prompt that does not filter is left as it
    /// is.
    pub fn run_scorer(&mut self)
        requires
            old(self).wf(),
        ensures
            final(self).wf(),
            old(self)@.rescores_to(final(self)@),
    {
        if self.input.is_none() {
            return ;
        }
        let scores = self.score_options();
        self.apply_scores(&scores);
    }

    /// The question.
    pub fn message(&self) -> (r: &str)
        ensures
            r@ == self@.message,
    {
        self.message
    }

    /// The settings, with the page size as redraws left it.
    pub fn config(&self) -> (r: &MultiSelectConfig)
        ensures
            *r == self@.config,
    {
        &self.config
    }

    /// Has the formatter write `answer` out.
    pub fn format_answer(&self, answer: &Vec<ListOption<T>>) -> (r: String)
        requires
            self@.can_format(),
        ensures
            exists|refs: &[ListOption<&T>]|
                #![trigger call_ensures(self@.formatter, (refs,), r)]
                unborrowed(refs@) == answer@ && call_ensures(self@.formatter, (refs,), r),
    {
        let mut refs: Vec<ListOption<&T>> = Vec::new();
        let mut k: usize = 0;
        while k < answer.len()
            invariant
                k <= answer.len(),
                refs.len() == k,
                forall|j: int|
                    0 <= j < k ==> (#[trigger] refs[j]).index == answer[j].index && *refs[j].value
                        == answer[j].value,
            decreases answer.len() - k,
        {
            refs.push(answer[k].as_ref());
            k += 1;
        }
        let borrowed = refs.as_slice();
        assert(unborrowed(borrowed@) =~= answer@);
        assert(call_requires(self@.formatter, (borrowed,)));
        (self.formatter)(borrowed)
    }

    /// Brings the prompt from the state it was made in to the state it is
    /// first drawn in: applies the filter text it starts with.
    pub fn setup(&mut self) -> (r: InquireResult<()>)
        requires
            old(self).wf(),
        ensures
            r is Ok,
            final(self).wf(),
            old(self)@.rescores_to(final(self)@),
    {
        self.run_scorer();
        Ok(())
    }

    /// Whether a request to cancel is to be followed. It always is.
    pub fn pre_cancel(&mut self) -> (r: InquireResult<bool>)
        ensures
            r == Ok::<_, InquireError>(true),
            *final(self) == *old(self),
    {
        Ok(true)
    }

    /// Applies an edit to the filter text and reports what it changed, or
    /// `None` if the prompt does not filter. The scored order is left as it
    /// is.
    pub fn edit_filter(&mut self, action: InputAction) -> (r: Option<InputActionResult>)
        requires
            old(self).wf(),
        ensures
            final(self).wf(),
            match old(self)@.filter {
                None => r is None && final(self)@ == old(self)@,
                Some(text) => r == Some(Input::reported(text, action)) && final(self)@ == old(
                    self,
                )@.with_filter(Input::edited(text, action)),
            },
    {
        match &mut self.input {
            Some(input) => Some(input.handle(action)),
            None => None,
        }
    }

    /// Handles one of the prompt's own actions and reports whether the
    /// prompt has to be drawn again. After an action that changes the
    /// selection the filter is emptied, unless the prompt keeps it.
    pub fn handle(&mut self, action: MultiSelectPromptAction) -> (r: InquireResult<ActionResult>)
        requires
            old(self).wf(),
        ensures
            final(self).wf(),
            r matches Ok(result) && old(self)@.handles(action, final(self)@, result),
    {
        let result = match action {
            MultiSelectPromptAction::MoveUp => self.move_cursor_up(1, self.config.wrap_around),
            MultiSelectPromptAction::MoveDown => self.move_cursor_down(1, self.config.wrap_around),
            MultiSelectPromptAction::PageUp => self.move_cursor_up(self.config.page_size, false),
            MultiSelectPromptAction::PageDown => self.move_cursor_down(
                self.config.page_size,
                false,
            ),
            MultiSelectPromptAction::MoveToStart => self.move_cursor_up(usize::MAX, false),
            MultiSelectPromptAction::MoveToEnd => self.move_cursor_down(usize::MAX, false),
            MultiSelectPromptAction::ToggleCurrentOption => {
                let toggled = self.toggle_cursor_selection();
                self.clear_input_if_needed(&MultiSelectPromptAction::ToggleCurrentOption).merge(
                    toggled,
                )
            },
            MultiSelectPromptAction::SelectAll => {
                self.select_all();
                self.clear_input_if_needed(&MultiSelectPromptAction::SelectAll).merge(
                    ActionResult::NeedsRedraw,
                )
            },
            MultiSelectPromptAction::ClearSelections => {
                self.clear_selections();
                self.clear_input_if_needed(&MultiSelectPromptAction::ClearSelections).merge(
                    ActionResult::NeedsRedraw,
                )
            },
            MultiSelectPromptAction::FilterInput(input_action) => match self.edit_filter(
                input_action,
            ) {
                Some(InputActionResult::ContentChanged) => {
                    self.run_scorer();
                    ActionResult::NeedsRedraw
                },
                Some(InputActionResult::PositionChanged) => ActionResult::NeedsRedraw,
                Some(InputActionResult::Clean) => ActionResult::Clean,
                None => ActionResult::Clean,
            },
        };
        Ok(result)
    }

    /// Takes one action and tells the loop what to do next.
    pub fn step(&mut self, action: Action<MultiSelectPromptAction>) -> (r: InquireResult<
        Step<Vec<ListOption<T>>>,
    >)
        requires
            old(self).wf(),
        ensures
            old(self)@.steps(
                action,
                final(self)@,
                match r {
                    Ok(Step::Continue(result)) => Ok(Step::Continue(result)),
                    Ok(Step::Answered(answer)) => Ok(Step::Answered(answer@)),
                    Ok(Step::Canceled) => Ok(Step::Canceled),
                    Ok(Step::Interrupted) => Ok(Step::Interrupted),
                    Err(e) => Err(e),
                },
            ),
            !(r matches Ok(Step::Answered(_))) ==> final(self).wf(),
    {
        let step = match action {
            Action::Submit => match self.submit()? {
                Some(answer) => Step::Answered(answer),
                None => Step::Continue(ActionResult::NeedsRedraw),
            },
            Action::Cancel => {
                if self.pre_cancel()? {
                    Step::Canceled
                } else {
                    Step::Continue(ActionResult::NeedsRedraw)
                }
            },
            Action::Interrupt => Step::Interrupted,
            Action::Inner(inner) => Step::Continue(self.handle(inner)?),
        };
        Ok(step)
    }

    /// The options of the scored order, in that order, each as its text and
    /// its index.
    pub fn choices(&self) -> (r: Vec<ListOption<&str>>)
        requires
            self.wf(),
        ensures
            r.len() == self@.order.len(),
            forall|k: int|
                0 <= k < r.len() ==> (#[trigger] r[k]).index == self@.order[k] && r[k].value@
                    == self@.texts[self@.order[k] as int]@,
    {
        let mut choices: Vec<ListOption<&str>> = Vec::new();
        let mut k: usize = 0;
        while k < self.scored_options.len()
            invariant
                self.wf(),
                k <= self.scored_options.len(),
                choices.len() == k,
                forall|j: int|
                    0 <= j < k ==> (#[trigger] choices[j]).index == self@.order[j]
                        && choices[j].value@ == self@.texts[self@.order[j] as int]@,
            decreases self.scored_options.len() - k,
        {
            let index = self.scored_options[k];
            choices.push(ListOption::new(index, self.string_options[index].as_str()));
            k += 1;
        }
        choices
    }

    /// Draws the prompt into the open frame of `backend`: the message of the
    /// answer that was turned down, the question with the filter, the page of
    /// options around the cursor with the checked ones marked, and the help
    /// text.
    pub fn render<B: MultiSelectBackend>(&self, backend: &mut B) -> (r: InquireResult<()>)
        requires
            self.wf(),
    {
        if let Some(error) = &self.error {
            backend.render_error_message(error)?;
        }
        backend.render_multiselect_prompt(self.message, self.input.as_ref())?;
        let choices = self.choices();
        let page = paginate(self.config.page_size, choices.as_slice(), Some(self.cursor_index));
        backend.render_options(page, &self.checked)?;
        if let Some(help_message) = self.help_message {
            backend.render_help_message(help_message)?;
        }
        Ok(())
    }

    /// Draws the prompt and shows the frame, with as many options as fit the
    /// terminal.
    ///
    /// The prompt is drawn with its page size, and the frame is measured. A
    /// frame that fits the terminal is shown, and so is any frame drawn with
    /// a page size of 1 or less. Any other is thrown away, the page size is
    /// lowered for good, and the prompt is drawn again. A failure of
    /// `backend` ends the redraw at once and is handed on.
    ///
    /// What the frames measure is for `backend` to say. Whatever it is, the
    /// redraw draws no more frames than its working page size, throws away
    /// every frame but the last, succeeds only if the last is one that
    /// commits, and leaves the page size that the measurements lead to.
    pub fn redraw_with_adaptive_page_size<B: MultiSelectBackend>(&mut self, backend: &mut B) -> (r:
        InquireResult<()>)
        requires
            old(self).wf(),
        ensures
            final(self).wf(),
            final(self)@ == old(self)@.with_page_size(final(self)@.config.page_size),
            final(self)@.config.page_size == old(self)@.config.page_size || 1
                <= final(self)@.config.page_size < old(self)@.config.page_size,
            exists|ms: Seq<Measurement>| #[trigger]
                redraws(
                    old(self)@.config.page_size as int,
                    ms,
                    final(self)@.config.page_size as int,
                    r is Ok,
                ),
    {
        let mut page_size: usize = if self.config.page_size < 1 {
            1
        } else {
            self.config.page_size
        };
        let ghost configured = self.config.page_size;
        let ghost mut ms: Seq<Measurement> = Seq::empty();
        proof {
            lemma_redraw_starts(configured);
        }
        loop
            invariant
                self.wf(),
                self@ == old(self)@.with_page_size(self@.config.page_size),
                page_size == working_page_size(self@.config.page_size as int),
                self@.config.page_size == old(self)@.config.page_size || 1
                    <= self@.config.page_size < old(self)@.config.page_size,
                configured == old(self)@.config.page_size,
                redrawing(configured as int, ms, page_size as int, self@.config.page_size as int),
                redraws(configured as int, ms, self@.config.page_size as int, false),
            ensures
                exists|all: Seq<Measurement>| #[trigger]
                    redraws(configured as int, all, self@.config.page_size as int, true),
            decreases page_size,
        {
            backend.frame_setup()?;
            self.render(backend)?;
            let frame = backend.current_flush_height();
            let terminal = backend.current_terminal_height();
            let ghost m = Measurement { frame, terminal };
            match judge_frame(page_size, frame, terminal) {
                Attempt::Commit => {
                    backend.frame_finish(false)?;
                    proof {
                        lemma_redraw_commits(configured, ms, page_size, self.config.page_size, m);
                    }
                    break ;
                },
                Attempt::Retry(next) => {
                    backend.frame_abort()?;
                    proof {
                        lemma_redraw_retries(
                            configured,
                            ms,
                            page_size,
                            self.config.page_size,
                            m,
                            next,
                        );
                        ms = ms.push(m);
                    }
                    page_size = next;
                    self.config.page_size = page_size;
                    let last = if self.scored_options.len() == 0 {
                        0
                    } else {
                        self.scored_options.len() - 1
                    };
                    let _ = self.update_cursor_position(
                        if self.cursor_index < last {
                            self.cursor_index
                        } else {
                            last
                        },
                    );
                },
            }
        }
        let shown: InquireResult<()> = Ok(());
        proof {
            let all = choose|all: Seq<Measurement>| #[trigger]
                redraws(configured as int, all, self@.config.page_size as int, true);
            assert(redraws(
                old(self)@.config.page_size as int,
                all,
                self@.config.page_size as int,
                shown is Ok,
            ));
        }
        shown
    }

    /// The row of the scored order that the cursor is on.
    pub fn cursor_index(&self) -> (r: usize)
        ensures
            r == self@.cursor,
    {
        self.cursor_index
    }

    /// The scored order: the indices of the options that pass the filter,
    /// best match first.
    pub fn scored_options(&self) -> (r: &Vec<usize>)
        ensures
            r@ == self@.order,
    {
        &self.scored_options
    }

    /// The indices of the checked options.
    pub fn checked(&self) -> (r: &BTreeSet<usize>)
        ensures
            r@ == self@.checked,
    {
        &self.checked
    }

    /// The message left by the last answer that was turned down.
    pub fn error(&self) -> (r: Option<&ErrorMessage>)
        ensures
            match r {
                Some(message) => self@.error == Some(*message),
                None => self@.error is None,
            },
    {
        self.error.as_ref()
    }

    /// The options, by index.
    pub fn options(&self) -> (r: &Vec<T>)
        ensures
            r@ == self@.options,
    {
        &self.options
    }

    /// The texts of the options, by index.
    pub fn string_options(&self) -> (r: &Vec<String>)
        ensures
            r@ == self@.texts,
    {
        &self.string_options
    }

    /// The filter, where the prompt filters.
    pub fn input(&self) -> (r: Option<&Input>)
        ensures
            match r {
                Some(input) => self@.filter == Some(input@),
                None => self@.filter is None,
            },
    {
        self.input.as_ref()
    }

    /// The help text, if any.
    pub fn help_message(&self) -> (r: Option<&str>)
        ensures
            match r {
                Some(help) => self@.help_message == Some(help@),
                None => self@.help_message is None,
            },
    {
        self.help_message
    }
}

/// There is one answer to a selection: two lists that both hold the checked
/// options with their indices, by ascending index, are the same.
pub proof fn lemma_selection_unique<T>(
    a: Seq<ListOption<T>>,
    b: Seq<ListOption<T>>,
    checked: Set<usize>,
    options: Seq<T>,
)
    requires
        is_selection_of(a, checked, options),
        is_selection_of(b, checked, options),
    ensures
        a == b,
{
    if a.len() > 0 {
        lemma_selections_agree(a, b, checked, options, a.len() - 1);
    }
    if b.len() > 0 {
        lemma_selections_agree(b, a, checked, options, b.len() - 1);
    }
    assert(a =~= b);
}

proof fn lemma_selections_agree<T>(
    a: Seq<ListOption<T>>,
    b: Seq<ListOption<T>>,
    checked: Set<usize>,
    options: Seq<T>,
    k: int,
)
    requires
        is_selection_of(a, checked, options),
        is_selection_of(b, checked, options),
        0 <= k < a.len(),
    ensures
        k < b.len(),
        forall|j: int| 0 <= j <= k ==> a[j] == b[j],
    decreases k,
{
    if k > 0 {
        lemma_selections_agree(a, b, checked, options, k - 1);
    }
    let x = a[k].index;
    assert(checked.contains(x));
    let m = choose|m: int| 0 <= m < b.len() && (#[trigger] b[m]).index == x;
    if m < k {
        assert(a[m] == b[m]);
        assert(a[m].index < a[k].index);
    } else if m > k {
        let y = b[k].index;
        assert(b[k].index < b[m].index);
        assert(checked.contains(y));
        let w = choose|w: int| 0 <= w < a.len() && (#[trigger] a[w]).index == y;
        if w < k {
            assert(b[w] == a[w]);
            assert(b[w].index < b[k].index);
        } else if w > k {
            assert(a[k].index < a[w].index);
        }
    } else {
        assert(a[k].value == options[x as int]);
        assert(b[k].value == options[x as int]);
    }
}

/// Toggling the option under the cursor twice leaves the checked options as
/// they were.
pub proof fn lemma_toggle_twice<T, S, F>(
    state: MultiSelectView<T, S, F>,
) where S: Fn(&str, &T, &str, usize) -> Option<i64>, F: Fn(&[ListOption<&T>]) -> String
    ensures
        state.toggled().toggled() == state,
{
    if state.has_highlight() {
        let index = state.order[state.cursor as int];
        if state.checked.contains(index) {
            assert(state.checked.remove(index).insert(index) =~= state.checked);
        } else {
            assert(state.checked.insert(index).remove(index) =~= state.checked);
        }
    }
}

/// Two toggle actions in a row that find the same option under the cursor, or
/// both find none, leave the checked options as they were, whatever the
/// first does to the filter.
pub proof fn lemma_toggle_actions_cancel<T, S, F>(
    start: MultiSelectView<T, S, F>,
    between: MultiSelectView<T, S, F>,
    end: MultiSelectView<T, S, F>,
    first: ActionResult,
    second: ActionResult,
) where S: Fn(&str, &T, &str, usize) -> Option<i64>, F: Fn(&[ListOption<&T>]) -> String
    requires
        start.handles(MultiSelectPromptAction::ToggleCurrentOption, between, first),
        between.handles(MultiSelectPromptAction::ToggleCurrentOption, end, second),
        start.has_highlight() == between.has_highlight(),
        start.has_highlight() ==> start.order[start.cursor as int]
            == between.order[between.cursor as int],
    ensures
        end.checked == start.checked,
{
    let action = MultiSelectPromptAction::ToggleCurrentOption;
    lemma_clearing_keeps_checked(start.toggled(), action, between);
    lemma_clearing_keeps_checked(between.toggled(), action, end);
    if start.has_highlight() {
        let index = start.order[start.cursor as int];
        if start.checked.contains(index) {
            assert(start.checked.remove(index).insert(index) =~= start.checked);
        } else {
            assert(start.checked.insert(index).remove(index) =~= start.checked);
        }
    }
}

/// Checking all options and then unchecking all leaves none checked,
/// whatever was checked before and whatever the filter was.
pub proof fn lemma_clear_after_select_all<T, S, F>(
    start: MultiSelectView<T, S, F>,
    between: MultiSelectView<T, S, F>,
    end: MultiSelectView<T, S, F>,
    first: ActionResult,
    second: ActionResult,
) where S: Fn(&str, &T, &str, usize) -> Option<i64>, F: Fn(&[ListOption<&T>]) -> String
    requires
        start.handles(MultiSelectPromptAction::SelectAll, between, first),
        between.handles(MultiSelectPromptAction::ClearSelections, end, second),
    ensures
        between.checked == start.order.to_set(),
        end.checked == Set::<usize>::empty(),
{
    lemma_clearing_keeps_checked(
        start.all_selected(),
        MultiSelectPromptAction::SelectAll,
        between,
    );
    lemma_clearing_keeps_checked(
        between.none_selected(),
        MultiSelectPromptAction::ClearSelections,
        end,
    );
}

/// Emptying the filter leaves the checked options as they are.
pub proof fn lemma_clearing_keeps_checked<T, S, F>(
    before: MultiSelectView<T, S, F>,
    action: MultiSelectPromptAction,
    after: MultiSelectView<T, S, F>,
) where S: Fn(&str, &T, &str, usize) -> Option<i64>, F: Fn(&[ListOption<&T>]) -> String
    requires
        before.filter_cleared_to(action, after),
    ensures
        after.checked == before.checked,
{
}

/// Scoring leaves a prompt in a state to be used.
pub proof fn lemma_rescoring_keeps_wf<T, S, F>(
    before: MultiSelectView<T, S, F>,
    after: MultiSelectView<T, S, F>,
) where S: Fn(&str, &T, &str, usize) -> Option<i64>, F: Fn(&[ListOption<&T>]) -> String
    requires
        before.wf(),
        before.rescores_to(after),
    ensures
        after.wf(),
{
    if before.filter is Some {
        let scores = choose|scores: Seq<Option<i64>>|
            #![trigger is_ranking(after.order, scores)]
            scores_of(before.scorer, before.filter->0, before.options, before.texts, scores)
                && is_ranking(after.order, scores) && after == before.reordered(after.order);
        lemma_ranking_is_order(after.order, scores);
    }
}

/// Handling an action leaves a prompt in a state to be used: the scored
/// order still holds indices of options, none twice, the cursor is still on
/// one of its rows, or 0 where it has none, and what is checked is still an
/// index of an option.
pub proof fn lemma_handling_keeps_wf<T, S, F>(
    before: MultiSelectView<T, S, F>,
    action: MultiSelectPromptAction,
    after: MultiSelectView<T, S, F>,
    result: ActionResult,
) where S: Fn(&str, &T, &str, usize) -> Option<i64>, F: Fn(&[ListOption<&T>]) -> String
    requires
        before.wf(),
        before.handles(action, after, result),
    ensures
        after.wf(),
{
    let len = before.order.len() as int;
    if len > 0 {
        assert(0 <= (before.cursor + 1) % len < len) by (nonlinear_arith)
            requires
                len > 0,
        ;
    }
    match action {
        MultiSelectPromptAction::FilterInput(edit) => {
            if before.filter is Some {
                let text = before.filter->0;
                if Input::reported(text, edit) is ContentChanged {
                    lemma_rescoring_keeps_wf(before.with_filter(Input::edited(text, edit)), after);
                }
            }
        },
        MultiSelectPromptAction::ToggleCurrentOption => {
            let between = before.toggled();
            if between.clears_filter(action) {
                lemma_rescoring_keeps_wf(between.with_filter(Seq::empty()), after);
            }
        },
        MultiSelectPromptAction::SelectAll => {
            let between = before.all_selected();
            assert forall|i: usize| between.checked.contains(i) implies i
                < between.options.len() by {
                let k = choose|k: int| 0 <= k < before.order.len() && before.order[k] == i;
                assert(before.order[k] < before.options.len());
            }
            if between.clears_filter(action) {
                lemma_rescoring_keeps_wf(between.with_filter(Seq::empty()), after);
            }
        },
        MultiSelectPromptAction::ClearSelections => {
            let between = before.none_selected();
            if between.clears_filter(action) {
                lemma_rescoring_keeps_wf(between.with_filter(Seq::empty()), after);
            }
        },
        _ => {},
    }
}

/// Every action that does not end a prompt leaves it in a state to be used.
pub proof fn lemma_steps_keep_wf<T, S, F>(
    before: MultiSelectView<T, S, F>,
    action: Action<MultiSelectPromptAction>,
    after: MultiSelectView<T, S, F>,
    r: InquireResult<Step<Seq<ListOption<T>>>>,
) where S: Fn(&str, &T, &str, usize) -> Option<i64>, F: Fn(&[ListOption<&T>]) -> String
    requires
        before.wf(),
        before.steps(action, after, r),
        !(r matches Ok(Step::Answered(_))),
    ensures
        after.wf(),
{
    match action {
        Action::Inner(inner) => {
            let result = r->Ok_0->Continue_0;
            lemma_handling_keeps_wf(before, inner, after, result);
        },
        _ => {},
    }
}

/// Whatever state a prompt is brought to, it is in a state to be used.
pub proof fn lemma_wf_is_kept<T, S, F>(
    before: MultiSelectView<T, S, F>,
    after: MultiSelectView<T, S, F>,
) where S: Fn(&str, &T, &str, usize) -> Option<i64>, F: Fn(&[ListOption<&T>]) -> String
    requires
        before.wf(),
        before.leads_to(after),
    ensures
        after.wf(),
{
    if before.rescores_to(after) {
        lemma_rescoring_keeps_wf(before, after);
    } else if before.resized_to(after) {
    } else {
        let (action, r) = choose|
            action: Action<MultiSelectPromptAction>,
            r: InquireResult<Step<Seq<ListOption<T>>>>,
        |
            #![trigger before.steps(action, after, r)]
            before.steps(action, after, r) && !(r matches Ok(Step::Answered(_)));
        lemma_steps_keep_wf(before, action, after, r);
    }
}

/// A prompt that does not filter shows every option by ascending index, and
/// goes on doing so: whatever state it is brought to, it does not filter in
/// that state, and its scored order is every index, ascending.
pub proof fn lemma_unfiltered_order_is_fixed<T, S, F>(
    before: MultiSelectView<T, S, F>,
    after: MultiSelectView<T, S, F>,
) where S: Fn(&str, &T, &str, usize) -> Option<i64>, F: Fn(&[ListOption<&T>]) -> String
    requires
        before.wf(),
        before.filter is None,
        before.leads_to(after),
    ensures
        before.order == identity_order(before.options.len()),
        after.wf(),
        after.filter is None,
        after.order == identity_order(after.options.len()),
{
    if before.rescores_to(after) {
    } else if before.resized_to(after) {
    } else {
        let (action, r) = choose|
            action: Action<MultiSelectPromptAction>,
            r: InquireResult<Step<Seq<ListOption<T>>>>,
        |
            #![trigger before.steps(action, after, r)]
            before.steps(action, after, r) && !(r matches Ok(Step::Answered(_)));
        lemma_steps_keep_wf(before, action, after, r);
        match action {
            Action::Inner(inner) => {
                let result = r->Ok_0->Continue_0;
                assert(before.handles(inner, after, result));
            },
            _ => {},
        }
    }
}

} // verus!
