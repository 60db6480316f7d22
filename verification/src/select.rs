//! The single-choice prompt.

use vstd::prelude::*;
use core::fmt::Display;
use crate::action::{Action, ActionResult, SelectPromptAction, Step};
use crate::backend::SelectBackend;
use crate::config::{Select, SelectConfig};
use crate::cursor::{cursor_down, cursor_in_bounds, cursor_up, down_target, up_target};
use crate::error::{
    cursor_out_of_bounds_text,
    empty_options_text,
    InquireError,
    InquireResult,
};
use crate::input::{filter_text, starting_filter, Input, InputAction, InputActionResult};
use crate::list_option::ListOption;
use crate::paginate::paginate;
use crate::scoring::{
    all_indices,
    display_texts,
    displays,
    identity_order,
    is_order_of,
    is_ranking,
    rank,
    reconcile_cursor,
    reconciled_cursor,
    lemma_ranking_is_order,
    scored_by,
    scorer_is_total,
    scores_of,
};
use crate::sizing::{
    judge_frame,
    lemma_redraw_commits,
    lemma_redraw_retries,
    lemma_redraw_starts,
    redrawing,
    redraws,
    working_page_size,
    Attempt,
    Measurement,
};

verus! {

/// A prompt that asks for one of a list of options.
///
/// The options keep the indices they are given with. What is on screen is
/// the scored order: the indices of the options that pass the filter, best
/// match first. The cursor is a row of the scored order.
pub struct SelectPrompt<'a, T, S, F> {
    message: &'a str,
    config: SelectConfig,
    options: Vec<T>,
    string_options: Vec<String>,
    scored_options: Vec<usize>,
    help_message: Option<&'a str>,
    cursor_index: usize,
    input: Option<Input>,
    scorer: S,
    formatter: F,
}

/// The state of a single-choice prompt.
pub struct SelectView<T, S, F> {
    /// The question.
    pub message: Seq<char>,
    /// Help text, if any.
    pub help_message: Option<Seq<char>>,
    /// The settings.
    pub config: SelectConfig,
    /// The options, by index.
    pub options: Seq<T>,
    /// The texts of the options, by index.
    pub texts: Seq<String>,
    /// The scored order.
    pub order: Seq<usize>,
    /// The cursor, a row of the scored order.
    pub cursor: usize,
    /// The filter text, where the prompt filters.
    pub filter: Option<Seq<char>>,
    /// Scores an option against the filter text.
    pub scorer: S,
    /// Writes the answer out.
    pub formatter: F,
}

impl<T, S, F> SelectView<T, S, F> where
    S: Fn(&str, &T, &str, usize) -> Option<i64>,
    F: Fn(ListOption<&T>) -> String,
 {
    /// What holds of the state of every prompt from the moment it is made
    /// until its answer is taken: there are options, each with its text; the
    /// scored order holds indices of options, none twice; it holds all of
    /// them in ascending order if the prompt does not filter; the cursor is
    /// on one of its rows, or 0 if it has none.
    pub open spec fn wf(self) -> bool {
        &&& self.options.len() > 0
        &&& self.texts.len() == self.options.len()
        &&& is_order_of(self.order, self.options.len() as int)
        &&& cursor_in_bounds(self.cursor as int, self.order.len() as int)
        &&& self.filter is None ==> self.order == identity_order(self.options.len())
        &&& scorer_is_total::<T, S>(self.scorer)
        &&& self.can_format()
    }

    /// Whether the formatter can be called on every answer.
    pub open spec fn can_format(self) -> bool {
        forall|answer: ListOption<&T>| #[trigger] call_requires(self.formatter, (answer,))
    }

    /// The state with the cursor on `cursor`.
    pub open spec fn with_cursor(self, cursor: usize) -> Self {
        SelectView { cursor, ..self }
    }

    /// The state with `options` for the options.
    pub open spec fn with_options(self, options: Seq<T>) -> Self {
        SelectView { options, ..self }
    }

    /// The state with the page size `page_size`.
    pub open spec fn with_page_size(self, page_size: usize) -> Self {
        SelectView { config: SelectConfig { page_size, ..self.config }, ..self }
    }

    /// The state with the filter text `text`.
    pub open spec fn with_filter(self, text: Seq<char>) -> Self {
        SelectView { filter: Some(text), ..self }
    }

    /// The state after the cursor moved up `qty` rows.
    pub open spec fn moved_up(self, qty: usize, wrap: bool) -> Self {
        self.with_cursor(
            up_target(self.cursor as int, self.order.len() as int, qty as int, wrap) as usize,
        )
    }

    /// The state after the cursor moved down `qty` rows.
    pub open spec fn moved_down(self, qty: usize, wrap: bool) -> Self {
        self.with_cursor(
            down_target(self.cursor as int, self.order.len() as int, qty as int, wrap) as usize,
        )
    }

    /// What a move from this state to `after` reports: a redraw if the
    /// cursor is elsewhere.
    pub open spec fn move_result(self, after: Self) -> ActionResult {
        if after.cursor != self.cursor {
            ActionResult::NeedsRedraw
        } else {
            ActionResult::Clean
        }
    }

    /// The state once the scored order was computed anew as `order`. Where
    /// that is the order there was, nothing changes. Where it is another, it
    /// takes the place of the old one, and the cursor goes to the first row
    /// if the prompt resets it, and else stays, or goes to the last row if
    /// it stood beyond.
    pub open spec fn reordered(self, order: Seq<usize>) -> Self {
        if order == self.order {
            self
        } else {
            SelectView {
                order,
                cursor: reconciled_cursor(self.cursor, order.len() as int, self.config.reset_cursor),
                ..self
            }
        }
    }

    /// Whether `after` is a state that scoring the options in this state
    /// leads to. A prompt that does not filter is left as it is. One that
    /// does has its scorer score each option against the filter text, and is
    /// reordered by those scores.
    pub open spec fn rescores_to(self, after: Self) -> bool {
        match self.filter {
            None => after == self,
            Some(filter) => exists|scores: Seq<Option<i64>>|
                #![trigger is_ranking(after.order, scores)]
                scores_of(self.scorer, filter, self.options, self.texts, scores) && is_ranking(
                    after.order,
                    scores,
                ) && after == self.reordered(after.order),
        }
    }

    /// Whether handling `action` in this state can lead to the state `after`
    /// and report `result`.
    pub open spec fn handles(
        self,
        action: SelectPromptAction,
        after: Self,
        result: ActionResult,
    ) -> bool {
        match action {
            SelectPromptAction::MoveUp => after == self.moved_up(1, self.config.wrap_around)
                && result == self.move_result(after),
            SelectPromptAction::MoveDown => after == self.moved_down(1, self.config.wrap_around)
                && result == self.move_result(after),
            SelectPromptAction::PageUp => after == self.moved_up(self.config.page_size, false)
                && result == self.move_result(after),
            SelectPromptAction::PageDown => after == self.moved_down(self.config.page_size, false)
                && result == self.move_result(after),
            SelectPromptAction::MoveToStart => after == self.moved_up(usize::MAX, false) && result
                == self.move_result(after),
            SelectPromptAction::MoveToEnd => after == self.moved_down(usize::MAX, false) && result
                == self.move_result(after),
            SelectPromptAction::FilterInput(edit) => match self.filter {
                None => after == self && result is Clean,
                Some(text) => match Input::reported(text, edit) {
                    InputActionResult::ContentChanged => self.with_filter(
                        Input::edited(text, edit),
                    ).rescores_to(after) && result is NeedsRedraw,
                    InputActionResult::PositionChanged => after == self && result is NeedsRedraw,
                    InputActionResult::Clean => after == self && result is Clean,
                },
            },
        }
    }

    /// Whether an option is under the cursor.
    pub open spec fn has_answer(self) -> bool {
        self.cursor < self.order.len()
    }

    /// The option under the cursor, with its index.
    pub open spec fn answer(self) -> ListOption<T> {
        ListOption {
            index: self.order[self.cursor as int],
            value: self.options[self.order[self.cursor as int] as int],
        }
    }

    /// What submitting in this state gives: the option under the cursor, or
    /// nothing if there is none.
    pub open spec fn submitted(self) -> Option<ListOption<T>> {
        if self.has_answer() {
            Some(self.answer())
        } else {
            None
        }
    }

    /// Whether `action` in this state can lead to the state `after` and have
    /// the loop do `step` next.
    ///
    /// Submitting ends the prompt with the option under the cursor, and asks
    /// for a redraw where there is none. Canceling and interrupting end it
    /// without an answer. Any other action is handled, and the loop goes on.
    /// Once the answer is taken, the options are no longer what they were,
    /// and all else is.
    pub open spec fn steps(
        self,
        action: Action<SelectPromptAction>,
        after: Self,
        step: Step<ListOption<T>>,
    ) -> bool {
        match action {
            Action::Submit => match self.submitted() {
                Some(answer) => after == self.with_options(after.options) && step
                    == Step::Answered(answer),
                None => after == self && step == Step::<ListOption<T>>::Continue(
                    ActionResult::NeedsRedraw,
                ),
            },
            Action::Cancel => after == self && step == Step::<ListOption<T>>::Canceled,
            Action::Interrupt => after == self && step == Step::<ListOption<T>>::Interrupted,
            Action::Inner(inner) => step matches Step::Continue(result) && self.handles(
                inner,
                after,
                result,
            ),
        }
    }
}

impl<T, S, F> SelectView<T, S, F> where
    S: Fn(&str, &T, &str, usize) -> Option<i64>,
    F: Fn(ListOption<&T>) -> String,
 {
    /// Whether `after` is this state with another page size.
    pub open spec fn resized_to(self, after: Self) -> bool {
        exists|page_size: usize| after == #[trigger] self.with_page_size(page_size)
    }

    /// Whether `after` is a state that a prompt in this state can be brought
    /// to in one go and be used in: by scoring its options, by a redraw, which
    /// can change the page size, or by an action that does not end it.
    pub open spec fn leads_to(self, after: Self) -> bool {
        ||| self.rescores_to(after)
        ||| self.resized_to(after)
        ||| exists|action: Action<SelectPromptAction>, step: Step<ListOption<T>>|
            #![trigger self.steps(action, after, step)]
            self.steps(action, after, step) && !(step is Answered)
    }
}

/// The text of the error that making a prompt from `so` fails with, or
/// `None` if a prompt is made: there have to be options, and the starting
/// cursor has to be an index of the options. The first of the two that is
/// not met gives the error.
pub open spec fn refusal<T, S, F>(so: Select<'_, T, S, F>) -> Option<Seq<char>> {
    let len = so.options.len();
    if len == 0 {
        Some(empty_options_text())
    } else if so.starting_cursor >= len {
        Some(cursor_out_of_bounds_text(so.starting_cursor as nat, len as nat))
    } else {
        None
    }
}

/// The state that a prompt made from `so` starts in, its options having the
/// texts `texts`: every option is in the scored order, by ascending index.
pub open spec fn initial_state<T, S, F>(so: Select<'_, T, S, F>, texts: Seq<String>) -> SelectView<
    T,
    S,
    F,
> {
    SelectView {
        message: so.message@,
        help_message: match so.help_message {
            Some(help) => Some(help@),
            None => None,
        },
        config: SelectConfig {
            page_size: so.page_size,
            reset_cursor: so.reset_cursor,
            wrap_around: so.wrap_around,
        },
        options: so.options@,
        texts,
        order: identity_order(so.options.len() as nat),
        cursor: so.starting_cursor,
        filter: starting_filter(so.filter_input_enabled, so.starting_filter_input),
        scorer: so.scorer,
        formatter: so.formatter,
    }
}

impl<'a, T, S, F> View for SelectPrompt<'a, T, S, F> {
    type V = SelectView<T, S, F>;

    closed spec fn view(&self) -> SelectView<T, S, F> {
        SelectView {
            message: self.message@,
            help_message: match self.help_message {
                Some(help) => Some(help@),
                None => None,
            },
            config: self.config,
            options: self.options@,
            texts: self.string_options@,
            order: self.scored_options@,
            cursor: self.cursor_index,
            filter: match self.input {
                Some(input) => Some(input@),
                None => None,
            },
            scorer: self.scorer,
            formatter: self.formatter,
        }
    }
}

impl<'a, T, S, F> SelectPrompt<'a, T, S, F> where
    T: Display,
    S: Fn(&str, &T, &str, usize) -> Option<i64>,
    F: Fn(ListOption<&T>) -> String,
 {
    /// Whether the prompt is in a state to be used.
    pub open spec fn wf(&self) -> bool {
        self@.wf()
    }

    /// Makes the prompt that `so` describes.
    ///
    /// Fails, with no prompt made, if there are no options or if the starting
    /// cursor is no index of the options. The prompt starts with every option
    /// in the scored order, by ascending index. `setup` then applies the
    /// filter it starts with. The prompt is in a state to be used if its
    /// scorer and its formatter can be called on every input.
    pub fn new(so: Select<'a, T, S, F>) -> (r: InquireResult<Self>)
        ensures
            match refusal(so) {
                Some(text) => r matches Err(InquireError::InvalidConfiguration(given)) && given@
                    == text,
                None => r matches Ok(prompt) && prompt@ == initial_state(so, prompt@.texts)
                    && displays(prompt@.options, prompt@.texts) && (scorer_is_total::<T, S>(
                    so.scorer,
                ) && prompt@.can_format() ==> prompt.wf()),
            },
    {
        if so.options.is_empty() {
            return Err(InquireError::empty_options());
        }
        if so.starting_cursor >= so.options.len() {
            return Err(InquireError::cursor_out_of_bounds(so.starting_cursor, so.options.len()));
        }
        let string_options = display_texts(&so.options);
        let scored_options = all_indices(so.options.len());
        let input = if so.filter_input_enabled {
            Some(
                Input::new_with(
                    match so.starting_filter_input {
                        Some(text) => text.to_owned(),
                        None => String::new(),
                    },
                ),
            )
        } else {
            None
        };
        let prompt = SelectPrompt {
            message: so.message,
            config: SelectConfig {
                page_size: so.page_size,
                reset_cursor: so.reset_cursor,
                wrap_around: so.wrap_around,
            },
            options: so.options,
            string_options,
            scored_options,
            help_message: so.help_message,
            cursor_index: so.starting_cursor,
            input,
            scorer: so.scorer,
            formatter: so.formatter,
        };
        Ok(prompt)
    }

    /// Moves the cursor up `qty` rows, past the first row to the end of the
    /// list if `wrap` is set, and reports whether it moved.
    pub fn move_cursor_up(&mut self, qty: usize, wrap: bool) -> (r: ActionResult)
        requires
            old(self).wf(),
        ensures
            final(self).wf(),
            final(self)@ == old(self)@.moved_up(qty, wrap),
            r == old(self)@.move_result(final(self)@),
            !wrap ==> final(self)@.cursor <= old(self)@.cursor,
    {
        let new_position = cursor_up(self.cursor_index, self.scored_options.len(), qty, wrap);
        self.update_cursor_position(new_position)
    }

    /// Moves the cursor down `qty` rows, past the last row to the start of
    /// the list if `wrap` is set, and reports whether it moved.
    pub fn move_cursor_down(&mut self, qty: usize, wrap: bool) -> (r: ActionResult)
        requires
            old(self).wf(),
        ensures
            final(self).wf(),
            final(self)@ == old(self)@.moved_down(qty, wrap),
            r == old(self)@.move_result(final(self)@),
            !wrap ==> final(self)@.cursor >= old(self)@.cursor,
    {
        let new_position = cursor_down(self.cursor_index, self.scored_options.len(), qty, wrap);
        self.update_cursor_position(new_position)
    }

    /// Puts the cursor on `new_position` and reports whether that is
    /// another row than it was on.
    pub fn update_cursor_position(&mut self, new_position: usize) -> (r: ActionResult)
        ensures
            final(self)@ == old(self)@.with_cursor(new_position),
            r == old(self)@.move_result(final(self)@),
    {
        if new_position != self.cursor_index {
            self.cursor_index = new_position;
            ActionResult::NeedsRedraw
        } else {
            ActionResult::Clean
        }
    }

    /// Whether an option is under the cursor. One is unless the filter
    /// leaves no option.
    pub fn has_answer_highlighted(&mut self) -> (r: bool)
        requires
            old(self).wf(),
        ensures
            *final(self) == *old(self),
            r == old(self)@.has_answer(),
            r == (old(self)@.order.len() > 0),
    {
        self.cursor_index < self.scored_options.len()
    }

    /// Takes the option under the cursor out of the prompt, with its index.
    /// The prompt is spent: what is left of its options is no longer the
    /// list that the indices count in, and all that is in order afterwards
    /// is to write the answer out.
    pub fn get_final_answer(&mut self) -> (r: ListOption<T>)
        requires
            old(self).wf(),
            old(self)@.has_answer(),
        ensures
            r == old(self)@.answer(),
            final(self)@ == old(self)@.with_options(final(self)@.options),
    {
        let index = self.scored_options[self.cursor_index];
        let value = self.options.swap_remove(index);
        ListOption::new(index, value)
    }

    /// Has the scorer score each option against the filter text, or against
    /// the empty text if the prompt does not filter.
    pub fn score_options(&self) -> (scores: Vec<Option<i64>>)
        requires
            self.wf(),
        ensures
            scores_of(
                self@.scorer,
                filter_text(self@.filter),
                self@.options,
                self@.texts,
                scores@,
            ),
    {
        let content = match &self.input {
            Some(input) => input.content(),
            None => "",
        };
        proof {
            reveal_strlit("");
            assert(content@ =~= filter_text(self@.filter));
        }
        let mut scores: Vec<Option<i64>> = Vec::new();
        let mut i: usize = 0;
        while i < self.options.len()
            invariant
                self.wf(),
                i <= self.options.len(),
                scores.len() == i,
                forall|k: int|
                    0 <= k < i ==> scored_by(
                        self@.scorer,
                        content@,
                        self@.options[k],
                        self@.texts[k],
                        k as usize,
                        #[trigger] scores[k],
                    ),
            decreases self.options.len() - i,
        {
            let text = self.string_options[i].as_str();
            let score = (self.scorer)(content, &self.options[i], text, i);
            assert(scored_by(
                self@.scorer,
                content@,
                self@.options[i as int],
                self@.texts[i as int],
                i,
                score,
            )) by {
                assert(call_ensures(self.scorer, (content, &self.options[i as int], text, i), score));
            }
            scores.push(score);
            i += 1;
        }
        scores
    }

    /// Reorders the options by `scores`, which holds the score of each
    /// option, or `None` for an option that is filtered out. A prompt that
    /// does not filter is left as it is.
    pub fn apply_scores(&mut self, scores: &Vec<Option<i64>>)
        requires
            old(self).wf(),
            scores.len() == old(self)@.options.len(),
        ensures
            final(self).wf(),
            old(self)@.filter is None ==> final(self)@ == old(self)@,
            old(self)@.filter is Some ==> is_ranking(final(self)@.order, scores@) && final(self)@
                == old(self)@.reordered(final(self)@.order),
    {
        if self.input.is_none() {
            return ;
        }
        let new_scored_options = rank(scores);
        if self.scored_options == new_scored_options {
            proof {
                assert(self.scored_options@ =~= new_scored_options@);
            }
            return ;
        }
        self.scored_options = new_scored_options;
        self.cursor_index = reconcile_cursor(
            self.cursor_index,
            self.scored_options.len(),
            self.config.reset_cursor,
        );
    }

    /// Computes the scored order anew from the filter text, and puts the
    /// cursor back inside it. A prompt that does not filter is left as it
    /// is.
    pub fn run_scorer(&mut self)
        requires
            old(self).wf(),
        ensures
            final(self).wf(),
            old(self)@.rescores_to(final(self)@),
    {
        if self.input.is_none() {
            return ;
        }
        let scores = self.score_options();
        self.apply_scores(&scores);
    }

    /// The question.
    pub fn message(&self) -> (r: &str)
        ensures
            r@ == self@.message,
    {
        self.message
    }

    /// The settings, with the page size as redraws left it.
    pub fn config(&self) -> (r: &SelectConfig)
        ensures
            *r == self@.config,
    {
        &self.config
    }

    /// Has the formatter write `answer` out.
    pub fn format_answer(&self, answer: &ListOption<T>) -> (r: String)
        requires
            self@.can_format(),
        ensures
            call_ensures(
                self@.formatter,
                (ListOption { index: answer.index, value: &answer.value },),
                r,
            ),
    {
        let borrowed = answer.as_ref();
        assert(call_requires(self@.formatter, (borrowed,)));
        (self.formatter)(borrowed)
    }

    /// Brings the prompt from the state it was made in to the state it is
    /// first drawn in: applies the filter text it starts with.
    pub fn setup(&mut self) -> (r: InquireResult<()>)
        requires
            old(self).wf(),
        ensures
            r is Ok,
            final(self).wf(),
            old(self)@.rescores_to(final(self)@),
    {
        self.run_scorer();
        Ok(())
    }

    /// Takes the answer if there is one. With no option under the cursor
    /// there is none, and the prompt stays as it is.
    pub fn submit(&mut self) -> (r: InquireResult<Option<ListOption<T>>>)
        requires
            old(self).wf(),
        ensures
            r == Ok::<_, InquireError>(old(self)@.submitted()),
            old(self)@.submitted() is None ==> *final(self) == *old(self),
            final(self)@ == old(self)@.with_options(final(self)@.options),
    {
        let answer = if self.has_answer_highlighted() {
            Some(self.get_final_answer())
        } else {
            None
        };
        Ok(answer)
    }

    /// Whether a request to cancel is to be followed. It always is.
    pub fn pre_cancel(&mut self) -> (r: InquireResult<bool>)
        ensures
            r == Ok::<_, InquireError>(true),
            *final(self) == *old(self),
    {
        Ok(true)
    }

    /// Applies an edit to the filter text and reports what it changed, or
    /// `None` if the prompt does not filter. The scored order is left as it
    /// is.
    pub fn edit_filter(&mut self, action: InputAction) -> (r: Option<InputActionResult>)
        requires
            old(self).wf(),
        ensures
            final(self).wf(),
            match old(self)@.filter {
                None => r is None && final(self)@ == old(self)@,
                Some(text) => r == Some(Input::reported(text, action)) && final(self)@ == old(
                    self,
                )@.with_filter(Input::edited(text, action)),
            },
    {
        match &mut self.input {
            Some(input) => Some(input.handle(action)),
            None => None,
        }
    }

    /// Handles one of the prompt's own actions and reports whether the
    /// prompt has to be drawn again.
    pub fn handle(&mut self, action: SelectPromptAction) -> (r: InquireResult<ActionResult>)
        requires
            old(self).wf(),
        ensures
            final(self).wf(),
            r matches Ok(result) && old(self)@.handles(action, final(self)@, result),
    {
        let result = match action {
            SelectPromptAction::MoveUp => self.move_cursor_up(1, self.config.wrap_around),
            SelectPromptAction::MoveDown => self.move_cursor_down(1, self.config.wrap_around),
            SelectPromptAction::PageUp => self.move_cursor_up(self.config.page_size, false),
            SelectPromptAction::PageDown => self.move_cursor_down(self.config.page_size, false),
            SelectPromptAction::MoveToStart => self.move_cursor_up(usize::MAX, false),
            SelectPromptAction::MoveToEnd => self.move_cursor_down(usize::MAX, false),
            SelectPromptAction::FilterInput(input_action) => match self.edit_filter(input_action) {
                Some(InputActionResult::ContentChanged) => {
                    self.run_scorer();
                    ActionResult::NeedsRedraw
                },
                Some(InputActionResult::PositionChanged) => ActionResult::NeedsRedraw,
                Some(InputActionResult::Clean) => ActionResult::Clean,
                None => ActionResult::Clean,
            },
        };
        Ok(result)
    }

    /// Takes one action and tells the loop what to do next.
    pub fn step(&mut self, action: Action<SelectPromptAction>) -> (r: InquireResult<
        Step<ListOption<T>>,
    >)
        requires
            old(self).wf(),
        ensures
            r matches Ok(step) && old(self)@.steps(action, final(self)@, step),
            !(r matches Ok(Step::Answered(_))) ==> final(self).wf(),
    {
        let step = match action {
            Action::Submit => match self.submit()? {
                Some(answer) => Step::Answered(answer),
                None => Step::Continue(ActionResult::NeedsRedraw),
            },
            Action::Cancel => {
                if self.pre_cancel()? {
                    Step::Canceled
                } else {
                    Step::Continue(ActionResult::NeedsRedraw)
                }
            },
            Action::Interrupt => Step::Interrupted,
            Action::Inner(inner) => Step::Continue(self.handle(inner)?),
        };
        Ok(step)
    }

    /// The options of the scored order, in that order, each as its text and
    /// its index.
    pub fn choices(&self) -> (r: Vec<ListOption<&str>>)
        requires
            self.wf(),
        ensures
            r.len() == self@.order.len(),
            forall|k: int|
                0 <= k < r.len() ==> (#[trigger] r[k]).index == self@.order[k] && r[k].value@
                    == self@.texts[self@.order[k] as int]@,
    {
        let mut choices: Vec<ListOption<&str>> = Vec::new();
        let mut k: usize = 0;
        while k < self.scored_options.len()
            invariant
                self.wf(),
                k <= self.scored_options.len(),
                choices.len() == k,
                forall|j: int|
                    0 <= j < k ==> (#[trigger] choices[j]).index == self@.order[j]
                        && choices[j].value@ == self@.texts[self@.order[j] as int]@,
            decreases self.scored_options.len() - k,
        {
            let index = self.scored_options[k];
            choices.push(ListOption::new(index, self.string_options[index].as_str()));
            k += 1;
        }
        choices
    }

    /// Draws the prompt into the open frame of `backend`: the message with
    /// the filter, the page of options around the cursor, and the help text.
    pub fn render<B: SelectBackend>(&self, backend: &mut B) -> (r: InquireResult<()>)
        requires
            self.wf(),
    {
        backend.render_select_prompt(self.message, self.input.as_ref())?;
        let choices = self.choices();
        let page = paginate(self.config.page_size, choices.as_slice(), Some(self.cursor_index));
        backend.render_options(page)?;
        if let Some(help_message) = self.help_message {
            backend.render_help_message(help_message)?;
        }
        Ok(())
    }

    /// Draws the prompt and shows the frame, with as many options as fit the
    /// terminal.
    ///
    /// The prompt is drawn with its page size, and the frame is measured. A
    /// frame that fits the terminal is shown, and so is any frame drawn with
    /// a page size of 1 or less. Any other is thrown away, the page size is
    /// lowered for good, and the prompt is drawn again. A failure of
    /// `backend` ends the redraw at once and is handed on.
    ///
    /// What the frames measure is for `backend` to say. Whatever it is, the
    /// redraw draws no more frames than its working page size, throws away
    /// every frame but the last, succeeds only if the last is one that
    /// commits, and leaves the page size that the measurements lead to.
    pub fn redraw_with_adaptive_page_size<B: SelectBackend>(&mut self, backend: &mut B) -> (r:
        InquireResult<()>)
        requires
            old(self).wf(),
        ensures
            final(self).wf(),
            final(self)@ == old(self)@.with_page_size(final(self)@.config.page_size),
            final(self)@.config.page_size == old(self)@.config.page_size || 1
                <= final(self)@.config.page_size < old(self)@.config.page_size,
            exists|ms: Seq<Measurement>| #[trigger]
                redraws(
                    old(self)@.config.page_size as int,
                    ms,
                    final(self)@.config.page_size as int,
                    r is Ok,
                ),
    {
        let mut page_size: usize = if self.config.page_size < 1 {
            1
        } else {
            self.config.page_size
        };
        let ghost configured = self.config.page_size;
        let ghost mut ms: Seq<Measurement> = Seq::empty();
        proof {
            lemma_redraw_starts(configured);
        }
        loop
            invariant
                self.wf(),
                self@ == old(self)@.with_page_size(self@.config.page_size),
                page_size == working_page_size(self@.config.page_size as int),
                self@.config.page_size == old(self)@.config.page_size || 1
                    <= self@.config.page_size < old(self)@.config.page_size,
                configured == old(self)@.config.page_size,
                redrawing(configured as int, ms, page_size as int, self@.config.page_size as int),
                redraws(configured as int, ms, self@.config.page_size as int, false),
            ensures
                exists|all: Seq<Measurement>| #[trigger]
                    redraws(configured as int, all, self@.config.page_size as int, true),
            decreases page_size,
        {
            backend.frame_setup()?;
            self.render(backend)?;
            let frame = backend.current_flush_height();
            let terminal = backend.current_terminal_height();
            let ghost m = Measurement { frame, terminal };
            match judge_frame(page_size, frame, terminal) {
                Attempt::Commit => {
                    backend.frame_finish(false)?;
                    proof {
                        lemma_redraw_commits(configured, ms, page_size, self.config.page_size, m);
                    }
                    break ;
                },
                Attempt::Retry(next) => {
                    backend.frame_abort()?;
                    proof {
                        lemma_redraw_retries(
                            configured,
                            ms,
                            page_size,
                            self.config.page_size,
                            m,
                            next,
                        );
                        ms = ms.push(m);
                    }
                    page_size = next;
                    self.config.page_size = page_size;
                    let last = if self.scored_options.len() == 0 {
                        0
                    } else {
                        self.scored_options.len() - 1
                    };
                    let _ = self.update_cursor_position(
                        if self.cursor_index < last {
                            self.cursor_index
                        } else {
                            last
                        },
                    );
                },
            }
        }
        let shown: InquireResult<()> = Ok(());
        proof {
            let all = choose|all: Seq<Measurement>| #[trigger]
                redraws(configured as int, all, self@.config.page_size as int, true);
            assert(redraws(
                old(self)@.config.page_size as int,
                all,
                self@.config.page_size as int,
                shown is Ok,
            ));
        }
        shown
    }

    /// The row of the scored order that the cursor is on.
    pub fn cursor_index(&self) -> (r: usize)
        ensures
            r == self@.cursor,
    {
        self.cursor_index
    }

    /// The scored order: the indices of the options that pass the filter,
    /// best match first.
    pub fn scored_options(&self) -> (r: &Vec<usize>)
        ensures
            r@ == self@.order,
    {
        &self.scored_options
    }

    /// The options, by index.
    pub fn options(&self) -> (r: &Vec<T>)
        ensures
            r@ == self@.options,
    {
        &self.options
    }

    /// The texts of the options, by index.
    pub fn string_options(&self) -> (r: &Vec<String>)
        ensures
            r@ == self@.texts,
    {
        &self.string_options
    }

    /// The filter, where the prompt filters.
    pub fn input(&self) -> (r: Option<&Input>)
        ensures
            match r {
                Some(input) => self@.filter == Some(input@),
                None => self@.filter is None,
            },
    {
        self.input.as_ref()
    }

    /// The help text, if any.
    pub fn help_message(&self) -> (r: Option<&str>)
        ensures
            match r {
                Some(help) => self@.help_message == Some(help@),
                None => self@.help_message is None,
            },
    {
        self.help_message
    }
}

/// Scoring leaves a prompt in a state to be used.
pub proof fn lemma_rescoring_keeps_wf<T, S, F>(
    before: SelectView<T, S, F>,
    after: SelectView<T, S, F>,
) where S: Fn(&str, &T, &str, usize) -> Option<i64>, F: Fn(ListOption<&T>) -> String
    requires
        before.wf(),
        before.rescores_to(after),
    ensures
        after.wf(),
{
    if before.filter is Some {
        let scores = choose|scores: Seq<Option<i64>>|
            #![trigger is_ranking(after.order, scores)]
            scores_of(before.scorer, before.filter->0, before.options, before.texts, scores)
                && is_ranking(after.order, scores) && after == before.reordered(after.order);
        lemma_ranking_is_order(after.order, scores);
    }
}

/// Every action that does not end a prompt leaves it in a state to be used:
/// the scored order still holds indices of options, none twice, and the
/// cursor is still on one of its rows, or 0 where it has none.
pub proof fn lemma_steps_keep_wf<T, S, F>(
    before: SelectView<T, S, F>,
    action: Action<SelectPromptAction>,
    after: SelectView<T, S, F>,
    step: Step<ListOption<T>>,
) where S: Fn(&str, &T, &str, usize) -> Option<i64>, F: Fn(ListOption<&T>) -> String
    requires
        before.wf(),
        before.steps(action, after, step),
        !(step is Answered),
    ensures
        after.wf(),
{
    match action {
        Action::Inner(inner) => {
            let result = step->Continue_0;
            assert(before.handles(inner, after, result));
            match inner {
                SelectPromptAction::FilterInput(edit) => {
                    if before.filter is Some {
                        let text = before.filter->0;
                        if Input::reported(text, edit) is ContentChanged {
                            let edited = before.with_filter(Input::edited(text, edit));
                            lemma_rescoring_keeps_wf(edited, after);
                        }
                    }
                },
                _ => {
                    lemma_moves_stay_in_bounds(before, inner, after, result);
                },
            }
        },
        _ => {},
    }
}

/// Whatever state a prompt is brought to, it is in a state to be used.
pub proof fn lemma_wf_is_kept<T, S, F>(
    before: SelectView<T, S, F>,
    after: SelectView<T, S, F>,
) where S: Fn(&str, &T, &str, usize) -> Option<i64>, F: Fn(ListOption<&T>) -> String
    requires
        before.wf(),
        before.leads_to(after),
    ensures
        after.wf(),
{
    if before.rescores_to(after) {
        lemma_rescoring_keeps_wf(before, after);
    } else if before.resized_to(after) {
    } else {
        let (action, step) = choose|action: Action<SelectPromptAction>, step: Step<ListOption<T>>|
            #![trigger before.steps(action, after, step)]
            before.steps(action, after, step) && !(step is Answered);
        lemma_steps_keep_wf(before, action, after, step);
    }
}

/// A prompt that does not filter shows every option by ascending index, and
/// goes on doing so: whatever state it is brought to, it does not filter in
/// that state, and its scored order is every index, ascending.
pub proof fn lemma_unfiltered_order_is_fixed<T, S, F>(
    before: SelectView<T, S, F>,
    after: SelectView<T, S, F>,
) where S: Fn(&str, &T, &str, usize) -> Option<i64>, F: Fn(ListOption<&T>) -> String
    requires
        before.wf(),
        before.filter is None,
        before.leads_to(after),
    ensures
        before.order == identity_order(before.options.len()),
        after.wf(),
        after.filter is None,
        after.order == identity_order(after.options.len()),
{
    if before.rescores_to(after) {
    } else if before.resized_to(after) {
    } else {
        let (action, step) = choose|action: Action<SelectPromptAction>, step: Step<ListOption<T>>|
            #![trigger before.steps(action, after, step)]
            before.steps(action, after, step) && !(step is Answered);
        lemma_steps_keep_wf(before, action, after, step);
        match action {
            Action::Inner(inner) => {
                let result = step->Continue_0;
                assert(before.handles(inner, after, result));
            },
            _ => {},
        }
    }
}

/// Handling an action keeps the cursor on a row of the scored order.
proof fn lemma_moves_stay_in_bounds<T, S, F>(
    before: SelectView<T, S, F>,
    action: SelectPromptAction,
    after: SelectView<T, S, F>,
    result: ActionResult,
) where S: Fn(&str, &T, &str, usize) -> Option<i64>, F: Fn(ListOption<&T>) -> String
    requires
        before.wf(),
        !(action is FilterInput),
        before.handles(action, after, result),
    ensures
        after.wf(),
        after == before.with_cursor(after.cursor),
{
    let len = before.order.len() as int;
    if len > 0 {
        assert(0 <= (before.cursor + 1) % len < len) by (nonlinear_arith)
            requires
                len > 0,
        ;
    }
}

} // verus!
