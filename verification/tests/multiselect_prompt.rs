use std::collections::BTreeSet;

use inquire::backend::{CommonBackend, MultiSelectBackend};
use inquire::{
    Action, ActionResult, CustomUserError, ErrorMessage, Input, InputAction, InquireError,
    InquireResult, ListOption, MultiOptionValidator, MultiSelect, MultiSelectPrompt,
    MultiSelectPromptAction, Page, Step, Validation,
};

type Scorer = fn(&str, &String, &str, usize) -> Option<i64>;
type Formatter = fn(&[ListOption<&String>]) -> String;
type Prompt<'a> = MultiSelectPrompt<'a, String, Scorer, Formatter>;
type Options<'a> = MultiSelect<'a, String, Scorer, Formatter>;

fn keep_all(_filter: &str, _value: &String, _text: &str, _index: usize) -> Option<i64> {
    Some(0)
}

/// Keeps the options whose text holds the filter text, and scores them by
/// how early it occurs.
fn by_position(filter: &str, _value: &String, text: &str, _index: usize) -> Option<i64> {
    text.find(filter).map(|at| -(at as i64))
}

fn joined(answer: &[ListOption<&String>]) -> String {
    answer
        .iter()
        .map(|option| format!("{}={}", option.index, option.value))
        .collect::<Vec<String>>()
        .join(", ")
}

fn fruits() -> Vec<String> {
    vec!["Banana", "Apple", "Strawberry", "Grapes", "Lemon", "Tangerine"]
        .into_iter()
        .map(String::from)
        .collect()
}

fn options_of<'a>(options: Vec<String>, scorer: Scorer) -> Options<'a> {
    MultiSelect::new("Pick some", options, scorer, joined as Formatter)
}

fn prompt_of<'a>(mso: Options<'a>) -> Prompt<'a> {
    match MultiSelectPrompt::new(mso) {
        Ok(prompt) => prompt,
        Err(error) => panic!("prompt was refused: {:?}", error),
    }
}

fn refusal(mso: Options<'_>) -> String {
    match MultiSelectPrompt::new(mso) {
        Ok(_) => panic!("prompt was accepted"),
        Err(InquireError::InvalidConfiguration(text)) => text,
        Err(other) => panic!("wrong error: {:?}", other),
    }
}

fn unfiltered<'a>(options: Vec<String>) -> Prompt<'a> {
    let mut mso = options_of(options, keep_all);
    mso.filter_input_enabled = false;
    prompt_of(mso)
}

/// A prompt that filters by `by_position` and empties its filter when the
/// selection changes.
fn filtered<'a>(options: Vec<String>) -> Prompt<'a> {
    let mut mso = options_of(options, by_position);
    mso.keep_filter = false;
    let mut prompt = prompt_of(mso);
    assert!(prompt.setup().is_ok());
    prompt
}

fn handled(prompt: &mut Prompt<'_>, action: MultiSelectPromptAction) -> ActionResult {
    match prompt.handle(action) {
        Ok(result) => result,
        Err(error) => panic!("handle failed: {:?}", error),
    }
}

fn typed(prompt: &mut Prompt<'_>, text: &str) -> ActionResult {
    handled(
        prompt,
        MultiSelectPromptAction::FilterInput(InputAction::SetContent(String::from(text))),
    )
}

fn checked_of(prompt: &Prompt<'_>) -> Vec<usize> {
    prompt.checked().iter().copied().collect()
}

fn text_of(prompt: &Prompt<'_>) -> Option<String> {
    prompt.input().map(|input| String::from(input.content()))
}

struct AtLeastOne;

impl MultiOptionValidator<String> for AtLeastOne {
    fn validate(&self, input: &[ListOption<&String>]) -> Result<Validation, CustomUserError> {
        if input.is_empty() {
            Ok(Validation::Invalid(ErrorMessage::Custom(String::from(
                "Pick at least one",
            ))))
        } else {
            Ok(Validation::Valid)
        }
    }
}

struct NoLemon;

impl MultiOptionValidator<String> for NoLemon {
    fn validate(&self, input: &[ListOption<&String>]) -> Result<Validation, CustomUserError> {
        if input.iter().any(|option| option.value == "Lemon") {
            Ok(Validation::Invalid(ErrorMessage::Default))
        } else {
            Ok(Validation::Valid)
        }
    }
}

struct Broken;

impl MultiOptionValidator<String> for Broken {
    fn validate(&self, _input: &[ListOption<&String>]) -> Result<Validation, CustomUserError> {
        Err(String::from("validator is out of order"))
    }
}

/// Accepts a selection only if it is handed over by ascending index, and
/// reports what it was handed.
struct InOrder;

impl MultiOptionValidator<String> for InOrder {
    fn validate(&self, input: &[ListOption<&String>]) -> Result<Validation, CustomUserError> {
        let seen: Vec<String> = input
            .iter()
            .map(|option| format!("{}={}", option.index, option.value))
            .collect();
        Ok(Validation::Invalid(ErrorMessage::Custom(seen.join(","))))
    }
}

/// A surface that reports scripted frame heights and records what is drawn.
struct Script {
    frame_heights: Vec<Option<u16>>,
    terminal_height: Option<u16>,
    opened: usize,
    shown: Vec<bool>,
    aborted: usize,
    pages: Vec<Vec<(usize, String)>>,
    marks: Vec<Vec<usize>>,
    errors: Vec<ErrorMessage>,
    drawn: Vec<&'static str>,
}

impl Script {
    fn new(frame_heights: Vec<Option<u16>>, terminal_height: Option<u16>) -> Self {
        Script {
            frame_heights,
            terminal_height,
            opened: 0,
            shown: Vec::new(),
            aborted: 0,
            pages: Vec::new(),
            marks: Vec::new(),
            errors: Vec::new(),
            drawn: Vec::new(),
        }
    }
}

impl CommonBackend for Script {
    fn frame_setup(&mut self) -> InquireResult<()> {
        self.opened += 1;
        Ok(())
    }

    fn frame_finish(&mut self, is_last_frame: bool) -> InquireResult<()> {
        self.shown.push(is_last_frame);
        Ok(())
    }

    fn frame_abort(&mut self) -> InquireResult<()> {
        self.aborted += 1;
        Ok(())
    }

    fn current_flush_height(&self) -> Option<u16> {
        match self.frame_heights.get(self.opened - 1) {
            Some(height) => *height,
            None => Some(1),
        }
    }

    fn current_terminal_height(&self) -> Option<u16> {
        self.terminal_height
    }

    fn render_error_message(&mut self, error: &ErrorMessage) -> InquireResult<()> {
        self.drawn.push("error");
        self.errors.push(match error {
            ErrorMessage::Default => ErrorMessage::Default,
            ErrorMessage::Custom(text) => ErrorMessage::Custom(text.clone()),
        });
        Ok(())
    }

    fn render_help_message(&mut self, _help: &str) -> InquireResult<()> {
        self.drawn.push("help");
        Ok(())
    }

    fn render_canceled_prompt(&mut self, _prompt: &str) -> InquireResult<()> {
        Ok(())
    }

    fn render_prompt_with_answer(&mut self, _prompt: &str, _answer: &str) -> InquireResult<()> {
        Ok(())
    }
}

impl MultiSelectBackend for Script {
    fn render_multiselect_prompt(
        &mut self,
        _prompt: &str,
        _cur_input: Option<&Input>,
    ) -> InquireResult<()> {
        self.drawn.push("prompt");
        Ok(())
    }

    fn render_options(
        &mut self,
        page: Page<'_, ListOption<&str>>,
        checked: &BTreeSet<usize>,
    ) -> InquireResult<()> {
        self.drawn.push("options");
        self.pages.push(
            page.content
                .iter()
                .map(|option| (option.index, String::from(option.value)))
                .collect(),
        );
        self.marks.push(checked.iter().copied().collect());
        Ok(())
    }
}

#[test]
fn multiselect_new_rejects_empty_options() {
    let text = refusal(options_of(Vec::new(), keep_all));
    assert_eq!(text, "Available options can not be empty");
}

#[test]
fn multiselect_new_rejects_starting_cursor_equal_to_length() {
    let mut mso = options_of(fruits(), keep_all);
    mso.starting_cursor = 6;
    assert_eq!(
        refusal(mso),
        "Starting cursor index 6 is out-of-bounds for length 6 of options"
    );
}

#[test]
fn multiselect_new_rejects_default_index_equal_to_length() {
    let mut mso = options_of(fruits(), keep_all);
    mso.default = Some(vec![0, 6]);
    assert_eq!(refusal(mso), "Index 6 is out-of-bounds for length 6 of options");
}

#[test]
fn multiselect_new_names_first_default_out_of_bounds() {
    let mut mso = options_of(fruits(), keep_all);
    mso.default = Some(vec![2, 40, 1, 17]);
    assert_eq!(refusal(mso), "Index 40 is out-of-bounds for length 6 of options");
}

#[test]
fn multiselect_new_reports_cursor_before_defaults() {
    let mut mso = options_of(fruits(), keep_all);
    mso.starting_cursor = 9;
    mso.default = Some(vec![40]);
    assert_eq!(
        refusal(mso),
        "Starting cursor index 9 is out-of-bounds for length 6 of options"
    );
}

#[test]
fn multiselect_new_checks_the_defaults() {
    let mut mso = options_of(fruits(), keep_all);
    mso.default = Some(vec![5, 1, 5, 3]);
    mso.starting_cursor = 2;
    let prompt = prompt_of(mso);
    assert_eq!(checked_of(&prompt), vec![1, 3, 5]);
    assert_eq!(prompt.cursor_index(), 2);
    assert_eq!(prompt.scored_options(), &vec![0, 1, 2, 3, 4, 5]);
    assert!(prompt.error().is_none());
    assert_eq!(prompt.message(), "Pick some");
    assert_eq!(prompt.options(), &fruits());
    assert_eq!(prompt.string_options(), &fruits());
    assert!(prompt.help_message().is_none());
}

#[test]
fn multiselect_new_without_defaults_checks_nothing() {
    let prompt = prompt_of(options_of(fruits(), keep_all));
    assert!(prompt.checked().is_empty());
    let mut mso = options_of(fruits(), keep_all);
    mso.default = Some(Vec::new());
    let prompt = prompt_of(mso);
    assert!(prompt.checked().is_empty());
}

#[test]
fn multiselect_defaults() {
    let mso = options_of(fruits(), keep_all);
    assert_eq!(mso.page_size, 7);
    assert_eq!(mso.starting_cursor, 0);
    assert!(mso.wrap_around);
    assert!(mso.reset_cursor);
    assert!(mso.filter_input_enabled);
    assert!(mso.keep_filter);
    assert!(mso.default.is_none());
    assert!(mso.validator.is_none());
}

#[test]
fn multiselect_toggled_first_and_third_are_answered_in_order() {
    let options = vec![String::from("opt0"), String::from("opt1"), String::from("opt2")];
    let mut prompt = prompt_of(options_of(options, keep_all));
    assert!(prompt.setup().is_ok());
    let actions = vec![
        MultiSelectPromptAction::ToggleCurrentOption,
        MultiSelectPromptAction::MoveDown,
        MultiSelectPromptAction::MoveDown,
        MultiSelectPromptAction::ToggleCurrentOption,
    ];
    for action in actions {
        match prompt.step(Action::Inner(action)) {
            Ok(Step::Continue(ActionResult::NeedsRedraw)) => {}
            other => panic!("wrong step: {:?}", other),
        }
    }
    match prompt.step(Action::Submit) {
        Ok(Step::Answered(answer)) => assert_eq!(
            answer,
            vec![
                ListOption::new(0, String::from("opt0")),
                ListOption::new(2, String::from("opt2")),
            ]
        ),
        other => panic!("wrong step: {:?}", other),
    }
}

#[test]
fn multiselect_rejected_empty_selection_keeps_the_loop_running() {
    let mut mso = options_of(fruits(), keep_all);
    mso.validator = Some(Box::new(AtLeastOne));
    let mut prompt = prompt_of(mso);
    assert!(prompt.setup().is_ok());
    match prompt.step(Action::Submit) {
        Ok(Step::Continue(ActionResult::NeedsRedraw)) => {}
        other => panic!("wrong step: {:?}", other),
    }
    assert_eq!(
        prompt.error(),
        Some(&ErrorMessage::Custom(String::from("Pick at least one")))
    );
    // the prompt goes on: checking an option makes the next submit pass
    handled(&mut prompt, MultiSelectPromptAction::ToggleCurrentOption);
    match prompt.step(Action::Submit) {
        Ok(Step::Answered(answer)) => {
            assert_eq!(answer, vec![ListOption::new(0, String::from("Banana"))])
        }
        other => panic!("wrong step: {:?}", other),
    }
}

#[test]
fn multiselect_toggle_twice_leaves_checked_unchanged() {
    let mut mso = options_of(fruits(), keep_all);
    mso.default = Some(vec![1, 4]);
    let mut prompt = prompt_of(mso);
    for row in 0..6 {
        assert_eq!(prompt.update_cursor_position(row), if row == 0 {
            ActionResult::Clean
        } else {
            ActionResult::NeedsRedraw
        });
        assert_eq!(prompt.toggle_cursor_selection(), ActionResult::NeedsRedraw);
        assert_ne!(checked_of(&prompt), vec![1, 4]);
        assert_eq!(prompt.toggle_cursor_selection(), ActionResult::NeedsRedraw);
        assert_eq!(checked_of(&prompt), vec![1, 4]);
    }
}

#[test]
fn multiselect_toggle_checks_and_unchecks() {
    let mut prompt = unfiltered(fruits());
    handled(&mut prompt, MultiSelectPromptAction::MoveDown);
    assert_eq!(
        handled(&mut prompt, MultiSelectPromptAction::ToggleCurrentOption),
        ActionResult::NeedsRedraw
    );
    assert_eq!(checked_of(&prompt), vec![1]);
    handled(&mut prompt, MultiSelectPromptAction::MoveToEnd);
    handled(&mut prompt, MultiSelectPromptAction::ToggleCurrentOption);
    assert_eq!(checked_of(&prompt), vec![1, 5]);
    handled(&mut prompt, MultiSelectPromptAction::MoveToStart);
    handled(&mut prompt, MultiSelectPromptAction::MoveDown);
    handled(&mut prompt, MultiSelectPromptAction::ToggleCurrentOption);
    assert_eq!(checked_of(&prompt), vec![5]);
}

#[test]
fn multiselect_toggle_uses_canonical_index_under_filter() {
    let mut mso = options_of(fruits(), by_position);
    mso.keep_filter = true;
    let mut prompt = prompt_of(mso);
    assert!(prompt.setup().is_ok());
    typed(&mut prompt, "an");
    assert_eq!(prompt.scored_options(), &vec![0, 5]);
    handled(&mut prompt, MultiSelectPromptAction::MoveDown);
    handled(&mut prompt, MultiSelectPromptAction::ToggleCurrentOption);
    assert_eq!(checked_of(&prompt), vec![5]);
    // the filter text stays, and so does the order
    assert_eq!(text_of(&prompt), Some(String::from("an")));
    assert_eq!(prompt.scored_options(), &vec![0, 5]);
}

#[test]
fn multiselect_toggle_with_nothing_under_cursor_is_clean() {
    let mut mso = options_of(fruits(), by_position);
    mso.keep_filter = true;
    mso.default = Some(vec![2]);
    let mut prompt = prompt_of(mso);
    assert!(prompt.setup().is_ok());
    typed(&mut prompt, "zzz");
    assert!(prompt.scored_options().is_empty());
    assert_eq!(prompt.toggle_cursor_selection(), ActionResult::Clean);
    assert_eq!(
        handled(&mut prompt, MultiSelectPromptAction::ToggleCurrentOption),
        ActionResult::Clean
    );
    assert_eq!(checked_of(&prompt), vec![2]);
}

#[test]
fn multiselect_toggle_with_nothing_under_cursor_still_empties_filter() {
    let mut prompt = filtered(fruits());
    typed(&mut prompt, "zzz");
    assert!(prompt.scored_options().is_empty());
    assert_eq!(
        handled(&mut prompt, MultiSelectPromptAction::ToggleCurrentOption),
        ActionResult::NeedsRedraw
    );
    assert!(prompt.checked().is_empty());
    assert_eq!(text_of(&prompt), Some(String::new()));
    assert_eq!(prompt.scored_options(), &vec![0, 1, 2, 3, 4, 5]);
}

#[test]
fn multiselect_checked_options_stay_checked_while_filtered_out() {
    let mut mso = options_of(fruits(), by_position);
    mso.default = Some(vec![1, 4]);
    let mut prompt = prompt_of(mso);
    assert!(prompt.setup().is_ok());
    typed(&mut prompt, "an");
    assert_eq!(prompt.scored_options(), &vec![0, 5]);
    assert_eq!(checked_of(&prompt), vec![1, 4]);
    match prompt.submit() {
        Ok(Some(answer)) => assert_eq!(
            answer,
            vec![
                ListOption::new(1, String::from("Apple")),
                ListOption::new(4, String::from("Lemon")),
            ]
        ),
        other => panic!("no answer: {:?}", other),
    }
}

#[test]
fn multiselect_select_all_checks_the_visible_options() {
    let mut mso = options_of(fruits(), by_position);
    mso.default = Some(vec![1]);
    let mut prompt = prompt_of(mso);
    assert!(prompt.setup().is_ok());
    typed(&mut prompt, "an");
    assert_eq!(
        handled(&mut prompt, MultiSelectPromptAction::SelectAll),
        ActionResult::NeedsRedraw
    );
    // what was checked and is filtered out is unchecked
    assert_eq!(checked_of(&prompt), vec![0, 5]);
}

#[test]
fn multiselect_select_all_without_filter_checks_everything() {
    let mut prompt = unfiltered(fruits());
    handled(&mut prompt, MultiSelectPromptAction::SelectAll);
    assert_eq!(checked_of(&prompt), vec![0, 1, 2, 3, 4, 5]);
}

#[test]
fn multiselect_select_all_then_clear_yields_empty_set() {
    for keep_filter in [true, false] {
        let mut mso = options_of(fruits(), by_position);
        mso.default = Some(vec![1, 2, 3]);
        mso.keep_filter = keep_filter;
        let mut prompt = prompt_of(mso);
        assert!(prompt.setup().is_ok());
        typed(&mut prompt, "e");
        handled(&mut prompt, MultiSelectPromptAction::SelectAll);
        assert_eq!(
            handled(&mut prompt, MultiSelectPromptAction::ClearSelections),
            ActionResult::NeedsRedraw
        );
        assert!(prompt.checked().is_empty());
    }
}

#[test]
fn multiselect_clear_empties_any_selection() {
    let mut mso = options_of(fruits(), keep_all);
    mso.default = Some(vec![0, 2, 4]);
    let mut prompt = prompt_of(mso);
    prompt.clear_selections();
    assert!(prompt.checked().is_empty());
    prompt.select_all();
    assert_eq!(checked_of(&prompt), vec![0, 1, 2, 3, 4, 5]);
}

#[test]
fn multiselect_selection_change_empties_filter() {
    let mut prompt = filtered(fruits());
    typed(&mut prompt, "an");
    handled(&mut prompt, MultiSelectPromptAction::MoveDown);
    assert_eq!(prompt.cursor_index(), 1);
    assert_eq!(
        handled(&mut prompt, MultiSelectPromptAction::ToggleCurrentOption),
        ActionResult::NeedsRedraw
    );
    assert_eq!(checked_of(&prompt), vec![5]);
    assert_eq!(text_of(&prompt), Some(String::new()));
    // every option is back, and the cursor went to the first row with the
    // new order
    assert_eq!(prompt.scored_options(), &vec![0, 1, 2, 3, 4, 5]);
    assert_eq!(prompt.cursor_index(), 0);
}

#[test]
fn multiselect_moves_do_not_empty_filter() {
    let mut prompt = filtered(fruits());
    typed(&mut prompt, "an");
    for action in [
        MultiSelectPromptAction::MoveDown,
        MultiSelectPromptAction::MoveUp,
        MultiSelectPromptAction::PageDown,
        MultiSelectPromptAction::PageUp,
        MultiSelectPromptAction::MoveToEnd,
        MultiSelectPromptAction::MoveToStart,
        MultiSelectPromptAction::FilterInput(InputAction::MoveCursor),
    ] {
        handled(&mut prompt, action);
        assert_eq!(text_of(&prompt), Some(String::from("an")));
        assert_eq!(prompt.scored_options(), &vec![0, 5]);
    }
}

#[test]
fn multiselect_clear_input_if_needed_cases() {
    let toggle = MultiSelectPromptAction::ToggleCurrentOption;
    // keeps the filter if told to
    let mut mso = options_of(fruits(), by_position);
    mso.keep_filter = true;
    let mut prompt = prompt_of(mso);
    typed(&mut prompt, "an");
    assert_eq!(prompt.clear_input_if_needed(&toggle), ActionResult::Clean);
    assert_eq!(text_of(&prompt), Some(String::from("an")));
    // nothing to empty without a filter
    let mut prompt = unfiltered(fruits());
    assert_eq!(prompt.clear_input_if_needed(&toggle), ActionResult::Clean);
    // nothing to empty without text
    let mut prompt = filtered(fruits());
    assert_eq!(prompt.clear_input_if_needed(&toggle), ActionResult::Clean);
    // not after a move
    typed(&mut prompt, "an");
    assert_eq!(
        prompt.clear_input_if_needed(&MultiSelectPromptAction::MoveDown),
        ActionResult::Clean
    );
    assert_eq!(text_of(&prompt), Some(String::from("an")));
    // after each action on the selection
    for action in [
        MultiSelectPromptAction::ToggleCurrentOption,
        MultiSelectPromptAction::SelectAll,
        MultiSelectPromptAction::ClearSelections,
    ] {
        typed(&mut prompt, "an");
        assert_eq!(prompt.clear_input_if_needed(&action), ActionResult::NeedsRedraw);
        assert_eq!(text_of(&prompt), Some(String::new()));
        assert_eq!(prompt.scored_options().len(), 6);
    }
}

#[test]
fn multiselect_unfiltered_order_is_identity_at_all_times() {
    let mut prompt = unfiltered(fruits());
    let identity = vec![0, 1, 2, 3, 4, 5];
    assert!(prompt.setup().is_ok());
    assert_eq!(prompt.scored_options(), &identity);
    for action in [
        MultiSelectPromptAction::FilterInput(InputAction::SetContent(String::from("an"))),
        MultiSelectPromptAction::MoveDown,
        MultiSelectPromptAction::ToggleCurrentOption,
        MultiSelectPromptAction::SelectAll,
        MultiSelectPromptAction::ClearSelections,
        MultiSelectPromptAction::MoveToEnd,
        MultiSelectPromptAction::PageUp,
    ] {
        handled(&mut prompt, action);
        assert_eq!(prompt.scored_options(), &identity);
    }
    prompt.apply_scores(&vec![None, Some(1), None, Some(2), None, None]);
    assert_eq!(prompt.scored_options(), &identity);
}

#[test]
fn multiselect_move_wraps_and_clamps() {
    let mut mso = options_of(fruits(), keep_all);
    mso.page_size = 4;
    let mut prompt = prompt_of(mso);
    assert_eq!(handled(&mut prompt, MultiSelectPromptAction::MoveUp), ActionResult::NeedsRedraw);
    assert_eq!(prompt.cursor_index(), 5);
    assert_eq!(handled(&mut prompt, MultiSelectPromptAction::MoveDown), ActionResult::NeedsRedraw);
    assert_eq!(prompt.cursor_index(), 0);
    assert_eq!(handled(&mut prompt, MultiSelectPromptAction::PageUp), ActionResult::Clean);
    assert_eq!(prompt.cursor_index(), 0);
    handled(&mut prompt, MultiSelectPromptAction::PageDown);
    assert_eq!(prompt.cursor_index(), 4);
    handled(&mut prompt, MultiSelectPromptAction::PageDown);
    assert_eq!(prompt.cursor_index(), 5);
    assert_eq!(prompt.move_cursor_up(2, false), ActionResult::NeedsRedraw);
    assert_eq!(prompt.cursor_index(), 3);
    assert_eq!(prompt.move_cursor_down(5, true), ActionResult::NeedsRedraw);
    assert_eq!(prompt.cursor_index(), 2);
}

#[test]
fn multiselect_filter_orders_by_score_then_index() {
    let mut prompt = filtered(fruits());
    assert_eq!(typed(&mut prompt, "e"), ActionResult::NeedsRedraw);
    assert_eq!(prompt.scored_options(), &vec![4, 1, 3, 5, 2]);
    assert_eq!(
        prompt.score_options(),
        vec![None, Some(-4), Some(-6), Some(-4), Some(-1), Some(-4)]
    );
    prompt.apply_scores(&vec![Some(2), Some(2), None, Some(7), None, Some(2)]);
    assert_eq!(prompt.scored_options(), &vec![3, 0, 1, 5]);
}

#[test]
fn multiselect_submit_without_validator_yields_ascending_pairs() {
    let mut mso = options_of(fruits(), keep_all);
    mso.default = Some(vec![5, 0, 3, 4]);
    let mut prompt = prompt_of(mso);
    assert!(matches!(prompt.validate_current_answer(), Ok(Validation::Valid)));
    match prompt.submit() {
        Ok(Some(answer)) => assert_eq!(
            answer,
            vec![
                ListOption::new(0, String::from("Banana")),
                ListOption::new(3, String::from("Grapes")),
                ListOption::new(4, String::from("Lemon")),
                ListOption::new(5, String::from("Tangerine")),
            ]
        ),
        other => panic!("no answer: {:?}", other),
    }
}

#[test]
fn multiselect_submit_of_everything() {
    let mut prompt = unfiltered(fruits());
    prompt.select_all();
    let answer = prompt.get_final_answer();
    let expected: Vec<ListOption<String>> = fruits()
        .into_iter()
        .enumerate()
        .map(|(index, value)| ListOption::new(index, value))
        .collect();
    assert_eq!(answer, expected);
}

#[test]
fn multiselect_submit_of_nothing_without_validator_is_empty_answer() {
    let mut prompt = unfiltered(fruits());
    match prompt.step(Action::Submit) {
        Ok(Step::Answered(answer)) => assert!(answer.is_empty()),
        other => panic!("wrong step: {:?}", other),
    }
}

#[test]
fn multiselect_validator_sees_checked_options_in_ascending_order() {
    let mut mso = options_of(fruits(), keep_all);
    mso.default = Some(vec![4, 1, 3]);
    mso.validator = Some(Box::new(InOrder));
    let mut prompt = prompt_of(mso);
    assert!(matches!(prompt.submit(), Ok(None)));
    assert_eq!(
        prompt.error(),
        Some(&ErrorMessage::Custom(String::from("1=Apple,3=Grapes,4=Lemon")))
    );
    let selected = prompt.checked_options();
    assert_eq!(selected.len(), 3);
    assert_eq!(selected[0], ListOption::new(1, &String::from("Apple")));
    assert_eq!(selected[2], ListOption::new(4, &String::from("Lemon")));
}

#[test]
fn multiselect_rejection_keeps_selection_and_attaches_default_message() {
    let mut mso = options_of(fruits(), keep_all);
    mso.default = Some(vec![0, 4]);
    mso.validator = Some(Box::new(NoLemon));
    let mut prompt = prompt_of(mso);
    assert!(matches!(
        prompt.validate_current_answer(),
        Ok(Validation::Invalid(ErrorMessage::Default))
    ));
    assert!(matches!(prompt.submit(), Ok(None)));
    assert_eq!(prompt.error(), Some(&ErrorMessage::Default));
    assert_eq!(checked_of(&prompt), vec![0, 4]);
    assert_eq!(prompt.options(), &fruits());
}

#[test]
fn multiselect_accepting_validator_yields_the_answer() {
    let mut mso = options_of(fruits(), keep_all);
    mso.default = Some(vec![0, 2]);
    mso.validator = Some(Box::new(NoLemon));
    let mut prompt = prompt_of(mso);
    match prompt.submit() {
        Ok(Some(answer)) => assert_eq!(
            answer,
            vec![
                ListOption::new(0, String::from("Banana")),
                ListOption::new(2, String::from("Strawberry")),
            ]
        ),
        other => panic!("no answer: {:?}", other),
    }
}

#[test]
fn multiselect_failing_validator_fails_the_submit() {
    let mut mso = options_of(fruits(), keep_all);
    mso.default = Some(vec![0]);
    mso.validator = Some(Box::new(Broken));
    let mut prompt = prompt_of(mso);
    match prompt.step(Action::Submit) {
        Err(InquireError::Custom(text)) => assert_eq!(text, "validator is out of order"),
        other => panic!("wrong step: {:?}", other),
    }
    assert!(prompt.error().is_none());
    assert_eq!(checked_of(&prompt), vec![0]);
}

#[test]
fn multiselect_conclude_follows_the_verdict() {
    let mut mso = options_of(fruits(), keep_all);
    mso.default = Some(vec![3]);
    let mut prompt = prompt_of(mso);
    let verdict = Validation::Invalid(ErrorMessage::Custom(String::from("no")));
    assert!(prompt.conclude(verdict).is_none());
    assert_eq!(prompt.error(), Some(&ErrorMessage::Custom(String::from("no"))));
    let verdict = Validation::Invalid(ErrorMessage::Default);
    assert!(prompt.conclude(verdict).is_none());
    assert_eq!(prompt.error(), Some(&ErrorMessage::Default));
    assert_eq!(
        prompt.conclude(Validation::Valid),
        Some(vec![ListOption::new(3, String::from("Grapes"))])
    );
}

#[test]
fn multiselect_cancel_and_interrupt_end_the_prompt() {
    let mut mso = options_of(fruits(), keep_all);
    mso.validator = Some(Box::new(Broken));
    let mut prompt = prompt_of(mso);
    assert!(matches!(prompt.step(Action::Cancel), Ok(Step::Canceled)));
    assert!(matches!(prompt.step(Action::Interrupt), Ok(Step::Interrupted)));
    assert!(matches!(prompt.pre_cancel(), Ok(true)));
}

#[test]
fn multiselect_format_answer_calls_formatter() {
    let prompt = unfiltered(fruits());
    let answer = vec![
        ListOption::new(1, String::from("Apple")),
        ListOption::new(4, String::from("Lemon")),
    ];
    assert_eq!(prompt.format_answer(&answer), "1=Apple, 4=Lemon");
    assert_eq!(prompt.format_answer(&Vec::new()), "");
}

#[test]
fn multiselect_render_draws_error_first_and_marks_checked() {
    let mut mso = options_of(fruits(), keep_all);
    mso.default = Some(vec![4, 0]);
    mso.help_message = Some("space to check");
    mso.page_size = 2;
    let mut prompt = prompt_of(mso);
    let mut surface = Script::new(Vec::new(), None);
    assert!(prompt.render(&mut surface).is_ok());
    assert_eq!(surface.drawn, vec!["prompt", "options", "help"]);
    assert_eq!(
        surface.pages,
        vec![vec![(0, String::from("Banana")), (1, String::from("Apple"))]]
    );
    assert_eq!(surface.marks, vec![vec![0, 4]]);
    assert!(prompt
        .conclude(Validation::Invalid(ErrorMessage::Custom(String::from("no"))))
        .is_none());
    let mut surface = Script::new(Vec::new(), None);
    assert!(prompt.render(&mut surface).is_ok());
    assert_eq!(surface.drawn, vec!["error", "prompt", "options", "help"]);
    assert_eq!(surface.errors, vec![ErrorMessage::Custom(String::from("no"))]);
}

#[test]
fn multiselect_redraw_shrinks_page_of_50_to_16() {
    let options: Vec<String> = (0..200).map(|i| format!("option {}", i)).collect();
    let mut mso = options_of(options, keep_all);
    mso.page_size = 50;
    mso.default = Some(vec![7]);
    let mut prompt = prompt_of(mso);
    let mut surface = Script::new(vec![Some(60), Some(20)], Some(20));
    assert!(prompt.redraw_with_adaptive_page_size(&mut surface).is_ok());
    assert_eq!(prompt.config().page_size, 16);
    assert_eq!(surface.opened, 2);
    assert_eq!(surface.aborted, 1);
    assert_eq!(surface.shown, vec![false]);
    assert_eq!(surface.pages[0].len(), 50);
    assert_eq!(surface.pages[1].len(), 16);
    assert_eq!(checked_of(&prompt), vec![7]);
    assert_eq!(prompt.cursor_index(), 0);
}

#[test]
fn multiselect_redraw_commits_within_page_size_attempts() {
    for start in 1usize..10 {
        let mut mso = options_of(fruits(), keep_all);
        mso.page_size = start;
        let mut prompt = prompt_of(mso);
        let mut surface = Script::new(vec![Some(u16::MAX); 20], Some(u16::MAX - 1));
        assert!(prompt.redraw_with_adaptive_page_size(&mut surface).is_ok());
        assert_eq!(prompt.config().page_size, 1);
        assert_eq!(surface.opened, start);
        assert_eq!(surface.aborted, start - 1);
    }
}

#[test]
fn multiselect_session_redraws_with_the_error_after_a_rejected_submit() {
    let mut mso = options_of(fruits(), keep_all);
    mso.validator = Some(Box::new(AtLeastOne));
    let mut prompt = prompt_of(mso);
    assert!(prompt.setup().is_ok());
    let mut surface = Script::new(Vec::new(), Some(24));
    let mut redraw = ActionResult::NeedsRedraw;
    let mut answer = None;
    for action in [
        Action::Submit,
        Action::Inner(MultiSelectPromptAction::MoveDown),
        Action::Inner(MultiSelectPromptAction::ToggleCurrentOption),
        Action::Submit,
    ] {
        if redraw.needs_redraw() {
            assert!(prompt.redraw_with_adaptive_page_size(&mut surface).is_ok());
        }
        match prompt.step(action) {
            Ok(Step::Continue(result)) => redraw = result,
            Ok(Step::Answered(given)) => {
                answer = Some(given);
                break;
            }
            other => panic!("wrong step: {:?}", other),
        }
    }
    assert_eq!(answer, Some(vec![ListOption::new(1, String::from("Apple"))]));
    assert_eq!(surface.opened, 4);
    // the first frame has no error to show, the later ones have
    assert_eq!(surface.drawn[0], "prompt");
    assert_eq!(surface.errors.len(), 3);
    assert_eq!(surface.marks, vec![vec![], vec![], vec![], vec![1]]);
}
