use inquire::{ActionResult, InquireError, ListOption, Step};

#[test]
fn merge_needs_redraw_if_either_does() {
    let clean = ActionResult::Clean;
    let redraw = ActionResult::NeedsRedraw;
    assert_eq!(clean.merge(clean), clean);
    assert_eq!(clean.merge(redraw), redraw);
    assert_eq!(redraw.merge(clean), redraw);
    assert_eq!(redraw.merge(redraw), redraw);
}

#[test]
fn needs_redraw_tells_the_two_apart() {
    assert!(ActionResult::NeedsRedraw.needs_redraw());
    assert!(!ActionResult::Clean.needs_redraw());
}

#[test]
fn list_option_pairs_index_and_value() {
    let option = ListOption::new(3, String::from("Grapes"));
    assert_eq!(option.index, 3);
    assert_eq!(option.value, "Grapes");
    let borrowed = option.as_ref();
    assert_eq!(borrowed.index, 3);
    assert_eq!(borrowed.value, &String::from("Grapes"));
}

#[test]
fn canceled_step_fails_with_cancellation() {
    let step: Step<u8> = Step::Canceled;
    assert!(matches!(step.failure(), Some(InquireError::OperationCanceled)));
}

#[test]
fn interrupted_step_fails_with_interruption() {
    let step: Step<u8> = Step::Interrupted;
    assert!(matches!(step.failure(), Some(InquireError::OperationInterrupted)));
}

#[test]
fn other_steps_do_not_fail() {
    assert!(Step::<u8>::Continue(ActionResult::Clean).failure().is_none());
    assert!(Step::<u8>::Continue(ActionResult::NeedsRedraw).failure().is_none());
    assert!(Step::Answered(7u8).failure().is_none());
}
