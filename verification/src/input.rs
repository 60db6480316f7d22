//! The filter text of a prompt.
//!
//! The text is typed into an editing buffer that lives outside this crate.
//! The prompt keeps the text as it stands after each edit: that is all it
//! needs to score its options.

use vstd::prelude::*;

verus! {

/// What handling an [`InputAction`] did to the filter.
#[derive(Clone, Copy, Debug, PartialEq, Eq, Structural)]
pub enum InputActionResult {
    /// The text is no longer what it was.
    ContentChanged,
    /// The text is what it was, the caret is elsewhere.
    PositionChanged,
    /// Nothing changed.
    Clean,
}

/// An edit of the filter, as the editing buffer reports it.
#[derive(Debug, PartialEq, Eq)]
pub enum InputAction {
    /// The buffer now holds this text.
    SetContent(String),
    /// The caret moved and the text stayed.
    MoveCursor,
}

/// The filter text.
#[derive(Debug)]
pub struct Input {
    content: String,
}

impl View for Input {
    type V = Seq<char>;

    closed spec fn view(&self) -> Seq<char> {
        self.content@
    }
}

impl Input {
    /// A filter that holds `content`.
    pub fn new_with(content: String) -> (r: Self)
        ensures
            r@ == content@,
    {
        Input { content }
    }

    /// The text.
    pub fn content(&self) -> (r: &str)
        ensures
            r@ == self@,
    {
        self.content.as_str()
    }

    /// Whether the text is empty.
    pub fn is_empty(&self) -> (r: bool)
        ensures
            r == (self@.len() == 0),
    {
        self.content.as_str().is_empty()
    }

    /// Empties the text.
    pub fn clear(&mut self)
        ensures
            final(self)@ == Seq::<char>::empty(),
    {
        self.content = String::new();
    }

    /// Text after `action`, from the text `before` it.
    pub open spec fn edited(before: Seq<char>, action: InputAction) -> Seq<char> {
        match action {
            InputAction::SetContent(text) => text@,
            InputAction::MoveCursor => before,
        }
    }

    /// What handling `action` reports on the text `before` it.
    pub open spec fn reported(before: Seq<char>, action: InputAction) -> InputActionResult {
        match action {
            InputAction::SetContent(text) => if text@ == before {
                InputActionResult::Clean
            } else {
                InputActionResult::ContentChanged
            },
            InputAction::MoveCursor => InputActionResult::PositionChanged,
        }
    }

    /// Applies an edit and reports what it changed.
    pub fn handle(&mut self, action: InputAction) -> (r: InputActionResult)
        ensures
            final(self)@ == Self::edited(old(self)@, action),
            r == Self::reported(old(self)@, action),
    {
        match action {
            InputAction::SetContent(text) => {
                if text == self.content {
                    InputActionResult::Clean
                } else {
                    self.content = text;
                    InputActionResult::ContentChanged
                }
            },
            InputAction::MoveCursor => InputActionResult::PositionChanged,
        }
    }
}

/// The text that the options are scored against: the filter text, or the
/// empty text where there is no filter.
pub open spec fn filter_text(filter: Option<Seq<char>>) -> Seq<char> {
    match filter {
        Some(text) => text,
        None => Seq::empty(),
    }
}

/// The text of the filter that a prompt starts with.
pub open spec fn starting_filter(enabled: bool, text: Option<&str>) -> Option<Seq<char>> {
    if enabled {
        match text {
            Some(text) => Some(text@),
            None => Some(Seq::empty()),
        }
    } else {
        None
    }
}

} // verus!
