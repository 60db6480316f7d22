//! The ways a prompt can end without an answer.

use vstd::prelude::*;

verus! {

/// Why a prompt ended without an answer.
#[derive(Debug)]
pub enum InquireError {
    /// The prompt was set up with values it cannot start from. The text says
    /// which. No prompt is made.
    InvalidConfiguration(String),
    /// The rendering surface failed. The text is the surface's own.
    IO(String),
    /// The user asked to leave, and leaving was confirmed.
    OperationCanceled,
    /// The user interrupted the prompt.
    OperationInterrupted,
    /// A function supplied by the user of the prompt failed. The text is
    /// that function's own.
    Custom(String),
}

/// What a prompt returns.
pub type InquireResult<T> = Result<T, InquireError>;

/// The decimal digit `d`, for `d < 10`.
pub open spec fn digit(d: nat) -> char {
    if d == 0 {
        '0'
    } else if d == 1 {
        '1'
    } else if d == 2 {
        '2'
    } else if d == 3 {
        '3'
    } else if d == 4 {
        '4'
    } else if d == 5 {
        '5'
    } else if d == 6 {
        '6'
    } else if d == 7 {
        '7'
    } else if d == 8 {
        '8'
    } else {
        '9'
    }
}

/// `n` written in decimal, without leading zeros.
pub open spec fn decimal(n: nat) -> Seq<char>
    decreases n,
{
    if n < 10 {
        seq![digit(n)]
    } else {
        decimal(n / 10).push(digit(n % 10))
    }
}

/// Text of the error for an empty list of options.
pub open spec fn empty_options_text() -> Seq<char> {
    "Available options can not be empty"@
}

/// Text of the error for a starting cursor that is no index of the options.
pub open spec fn cursor_out_of_bounds_text(index: nat, len: nat) -> Seq<char> {
    "Starting cursor index "@ + decimal(index) + " is out-of-bounds for length "@ + decimal(len)
        + " of options"@
}

/// Text of the error for a default selection that is no index of the
/// options.
pub open spec fn index_out_of_bounds_text(index: nat, len: nat) -> Seq<char> {
    "Index "@ + decimal(index) + " is out-of-bounds for length "@ + decimal(len) + " of options"@
}

fn digit_text(d: usize) -> (r: &'static str)
    requires
        d < 10,
    ensures
        r@ == seq![digit(d as nat)],
{
    proof {
        reveal_strlit("0");
        reveal_strlit("1");
        reveal_strlit("2");
        reveal_strlit("3");
        reveal_strlit("4");
        reveal_strlit("5");
        reveal_strlit("6");
        reveal_strlit("7");
        reveal_strlit("8");
        reveal_strlit("9");
    }
    let r = if d == 0 {
        "0"
    } else if d == 1 {
        "1"
    } else if d == 2 {
        "2"
    } else if d == 3 {
        "3"
    } else if d == 4 {
        "4"
    } else if d == 5 {
        "5"
    } else if d == 6 {
        "6"
    } else if d == 7 {
        "7"
    } else if d == 8 {
        "8"
    } else {
        "9"
    };
    assert(r@ =~= seq![digit(d as nat)]);
    r
}

fn push_decimal(text: &mut String, n: usize)
    ensures
        final(text)@ == old(text)@ + decimal(n as nat),
    decreases n,
{
    if n >= 10 {
        push_decimal(text, n / 10);
    }
    text.append(digit_text(n % 10));
    assert(text@ =~= old(text)@ + decimal(n as nat));
}

impl InquireError {
    /// The error for an empty list of options.
    pub fn empty_options() -> (r: Self)
        ensures
            r matches InquireError::InvalidConfiguration(text) && text@ == empty_options_text(),
    {
        InquireError::InvalidConfiguration("Available options can not be empty".to_owned())
    }

    /// The error for the starting cursor `index` over `len` options.
    pub fn cursor_out_of_bounds(index: usize, len: usize) -> (r: Self)
        ensures
            r matches InquireError::InvalidConfiguration(text) && text@
                == cursor_out_of_bounds_text(index as nat, len as nat),
    {
        let mut text = "Starting cursor index ".to_owned();
        push_decimal(&mut text, index);
        text.append(" is out-of-bounds for length ");
        push_decimal(&mut text, len);
        text.append(" of options");
        InquireError::InvalidConfiguration(text)
    }

    /// The error for the default selection `index` over `len` options.
    pub fn index_out_of_bounds(index: usize, len: usize) -> (r: Self)
        ensures
            r matches InquireError::InvalidConfiguration(text) && text@ == index_out_of_bounds_text(
                index as nat,
                len as nat,
            ),
    {
        let mut text = "Index ".to_owned();
        push_decimal(&mut text, index);
        text.append(" is out-of-bounds for length ");
        push_decimal(&mut text, len);
        text.append(" of options");
        InquireError::InvalidConfiguration(text)
    }
}

} // verus!
