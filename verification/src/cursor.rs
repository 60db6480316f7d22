//! Cursor arithmetic over a list of `len` visible rows.
//!
//! The cursor is a row number. Moving it takes a step quantity and a wrap
//! flag: with the flag set a move past either end continues from the other
//! end, without it the move stops at the end it ran into.

use vstd::prelude::*;

verus! {

/// Row reached by moving up `qty` rows from `cursor` in a list of `len` rows.
///
/// A move that stays at or below row 0 is a plain subtraction. One that would
/// go above the first row lands `qty - cursor` rows before the end of the list
/// when wrapping (row 0 if the list is shorter than that), and on row 0
/// otherwise.
pub open spec fn up_target(cursor: int, len: int, qty: int, wrap: bool) -> int {
    if qty <= cursor {
        cursor - qty
    } else if wrap && qty - cursor <= len {
        len - (qty - cursor)
    } else {
        0
    }
}

/// Row reached by moving down `qty` rows from `cursor` in a list of `len` rows.
///
/// A move that stays inside the list is a plain addition. One that reaches or
/// passes the end lands on `(cursor + qty) mod len` when wrapping and on the
/// last row otherwise; in an empty list it lands on row 0.
pub open spec fn down_target(cursor: int, len: int, qty: int, wrap: bool) -> int {
    if cursor + qty < len {
        cursor + qty
    } else if len <= 0 {
        0
    } else if wrap {
        (cursor + qty) % len
    } else {
        len - 1
    }
}

/// Whether `cursor` is a legal cursor for a list of `len` rows: a row of the
/// list, or 0 when the list is empty.
pub open spec fn cursor_in_bounds(cursor: int, len: int) -> bool {
    0 <= cursor && (cursor < len || (len == 0 && cursor == 0))
}

/// Computes [`up_target`].
pub fn cursor_up(cursor: usize, len: usize, qty: usize, wrap: bool) -> (r: usize)
    ensures
        r == up_target(cursor as int, len as int, qty as int, wrap),
        cursor_in_bounds(cursor as int, len as int) ==> cursor_in_bounds(r as int, len as int),
        !wrap ==> r <= cursor,
{
    if qty <= cursor {
        cursor - qty
    } else if wrap {
        let after_wrap: usize = qty - cursor;
        if after_wrap <= len {
            len - after_wrap
        } else {
            0
        }
    } else {
        0
    }
}

/// Computes [`down_target`].
pub fn cursor_down(cursor: usize, len: usize, qty: usize, wrap: bool) -> (r: usize)
    ensures
        r == down_target(cursor as int, len as int, qty as int, wrap),
        cursor_in_bounds(cursor as int, len as int) ==> cursor_in_bounds(r as int, len as int),
        !wrap && cursor_in_bounds(cursor as int, len as int) ==> r >= cursor,
{
    if len == 0 {
        0
    } else if cursor < len && qty < len - cursor {
        cursor + qty
    } else if wrap {
        let sum: u128 = cursor as u128 + qty as u128;
        let row: u128 = sum % (len as u128);
        row as usize
    } else {
        len - 1
    }
}

/// A single step up from the first row, wrapping, lands on the last row, and
/// a single step down from the last row, wrapping, lands on the first.
pub proof fn lemma_single_step_wraps(len: int)
    requires
        len >= 1,
    ensures
        up_target(0, len, 1, true) == len - 1,
        down_target(len - 1, len, 1, true) == 0,
{
    assert(len % len == 0) by (nonlinear_arith)
        requires
            len >= 1,
    ;
}

/// Without wrapping, a move of any size from a row of the list ends on a row
/// of the list and never passes an end to come out at the other: moving up
/// never increases the row, moving down never decreases it.
pub proof fn lemma_unwrapped_moves_stay_inside(cursor: int, len: int, qty: int)
    requires
        0 <= cursor < len,
        0 <= qty,
    ensures
        0 <= up_target(cursor, len, qty, false) <= cursor,
        cursor <= down_target(cursor, len, qty, false) <= len - 1,
{
}

/// Without wrapping, moving up by any quantity that is at least the cursor
/// reaches the first row, and moving down by any quantity that reaches the
/// end stops on the last row. Jumps to the start and to the end of the list
/// are such moves, made with the largest quantity there is.
pub proof fn lemma_jumps_reach_the_ends(cursor: int, len: int, qty: int)
    requires
        0 <= cursor < len,
        qty >= cursor,
        qty >= len - 1 - cursor,
    ensures
        up_target(cursor, len, qty, false) == 0,
        down_target(cursor, len, qty, false) == len - 1,
{
}

/// The jumps to the start and to the end of the list, which move by the
/// largest quantity there is without wrapping, land on the first and on the
/// last row from any row of the list.
pub proof fn lemma_largest_moves_reach_the_ends(cursor: usize, len: usize)
    requires
        cursor < len,
    ensures
        up_target(cursor as int, len as int, usize::MAX as int, false) == 0,
        down_target(cursor as int, len as int, usize::MAX as int, false) == len - 1,
{
}

} // verus!
