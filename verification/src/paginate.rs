//! The window of a list that is on screen.

use vstd::prelude::*;
use vstd::slice::slice_subrange;

verus! {

/// A window of a list: a run of consecutive rows, with what a renderer needs
/// to place it.
#[derive(Debug)]
pub struct Page<'a, T> {
    /// Whether the window starts at the first row of the list.
    pub first: bool,
    /// Whether the window ends at the last row of the list.
    pub last: bool,
    /// The rows of the window.
    pub content: &'a [T],
    /// Row of the window that the cursor is on, where there is a cursor.
    pub cursor: Option<usize>,
    /// Number of rows of the whole list.
    pub total: usize,
}

/// First row of the window of `page_size` rows over a list of `len` rows
/// whose cursor is `sel`.
///
/// A list that fits the page is shown whole. Of a longer one the window
/// shows a full page: its first page when there is no cursor or the cursor
/// is in the first half page, its last page when the cursor is in the last
/// half page, and otherwise the page that has the cursor half a page down.
pub open spec fn window_start(page_size: int, len: int, sel: Option<usize>) -> int {
    if len <= page_size {
        0
    } else {
        match sel {
            None => 0,
            Some(index) => if index < page_size / 2 {
                0
            } else if index >= len - page_size / 2 {
                len - page_size
            } else {
                index - page_size / 2
            },
        }
    }
}

/// Number of rows of that window.
pub open spec fn window_len(page_size: int, len: int) -> int {
    if len <= page_size {
        len
    } else {
        page_size
    }
}

/// Row of that window that the cursor is on.
pub open spec fn window_cursor(page_size: int, len: int, sel: Option<usize>) -> Option<usize> {
    match sel {
        None => None,
        Some(index) => Some((index - window_start(page_size, len, sel)) as usize),
    }
}

/// Cuts the window of `page_size` rows out of `choices` around the cursor
/// `sel`.
pub fn paginate<'a, T>(page_size: usize, choices: &'a [T], sel: Option<usize>) -> (page: Page<
    'a,
    T,
>)
    ensures
        page.content@ == choices@.subrange(
            window_start(page_size as int, choices@.len() as int, sel),
            window_start(page_size as int, choices@.len() as int, sel) + window_len(
                page_size as int,
                choices@.len() as int,
            ),
        ),
        page.cursor == window_cursor(page_size as int, choices@.len() as int, sel),
        page.first == (window_start(page_size as int, choices@.len() as int, sel) == 0),
        page.last == (window_start(page_size as int, choices@.len() as int, sel) + window_len(
            page_size as int,
            choices@.len() as int,
        ) == choices@.len()),
        page.total == choices@.len(),
        page.content@.len() <= page_size,
        sel matches Some(index) ==> index < choices@.len() && page_size >= 1 ==> (page.cursor
            matches Some(row) && row < page.content@.len() && page.content@[row as int]
            == choices@[index as int]),
{
    let len = choices.len();
    let half = page_size / 2;
    let (start, end, cursor): (usize, usize, Option<usize>) = if len <= page_size {
        (0, len, sel)
    } else {
        match sel {
            None => (0, page_size, None),
            Some(index) => {
                if index < half {
                    (0, page_size, Some(index))
                } else if index >= len - half {
                    let start: usize = len - page_size;
                    (start, len, Some(index - start))
                } else {
                    let start: usize = index - half;
                    (start, start + page_size, Some(half))
                }
            },
        }
    };
    Page {
        first: start == 0,
        last: end == len,
        content: slice_subrange(choices, start, end),
        cursor,
        total: len,
    }
}

} // verus!
