//! Adaptive page size.
//!
//! Options whose text wraps over several terminal rows can make a page of
//! the asked size taller than the terminal. Before a frame is shown it is
//! therefore drawn off screen and measured. A frame that fits is committed.
//! One that does not is thrown away and drawn again with fewer options, until
//! a frame fits or a single option is left.

use vstd::prelude::*;

verus! {

/// What becomes of a frame that was drawn and measured.
#[derive(Clone, Copy, Debug, PartialEq, Eq, Structural)]
pub enum Attempt {
    /// The frame is shown.
    Commit,
    /// The frame is discarded and drawn again with the page size given.
    Retry(usize),
}

/// The heights read after a frame was drawn: the rows that the frame would
/// take on screen, and the rows of the terminal. Either may be unknown.
pub struct Measurement {
    /// Rows of the frame.
    pub frame: Option<u16>,
    /// Rows of the terminal.
    pub terminal: Option<u16>,
}

/// Rows of a frame as the algorithm counts them: an unknown height counts as
/// no rows.
pub open spec fn frame_rows(frame: Option<u16>) -> int {
    match frame {
        Some(h) => h as int,
        None => 0,
    }
}

/// Rows of the terminal as the algorithm counts them: an unknown height
/// counts as the largest there is.
pub open spec fn terminal_rows(terminal: Option<u16>) -> int {
    match terminal {
        Some(h) => h as int,
        None => u16::MAX as int,
    }
}

/// Whether a frame of `frame_h` rows, drawn with `page_size` options, is
/// shown on a terminal of `term_h` rows: it is if it fits, and in any case
/// once the page is down to one option.
pub open spec fn commits(page_size: int, frame_h: int, term_h: int) -> bool {
    frame_h <= term_h || page_size <= 1
}

/// The page size to try after a frame of `frame_h` rows, drawn with
/// `page_size` options, did not fit a terminal of `term_h` rows: the page
/// size scaled by the ratio of the two heights, rounded down, and at least 1.
/// Where that is no less than `page_size`, it is `page_size - 1` instead, and
/// at least 1.
pub open spec fn shrunk(page_size: int, frame_h: int, term_h: int) -> int {
    let scaled = (page_size * term_h) / (if frame_h < 1 {
        1
    } else {
        frame_h
    });
    let new = if scaled < 1 {
        1
    } else {
        scaled
    };
    if new < page_size {
        new
    } else if page_size - 1 < 1 {
        1
    } else {
        page_size - 1
    }
}

/// What becomes of a frame drawn with `page_size` options that measures `m`.
pub open spec fn judged(page_size: int, m: Measurement) -> Attempt {
    if commits(page_size, frame_rows(m.frame), terminal_rows(m.terminal)) {
        Attempt::Commit
    } else {
        Attempt::Retry(shrunk(page_size, frame_rows(m.frame), terminal_rows(m.terminal)) as usize)
    }
}

/// The page size that a redraw starts from: the configured one, and at least
/// 1.
pub open spec fn working_page_size(configured: int) -> int {
    if configured < 1 {
        1
    } else {
        configured
    }
}

/// Computes [`shrunk`].
pub fn shrink_page_size(page_size: usize, frame_h: u16, term_h: u16) -> (r: usize)
    ensures
        r == shrunk(page_size as int, frame_h as int, term_h as int),
        r >= 1,
        page_size > 1 ==> r < page_size,
{
    let divisor: u128 = if frame_h < 1 {
        1
    } else {
        frame_h as u128
    };
    assert(page_size * term_h <= 0xffff_ffff_ffff_ffff * 0xffff) by (nonlinear_arith)
        requires
            0 <= page_size <= 0xffff_ffff_ffff_ffff,
            0 <= term_h <= 0xffff,
    ;
    let product: u128 = (page_size as u128) * (term_h as u128);
    let scaled: u128 = product / divisor;
    let new: u128 = if scaled < 1 {
        1
    } else {
        scaled
    };
    if new < page_size as u128 {
        new as usize
    } else if page_size <= 1 {
        1
    } else {
        page_size - 1
    }
}

/// Decides what becomes of a frame drawn with `page_size` options, from the
/// heights read after drawing it.
pub fn judge_frame(page_size: usize, frame: Option<u16>, terminal: Option<u16>) -> (r: Attempt)
    ensures
        r == judged(page_size as int, Measurement { frame, terminal }),
        page_size <= 1 ==> r is Commit,
        r matches Attempt::Retry(next) ==> 1 <= next < page_size,
{
    let frame_h: u16 = match frame {
        Some(h) => h,
        None => 0,
    };
    let term_h: u16 = match terminal {
        Some(h) => h,
        None => u16::MAX,
    };
    if frame_h <= term_h || page_size <= 1 {
        Attempt::Commit
    } else {
        Attempt::Retry(shrink_page_size(page_size, frame_h, term_h))
    }
}

/// The page size of attempt number `k`, counted from 0, of a redraw that
/// starts from the configured page size `configured` and reads the
/// measurements `ms` in turn, one after each attempt. An attempt that commits
/// ends the redraw; the page size stays what it was from there on.
pub open spec fn page_size_at(configured: int, ms: Seq<Measurement>, k: nat) -> int
    decreases k,
{
    if k == 0 {
        working_page_size(configured)
    } else {
        let before = page_size_at(configured, ms, (k - 1) as nat);
        match judged(before, ms[k - 1]) {
            Attempt::Commit => before,
            Attempt::Retry(next) => next as int,
        }
    }
}

/// Whether attempt number `k` of such a redraw commits.
pub open spec fn commits_at(configured: int, ms: Seq<Measurement>, k: nat) -> bool {
    judged(page_size_at(configured, ms, k), ms[k as int]) is Commit
}

/// The page size that a redraw has kept in the prompt once it made `retries`
/// retries: the configured one as long as no frame was thrown away, and
/// from then on the one of its latest attempt.
pub open spec fn persisted(configured: int, ms: Seq<Measurement>, retries: nat) -> int {
    if retries == 0 {
        configured
    } else {
        page_size_at(configured, ms, retries)
    }
}

/// Whether a redraw that starts from the configured page size `configured`
/// and reads the measurements `ms` in turn, one after each frame it draws,
/// can leave the prompt with the page size `left`, having shown a frame if
/// `done` and having failed before it showed one if not.
///
/// It draws no more frames than its working page size. Every frame but the
/// last is one that is thrown away. A redraw that shows a frame shows the
/// last, which is one that commits, and leaves the page size that this frame
/// was drawn with. One that fails leaves the page size of the last frame, or
/// the one that follows from it if that frame was thrown away.
pub open spec fn redraws(configured: int, ms: Seq<Measurement>, left: int, done: bool) -> bool {
    let drawn = ms.len();
    &&& drawn <= working_page_size(configured)
    &&& forall|j: nat| j + 1 < drawn ==> !#[trigger] commits_at(configured, ms, j)
    &&& done ==> drawn >= 1 && commits_at(configured, ms, (drawn - 1) as nat)
    &&& {
        ||| drawn >= 1 && left == persisted(configured, ms, (drawn - 1) as nat)
        ||| !done && (drawn == 0 || !commits_at(configured, ms, (drawn - 1) as nat)) && left
            == persisted(configured, ms, drawn)
    }
}

/// What a redraw has come to after the frames that measured `ms`, all of
/// them thrown away: it is about to draw with the page size `page_size`, and
/// has kept `kept` in the prompt.
pub open spec fn redrawing(configured: int, ms: Seq<Measurement>, page_size: int, kept: int) -> bool {
    &&& forall|j: nat| j < ms.len() ==> !#[trigger] commits_at(configured, ms, j)
    &&& page_size == page_size_at(configured, ms, ms.len())
    &&& kept == persisted(configured, ms, ms.len())
    &&& 1 <= page_size
    &&& ms.len() + page_size <= working_page_size(configured)
}

/// A redraw that has drawn nothing yet is about to draw with its working page
/// size.
pub proof fn lemma_redraw_starts(configured: usize)
    ensures
        redrawing(
            configured as int,
            Seq::empty(),
            working_page_size(configured as int),
            configured as int,
        ),
        redraws(configured as int, Seq::empty(), configured as int, false),
{
}

/// A redraw whose next frame measures `m` and commits has shown a frame, and
/// leaves the page size it had kept.
pub proof fn lemma_redraw_commits(
    configured: usize,
    ms: Seq<Measurement>,
    page_size: usize,
    kept: usize,
    m: Measurement,
)
    requires
        redrawing(configured as int, ms, page_size as int, kept as int),
        judged(page_size as int, m) is Commit,
    ensures
        redraws(configured as int, ms.push(m), kept as int, true),
{
    lemma_earlier_attempts_stay(configured as int, ms, m);
    let all = ms.push(m);
    assert(all[ms.len() as int] == m);
    assert(commits_at(configured as int, all, ms.len()));
}

/// A redraw whose next frame measures `m` and is thrown away goes on with the
/// smaller page size, which it keeps in the prompt.
pub proof fn lemma_redraw_retries(
    configured: usize,
    ms: Seq<Measurement>,
    page_size: usize,
    kept: usize,
    m: Measurement,
    next: usize,
)
    requires
        redrawing(configured as int, ms, page_size as int, kept as int),
        judged(page_size as int, m) == Attempt::Retry(next),
    ensures
        redrawing(configured as int, ms.push(m), next as int, next as int),
        redraws(configured as int, ms.push(m), next as int, false),
{
    lemma_earlier_attempts_stay(configured as int, ms, m);
    lemma_retry_shrinks(page_size, m);
    let all = ms.push(m);
    assert(all[ms.len() as int] == m);
    assert(!commits_at(configured as int, all, ms.len()));
    assert(page_size_at(configured as int, all, all.len()) == next);
}

/// A redraw that fails while it is about to draw, or after it measured a
/// frame and before it took the page size that follows, leaves the page size
/// it had kept.
pub proof fn lemma_redraw_fails(configured: usize, ms: Seq<Measurement>, page_size: usize, kept: usize)
    requires
        redrawing(configured as int, ms, page_size as int, kept as int),
    ensures
        redraws(configured as int, ms, kept as int, false),
{
}

/// What the attempts of a redraw were is not changed by a measurement that
/// is read after them.
proof fn lemma_earlier_attempts_stay(configured: int, ms: Seq<Measurement>, m: Measurement)
    ensures
        forall|j: nat|
            j <= ms.len() ==> #[trigger] page_size_at(configured, ms.push(m), j) == page_size_at(
                configured,
                ms,
                j,
            ),
        forall|j: nat|
            j < ms.len() ==> #[trigger] commits_at(configured, ms.push(m), j) == commits_at(
                configured,
                ms,
                j,
            ),
{
    assert forall|j: nat| j <= ms.len() implies #[trigger] page_size_at(
        configured,
        ms.push(m),
        j,
    ) == page_size_at(configured, ms, j) by {
        lemma_earlier_page_size_stays(configured, ms, m, j);
    }
    assert forall|j: nat| j < ms.len() implies #[trigger] commits_at(configured, ms.push(m), j)
        == commits_at(configured, ms, j) by {
        lemma_earlier_page_size_stays(configured, ms, m, j);
        assert(ms.push(m)[j as int] == ms[j as int]);
    }
}

proof fn lemma_earlier_page_size_stays(
    configured: int,
    ms: Seq<Measurement>,
    m: Measurement,
    j: nat,
)
    requires
        j <= ms.len(),
    ensures
        page_size_at(configured, ms.push(m), j) == page_size_at(configured, ms, j),
    decreases j,
{
    if j > 0 {
        lemma_earlier_page_size_stays(configured, ms, m, (j - 1) as nat);
        assert(ms.push(m)[j - 1] == ms[j - 1]);
    }
}

/// An attempt that does not commit is followed by one with a strictly smaller
/// page size, which is still at least 1.
pub proof fn lemma_retry_shrinks(page_size: usize, m: Measurement)
    ensures
        judged(page_size as int, m) matches Attempt::Retry(next) ==> 1 <= next < page_size,
{
    let frame_h = frame_rows(m.frame);
    let term_h = terminal_rows(m.terminal);
    if !commits(page_size as int, frame_h, term_h) {
        lemma_shrunk_bounds(page_size as int, frame_h, term_h);
    }
}

/// An attempt with a page size of 1 or less commits, whatever it measures.
pub proof fn lemma_single_row_commits(page_size: usize, m: Measurement)
    requires
        page_size <= 1,
    ensures
        judged(page_size as int, m) is Commit,
{
}

/// A redraw commits within as many attempts as its working page size, whatever
/// the frames measure: among the first `working_page_size(configured)`
/// attempts there is one that commits.
pub proof fn lemma_commits_within_page_size(configured: usize, ms: Seq<Measurement>)
    requires
        ms.len() >= working_page_size(configured as int),
    ensures
        exists|k: nat|
            k < working_page_size(configured as int) && #[trigger] commits_at(
                configured as int,
                ms,
                k,
            ),
{
    let start = working_page_size(configured as int);
    lemma_page_size_runs_down(configured, ms, (start - 1) as nat);
    if !exists|k: nat| k < start && #[trigger] commits_at(configured as int, ms, k) {
        assert(!commits_at(configured as int, ms, (start - 1) as nat));
    }
}

proof fn lemma_shrunk_bounds(page_size: int, frame_h: int, term_h: int)
    requires
        page_size > 1,
        0 <= term_h,
        0 <= frame_h,
    ensures
        1 <= shrunk(page_size, frame_h, term_h) < page_size,
{
}

proof fn lemma_page_size_runs_down(configured: usize, ms: Seq<Measurement>, k: nat)
    requires
        k < ms.len(),
    ensures
        1 <= page_size_at(configured as int, ms, k) <= usize::MAX,
        (exists|j: nat| j < k && #[trigger] commits_at(configured as int, ms, j)) || page_size_at(
            configured as int,
            ms,
            k,
        ) <= working_page_size(configured as int) - k,
    decreases k,
{
    if k > 0 {
        let j = (k - 1) as nat;
        lemma_page_size_runs_down(configured, ms, j);
        let before = page_size_at(configured as int, ms, j);
        lemma_retry_shrinks(before as usize, ms[j as int]);
        if commits_at(configured as int, ms, j) {
        } else if exists|i: nat| i < j && #[trigger] commits_at(configured as int, ms, i) {
            let i = choose|i: nat| i < j && #[trigger] commits_at(configured as int, ms, i);
            assert(i < k && commits_at(configured as int, ms, i));
        } else {
        }
    }
}

} // verus!
