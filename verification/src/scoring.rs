//! Ordering the options by how well they match the filter.
//!
//! A scorer gives each option a score, or none where the option does not
//! match. The options that have a score are shown, the best first. Options of
//! equal score are shown in the order of their indices, so that the order is
//! the same however it is computed.

use vstd::prelude::*;

verus! {

/// Whether option `a` is shown before option `b` under `scores`: it is if its
/// score is higher, or the same with a smaller index.
pub open spec fn precedes(scores: Seq<Option<i64>>, a: usize, b: usize) -> bool {
    let sa = scores[a as int]->0;
    let sb = scores[b as int]->0;
    sa > sb || (sa == sb && a < b)
}

/// Whether every entry of `items` is the index of an option that has a
/// score.
pub open spec fn all_scored(items: Seq<usize>, scores: Seq<Option<i64>>) -> bool {
    forall|k: int|
        0 <= k < items.len() ==> (#[trigger] items[k]) < scores.len() && scores[items[k] as int]
            is Some
}

/// Whether each entry of `items` precedes the entries after it.
pub open spec fn in_rank_order(items: Seq<usize>, scores: Seq<Option<i64>>) -> bool {
    forall|a: int, b: int|
        0 <= a < b < items.len() ==> precedes(scores, #[trigger] items[a], #[trigger] items[b])
}

/// Whether `order` is the scored order under `scores`: it holds the indices
/// that have a score and no others, and each of its entries precedes the
/// entries after it.
pub open spec fn is_ranking(order: Seq<usize>, scores: Seq<Option<i64>>) -> bool {
    &&& all_scored(order, scores)
    &&& forall|i: int|
        0 <= i < scores.len() && (#[trigger] scores[i]) is Some ==> order.contains(i as usize)
    &&& in_rank_order(order, scores)
}

/// Whether `score` is what `scorer` can return for the option `value` of text
/// `text` and index `index` under the filter text `filter`.
pub open spec fn scored_by<T, S: Fn(&str, &T, &str, usize) -> Option<i64>>(
    scorer: S,
    filter: Seq<char>,
    value: T,
    text: String,
    index: usize,
    score: Option<i64>,
) -> bool {
    exists|f: &str, t: &str|
        f@ == filter && t@ == text@ && #[trigger] call_ensures(scorer, (f, &value, t, index), score)
}

/// Whether `scores` holds, for each of `options`, a score that `scorer` can
/// return for it under the filter text `filter`.
pub open spec fn scores_of<T, S: Fn(&str, &T, &str, usize) -> Option<i64>>(
    scorer: S,
    filter: Seq<char>,
    options: Seq<T>,
    texts: Seq<String>,
    scores: Seq<Option<i64>>,
) -> bool {
    &&& scores.len() == options.len()
    &&& forall|i: int|
        0 <= i < options.len() ==> scored_by(
            scorer,
            filter,
            options[i],
            texts[i],
            i as usize,
            #[trigger] scores[i],
        )
}

/// Whether `scorer` can be called on every input.
pub open spec fn scorer_is_total<T, S: Fn(&str, &T, &str, usize) -> Option<i64>>(scorer: S) -> bool {
    forall|filter: &str, value: &T, text: &str, index: usize| #[trigger]
        call_requires(scorer, (filter, value, text, index))
}

/// Whether `texts` holds, for each of `options`, a text that displaying it
/// gives.
pub open spec fn displays<T: core::fmt::Display>(options: Seq<T>, texts: Seq<String>) -> bool {
    &&& texts.len() == options.len()
    &&& forall|i: int|
        0 <= i < options.len() ==> vstd::string::to_string_from_display_ensures::<T>(
            &options[i],
            #[trigger] texts[i],
        )
}

/// The order in which the options stand when nothing filters them: every
/// index, ascending.
pub open spec fn identity_order(n: nat) -> Seq<usize> {
    Seq::new(n, |i: int| i as usize)
}

/// Whether every entry of `order` is an index below `n` and none occurs
/// twice.
pub open spec fn is_order_of(order: Seq<usize>, n: int) -> bool {
    &&& forall|k: int| 0 <= k < order.len() ==> (#[trigger] order[k]) < n
    &&& order.no_duplicates()
}

/// Where the cursor stands once the scored order was replaced by one of
/// `len` entries: on the first row if the prompt resets it, else where it
/// stood, or on the last row if it stood beyond.
pub open spec fn reconciled_cursor(cursor: usize, len: int, reset: bool) -> usize {
    if reset || len <= 0 {
        0
    } else if cursor >= len {
        (len - 1) as usize
    } else {
        cursor
    }
}

/// Computes [`reconciled_cursor`].
pub fn reconcile_cursor(cursor: usize, len: usize, reset: bool) -> (r: usize)
    ensures
        r == reconciled_cursor(cursor, len as int, reset),
        crate::cursor::cursor_in_bounds(r as int, len as int),
{
    if reset || len == 0 {
        0
    } else if cursor >= len {
        len - 1
    } else {
        cursor
    }
}

/// Orders the options that have a score: higher scores first, equal scores
/// by ascending index.
pub fn rank(scores: &Vec<Option<i64>>) -> (order: Vec<usize>)
    ensures
        is_ranking(order@, scores@),
        is_order_of(order@, scores@.len() as int),
{
    let scored = scored_indices(scores);
    let order = sort_by_rank(scores, &scored, 0, scored.len());
    proof {
        assert(scored@.subrange(0, scored.len() as int) =~= scored@);
        assert forall|a: int, b: int| 0 <= a < b < order.len() implies order[a] != order[b] by {
            assert(precedes(scores@, order[a], order[b]));
        }
    }
    order
}

/// The indices of the options that have a score, ascending.
fn scored_indices(scores: &Vec<Option<i64>>) -> (scored: Vec<usize>)
    ensures
        all_scored(scored@, scores@),
        scored@.no_duplicates(),
        forall|i: int|
            0 <= i < scores.len() && (#[trigger] scores[i]) is Some ==> scored@.contains(i as usize),
{
    let mut scored: Vec<usize> = Vec::new();
    let mut i: usize = 0;
    while i < scores.len()
        invariant
            i <= scores.len(),
            all_scored(scored@, scores@),
            forall|k: int| 0 <= k < scored.len() ==> (#[trigger] scored[k]) < i,
            forall|a: int, b: int| 0 <= a < b < scored.len() ==> scored[a] < scored[b],
            forall|j: int|
                0 <= j < i && (#[trigger] scores[j]) is Some ==> scored@.contains(j as usize),
        decreases scores.len() - i,
    {
        if scores[i].is_some() {
            let ghost before = scored@;
            scored.push(i);
            proof {
                assert forall|j: int| 0 <= j <= i && (#[trigger] scores[j]) is Some implies scored@
                    .contains(j as usize) by {
                    if j == i {
                        assert(scored@[before.len() as int] == i);
                    } else {
                        let k = choose|k: int| 0 <= k < before.len() && before[k] == j as usize;
                        assert(scored@[k] == j as usize);
                    }
                }
            }
        }
        i += 1;
    }
    scored
}

/// Whether option `a` is shown before option `b`.
fn goes_first(scores: &Vec<Option<i64>>, a: usize, b: usize) -> (r: bool)
    requires
        a < scores.len(),
        b < scores.len(),
        scores[a as int] is Some,
        scores[b as int] is Some,
    ensures
        r == precedes(scores@, a, b),
{
    match (scores[a], scores[b]) {
        (Some(sa), Some(sb)) => sa > sb || (sa == sb && a < b),
        _ => false,
    }
}

/// Orders the entries of `items` from row `lo` up to row `hi` by merging the
/// two halves, each ordered the same way.
fn sort_by_rank(scores: &Vec<Option<i64>>, items: &Vec<usize>, lo: usize, hi: usize) -> (sorted:
    Vec<usize>)
    requires
        lo <= hi <= items.len(),
        all_scored(items@, scores@),
        items@.no_duplicates(),
    ensures
        all_scored(sorted@, scores@),
        in_rank_order(sorted@, scores@),
        sorted.len() == hi - lo,
        forall|x: usize| sorted@.contains(x) <==> items@.subrange(lo as int, hi as int).contains(x),
    decreases hi - lo,
{
    let ghost part = items@.subrange(lo as int, hi as int);
    if hi - lo == 0 {
        return Vec::new();
    }
    if hi - lo == 1 {
        let mut sorted: Vec<usize> = Vec::new();
        sorted.push(items[lo]);
        proof {
            assert(sorted@ =~= part);
        }
        return sorted;
    }
    let mid = lo + (hi - lo) / 2;
    let left = sort_by_rank(scores, items, lo, mid);
    let right = sort_by_rank(scores, items, mid, hi);
    proof {
        let low = items@.subrange(lo as int, mid as int);
        let high = items@.subrange(mid as int, hi as int);
        assert forall|a: int, b: int|
            0 <= a < left.len() && 0 <= b < right.len() implies left[a] != right[b] by {
            assert(left@.contains(left[a]));
            assert(right@.contains(right[b]));
            let p = choose|p: int| 0 <= p < low.len() && low[p] == left[a];
            let q = choose|q: int| 0 <= q < high.len() && high[q] == right[b];
            assert(items[lo + p] == left[a]);
            assert(items[mid + q] == right[b]);
        }
        assert(part =~= low + high);
        assert forall|x: usize| part.contains(x) <==> low.contains(x) || high.contains(x) by {
            if part.contains(x) {
                let k = choose|k: int| 0 <= k < part.len() && part[k] == x;
                if k < low.len() {
                    assert(low[k] == x);
                } else {
                    assert(high[k - low.len()] == x);
                }
            }
            if low.contains(x) {
                let k = choose|k: int| 0 <= k < low.len() && low[k] == x;
                assert(part[k] == x);
            }
            if high.contains(x) {
                let k = choose|k: int| 0 <= k < high.len() && high[k] == x;
                assert(part[low.len() + k] == x);
            }
        }
    }
    merge_by_rank(scores, &left, &right)
}

/// Merges two lists that are each in rank order and share no entry into one
/// that is in rank order.
fn merge_by_rank(scores: &Vec<Option<i64>>, left: &Vec<usize>, right: &Vec<usize>) -> (merged:
    Vec<usize>)
    requires
        all_scored(left@, scores@),
        all_scored(right@, scores@),
        in_rank_order(left@, scores@),
        in_rank_order(right@, scores@),
        forall|a: int, b: int| 0 <= a < left.len() && 0 <= b < right.len() ==> left[a] != right[b],
    ensures
        all_scored(merged@, scores@),
        in_rank_order(merged@, scores@),
        merged.len() == left.len() + right.len(),
        forall|x: usize| merged@.contains(x) <==> left@.contains(x) || right@.contains(x),
{
    let mut merged: Vec<usize> = Vec::new();
    let mut i: usize = 0;
    let mut j: usize = 0;
    while i < left.len() || j < right.len()
        invariant
            i <= left.len(),
            j <= right.len(),
            merged.len() == i + j,
            all_scored(left@, scores@),
            all_scored(right@, scores@),
            in_rank_order(left@, scores@),
            in_rank_order(right@, scores@),
            forall|a: int, b: int|
                0 <= a < left.len() && 0 <= b < right.len() ==> left[a] != right[b],
            merges(merged@, left@, right@, i as int, j as int, scores@),
        decreases left.len() - i + right.len() - j,
    {
        let from_left = if i == left.len() {
            false
        } else if j == right.len() {
            true
        } else {
            goes_first(scores, left[i], right[j])
        };
        if from_left {
            proof {
                lemma_merge_takes_left(merged@, left@, right@, i as int, j as int, scores@);
            }
            merged.push(left[i]);
            i += 1;
        } else {
            proof {
                lemma_merge_takes_right(merged@, left@, right@, i as int, j as int, scores@);
            }
            merged.push(right[j]);
            j += 1;
        }
    }
    proof {
        assert(left@.take(i as int) =~= left@);
        assert(right@.take(j as int) =~= right@);
    }
    merged
}

/// Whether `merged` is what merging has made of the first `i` entries of
/// `left` and the first `j` of `right`: it holds them and no others, in rank
/// order, and each of them precedes the entries still to be merged.
spec fn merges(
    merged: Seq<usize>,
    left: Seq<usize>,
    right: Seq<usize>,
    i: int,
    j: int,
    scores: Seq<Option<i64>>,
) -> bool {
    &&& all_scored(merged, scores)
    &&& in_rank_order(merged, scores)
    &&& forall|m: int, a: int|
        0 <= m < merged.len() && i <= a < left.len() ==> precedes(
            scores,
            #[trigger] merged[m],
            #[trigger] left[a],
        )
    &&& forall|m: int, b: int|
        0 <= m < merged.len() && j <= b < right.len() ==> precedes(
            scores,
            #[trigger] merged[m],
            #[trigger] right[b],
        )
    &&& forall|x: usize|
        merged.contains(x) <==> left.take(i).contains(x) || right.take(j).contains(x)
}

proof fn lemma_merge_takes_left(
    merged: Seq<usize>,
    left: Seq<usize>,
    right: Seq<usize>,
    i: int,
    j: int,
    scores: Seq<Option<i64>>,
)
    requires
        0 <= i < left.len(),
        0 <= j <= right.len(),
        all_scored(left, scores),
        all_scored(right, scores),
        in_rank_order(left, scores),
        in_rank_order(right, scores),
        merges(merged, left, right, i, j, scores),
        j < right.len() ==> precedes(scores, left[i], right[j]),
    ensures
        merges(merged.push(left[i]), left, right, i + 1, j, scores),
{
    let x = left[i];
    let after = merged.push(x);
    assert forall|k: int| 0 <= k < after.len() implies (#[trigger] after[k]) < scores.len()
        && scores[after[k] as int] is Some by {
        if k < merged.len() {
            assert(after[k] == merged[k]);
        }
    }
    assert forall|a: int, b: int| 0 <= a < b < after.len() implies precedes(
        scores,
        #[trigger] after[a],
        #[trigger] after[b],
    ) by {
        assert(after[a] == merged[a]);
        if b < merged.len() {
            assert(after[b] == merged[b]);
        } else {
            assert(precedes(scores, merged[a], left[i]));
        }
    }
    assert forall|m: int, a: int| 0 <= m < after.len() && i + 1 <= a < left.len() implies precedes(
        scores,
        #[trigger] after[m],
        #[trigger] left[a],
    ) by {
        if m < merged.len() {
            assert(after[m] == merged[m]);
        } else {
            assert(precedes(scores, left[i], left[a]));
        }
    }
    assert forall|m: int, b: int| 0 <= m < after.len() && j <= b < right.len() implies precedes(
        scores,
        #[trigger] after[m],
        #[trigger] right[b],
    ) by {
        if m < merged.len() {
            assert(after[m] == merged[m]);
        } else if b > j {
            assert(precedes(scores, right[j], right[b]));
        }
    }
    lemma_contains_after_push(merged, left, i);
    assert forall|x: usize|
        after.contains(x) <==> left.take(i + 1).contains(x) || right.take(j).contains(x) by {
        assert(after.contains(x) <==> merged.contains(x) || x == left[i]);
        assert(left.take(i + 1).contains(x) <==> left.take(i).contains(x) || x == left[i]);
        assert(merged.contains(x) <==> left.take(i).contains(x) || right.take(j).contains(x));
    }
}

proof fn lemma_merge_takes_right(
    merged: Seq<usize>,
    left: Seq<usize>,
    right: Seq<usize>,
    i: int,
    j: int,
    scores: Seq<Option<i64>>,
)
    requires
        0 <= i <= left.len(),
        0 <= j < right.len(),
        all_scored(left, scores),
        all_scored(right, scores),
        in_rank_order(left, scores),
        in_rank_order(right, scores),
        merges(merged, left, right, i, j, scores),
        i < left.len() ==> !precedes(scores, left[i], right[j]) && left[i] != right[j],
    ensures
        merges(merged.push(right[j]), left, right, i, j + 1, scores),
{
    let x = right[j];
    let after = merged.push(x);
    assert forall|k: int| 0 <= k < after.len() implies (#[trigger] after[k]) < scores.len()
        && scores[after[k] as int] is Some by {
        if k < merged.len() {
            assert(after[k] == merged[k]);
        }
    }
    assert forall|a: int, b: int| 0 <= a < b < after.len() implies precedes(
        scores,
        #[trigger] after[a],
        #[trigger] after[b],
    ) by {
        assert(after[a] == merged[a]);
        if b < merged.len() {
            assert(after[b] == merged[b]);
        } else {
            assert(precedes(scores, merged[a], right[j]));
        }
    }
    assert forall|m: int, a: int| 0 <= m < after.len() && i <= a < left.len() implies precedes(
        scores,
        #[trigger] after[m],
        #[trigger] left[a],
    ) by {
        if m < merged.len() {
            assert(after[m] == merged[m]);
        } else if a > i {
            assert(precedes(scores, left[i], left[a]));
        }
    }
    assert forall|m: int, b: int| 0 <= m < after.len() && j + 1 <= b < right.len() implies precedes(
        scores,
        #[trigger] after[m],
        #[trigger] right[b],
    ) by {
        if m < merged.len() {
            assert(after[m] == merged[m]);
        } else {
            assert(precedes(scores, right[j], right[b]));
        }
    }
    lemma_contains_after_push(merged, right, j);
    assert forall|x: usize|
        after.contains(x) <==> left.take(i).contains(x) || right.take(j + 1).contains(x) by {
        assert(after.contains(x) <==> merged.contains(x) || x == right[j]);
        assert(right.take(j + 1).contains(x) <==> right.take(j).contains(x) || x == right[j]);
        assert(merged.contains(x) <==> left.take(i).contains(x) || right.take(j).contains(x));
    }
}

/// What a list holds once entry `k` of `source` is pushed onto it, and what
/// the first `k + 1` entries of `source` hold.
proof fn lemma_contains_after_push(merged: Seq<usize>, source: Seq<usize>, k: int)
    requires
        0 <= k < source.len(),
    ensures
        forall|x: usize|
            merged.push(source[k]).contains(x) <==> merged.contains(x) || x == source[k],
        forall|x: usize|
            source.take(k + 1).contains(x) <==> source.take(k).contains(x) || x == source[k],
{
    let after = merged.push(source[k]);
    assert forall|x: usize| after.contains(x) <==> merged.contains(x) || x == source[k] by {
        if after.contains(x) {
            let m = choose|m: int| 0 <= m < after.len() && after[m] == x;
            if m < merged.len() {
                assert(merged[m] == x);
            }
        }
        if merged.contains(x) {
            let m = choose|m: int| 0 <= m < merged.len() && merged[m] == x;
            assert(after[m] == x);
        }
        if x == source[k] {
            assert(after[merged.len() as int] == x);
        }
    }
    let short = source.take(k);
    let long = source.take(k + 1);
    assert forall|x: usize| long.contains(x) <==> short.contains(x) || x == source[k] by {
        if long.contains(x) {
            let m = choose|m: int| 0 <= m < long.len() && long[m] == x;
            if m < k {
                assert(short[m] == x);
            }
        }
        if short.contains(x) {
            let m = choose|m: int| 0 <= m < short.len() && short[m] == x;
            assert(long[m] == x);
        }
        if x == source[k] {
            assert(long[k] == x);
        }
    }
}

/// There is one scored order under given scores: two orders that both hold
/// the scored indices, each entry before those it precedes, are the same.
pub proof fn lemma_ranking_unique(a: Seq<usize>, b: Seq<usize>, scores: Seq<Option<i64>>)
    requires
        is_ranking(a, scores),
        is_ranking(b, scores),
    ensures
        a == b,
{
    if a.len() > 0 {
        lemma_rankings_agree(a, b, scores, a.len() - 1);
    }
    if b.len() > 0 {
        lemma_rankings_agree(b, a, scores, b.len() - 1);
    }
    assert(a =~= b);
}

proof fn lemma_rankings_agree(a: Seq<usize>, b: Seq<usize>, scores: Seq<Option<i64>>, k: int)
    requires
        is_ranking(a, scores),
        is_ranking(b, scores),
        0 <= k < a.len(),
    ensures
        k < b.len(),
        forall|j: int| 0 <= j <= k ==> a[j] == b[j],
    decreases k,
{
    if k > 0 {
        lemma_rankings_agree(a, b, scores, k - 1);
    }
    let x = a[k];
    assert(scores[x as int] is Some);
    assert(b.contains(x));
    let m = choose|m: int| 0 <= m < b.len() && b[m] == x;
    if m < k {
        assert(precedes(scores, a[m], a[k]));
    } else if m > k {
        let y = b[k];
        assert(precedes(scores, b[k], b[m]));
        assert(scores[y as int] is Some);
        assert(a.contains(y));
        let w = choose|w: int| 0 <= w < a.len() && a[w] == y;
        if w < k {
            assert(b[w] == a[w]);
            assert(precedes(scores, b[w], b[k]));
        } else if w > k {
            assert(precedes(scores, a[k], a[w]));
        }
    }
}

/// A scored order holds indices of options, none twice.
pub proof fn lemma_ranking_is_order(order: Seq<usize>, scores: Seq<Option<i64>>)
    requires
        is_ranking(order, scores),
    ensures
        is_order_of(order, scores.len() as int),
{
    assert forall|a: int, b: int| 0 <= a < b < order.len() implies order[a] != order[b] by {
        assert(precedes(scores, order[a], order[b]));
    }
}

/// A scored order is no longer than the list of options: it holds indices
/// of options, none twice.
pub proof fn lemma_order_fits(order: Seq<usize>, n: int)
    requires
        0 <= n,
        is_order_of(order, n),
    ensures
        order.len() <= n,
{
    let widen = |x: usize| x as int;
    let wide = order.map_values(widen);
    assert(vstd::relations::injective(widen));
    order.lemma_no_duplicates_injective(widen);
    wide.unique_seq_to_set();
    vstd::set_lib::lemma_int_range(0, n);
    assert forall|x: int| wide.to_set().contains(x) implies vstd::set_lib::set_int_range(
        0,
        n,
    ).contains(x) by {
        let k = choose|k: int| 0 <= k < wide.len() && wide[k] == x;
        assert(order[k] < n);
    }
    vstd::set_lib::lemma_len_subset(wide.to_set(), vstd::set_lib::set_int_range(0, n));
}

/// With no score withheld and all scores equal, the scored order is the
/// order of the indices.
pub proof fn lemma_equal_scores_keep_order(scores: Seq<Option<i64>>)
    requires
        forall|i: int| 0 <= i < scores.len() ==> (#[trigger] scores[i]) is Some,
        forall|i: int, j: int|
            0 <= i < scores.len() && 0 <= j < scores.len() ==> (#[trigger] scores[i])->0 == (
            #[trigger] scores[j])->0,
        scores.len() <= usize::MAX,
    ensures
        is_ranking(identity_order(scores.len()), scores),
{
    let order = identity_order(scores.len());
    assert forall|i: int| 0 <= i < scores.len() && (#[trigger] scores[i]) is Some implies order
        .contains(i as usize) by {
        assert(order[i] == i as usize);
    }
}

/// The texts that displaying each of `options` gives.
pub fn display_texts<T: core::fmt::Display>(options: &Vec<T>) -> (texts: Vec<String>)
    ensures
        displays(options@, texts@),
{
    let mut texts: Vec<String> = Vec::new();
    let mut i: usize = 0;
    while i < options.len()
        invariant
            i <= options.len(),
            texts.len() == i,
            forall|k: int|
                0 <= k < i ==> vstd::string::to_string_from_display_ensures::<T>(
                    &options[k],
                    #[trigger] texts[k],
                ),
        decreases options.len() - i,
    {
        texts.push(options[i].to_string());
        i += 1;
    }
    texts
}

/// The indices below `n`, ascending.
pub fn all_indices(n: usize) -> (order: Vec<usize>)
    ensures
        order@ == identity_order(n as nat),
        is_order_of(order@, n as int),
{
    let mut order: Vec<usize> = Vec::new();
    let mut i: usize = 0;
    while i < n
        invariant
            i <= n,
            order.len() == i,
            forall|k: int| 0 <= k < i ==> (#[trigger] order[k]) == k,
        decreases n - i,
    {
        order.push(i);
        i += 1;
    }
    assert(order@ =~= identity_order(n as nat));
    order
}

} // verus!
