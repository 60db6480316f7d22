use inquire::scoring::{all_indices, display_texts, rank, reconcile_cursor};

#[test]
fn rank_orders_by_descending_score() {
    let scores = vec![Some(1), Some(5), Some(3)];
    assert_eq!(rank(&scores), vec![1, 2, 0]);
}

#[test]
fn rank_drops_options_without_score() {
    let scores = vec![None, Some(2), None, Some(9), None];
    assert_eq!(rank(&scores), vec![3, 1]);
}

#[test]
fn rank_breaks_ties_by_ascending_index() {
    let scores = vec![Some(4), Some(7), Some(4), Some(7), Some(4)];
    assert_eq!(rank(&scores), vec![1, 3, 0, 2, 4]);
}

#[test]
fn rank_of_equal_scores_is_the_identity() {
    let scores = vec![Some(0); 6];
    assert_eq!(rank(&scores), vec![0, 1, 2, 3, 4, 5]);
}

#[test]
fn rank_handles_negative_and_extreme_scores() {
    let scores = vec![Some(-1), Some(i64::MIN), Some(i64::MAX), Some(0), None, Some(i64::MIN)];
    assert_eq!(rank(&scores), vec![2, 3, 0, 1, 5]);
}

#[test]
fn rank_of_nothing_is_empty() {
    let scores: Vec<Option<i64>> = Vec::new();
    assert_eq!(rank(&scores), Vec::<usize>::new());
    let scores: Vec<Option<i64>> = vec![None, None];
    assert_eq!(rank(&scores), Vec::<usize>::new());
}

#[test]
fn rank_of_ascending_scores_reverses() {
    let scores: Vec<Option<i64>> = (0..50).map(Some).collect();
    let expected: Vec<usize> = (0..50).rev().collect();
    assert_eq!(rank(&scores), expected);
}

#[test]
fn reconcile_resets_to_first_row() {
    assert_eq!(reconcile_cursor(4, 10, true), 0);
    assert_eq!(reconcile_cursor(0, 10, true), 0);
    assert_eq!(reconcile_cursor(4, 0, true), 0);
}

#[test]
fn reconcile_keeps_a_cursor_inside_the_list() {
    assert_eq!(reconcile_cursor(4, 10, false), 4);
    assert_eq!(reconcile_cursor(9, 10, false), 9);
}

#[test]
fn reconcile_clamps_a_cursor_beyond_the_list() {
    assert_eq!(reconcile_cursor(10, 10, false), 9);
    assert_eq!(reconcile_cursor(4, 2, false), 1);
    assert_eq!(reconcile_cursor(4, 0, false), 0);
}

#[test]
fn all_indices_counts_up() {
    assert_eq!(all_indices(0), Vec::<usize>::new());
    assert_eq!(all_indices(4), vec![0, 1, 2, 3]);
}

#[test]
fn display_texts_are_what_display_writes() {
    assert_eq!(display_texts(&vec![1, 22, 333]), vec!["1", "22", "333"]);
    assert_eq!(display_texts(&vec!["a", "b"]), vec!["a", "b"]);
}

#[test]
fn rank_agrees_with_sorting_by_score_then_index() {
    // scores from a fixed sequence that repeats values and withholds some
    let mut state: u64 = 12345;
    for len in [0usize, 1, 2, 3, 7, 8, 9, 64, 100, 257] {
        let mut scores: Vec<Option<i64>> = Vec::new();
        for _ in 0..len {
            state = state.wrapping_mul(6364136223846793005).wrapping_add(1442695040888963407);
            let draw = (state >> 33) % 11;
            scores.push(if draw == 0 { None } else { Some(draw as i64 - 6) });
        }
        let mut expected: Vec<(i64, usize)> = scores
            .iter()
            .enumerate()
            .filter_map(|(index, score)| score.map(|score| (-score, index)))
            .collect();
        expected.sort();
        let expected: Vec<usize> = expected.into_iter().map(|(_, index)| index).collect();
        assert_eq!(rank(&scores), expected);
    }
}

#[test]
fn rank_of_many_options_is_fast() {
    // ascending scores put every option before all those seen so far
    let scores: Vec<Option<i64>> = (0..200_000).map(Some).collect();
    let order = rank(&scores);
    assert_eq!(order.len(), 200_000);
    assert_eq!(order[0], 199_999);
    assert_eq!(order[199_999], 0);
}
