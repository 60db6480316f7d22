use inquire::cursor::{cursor_down, cursor_up};

#[test]
fn up_inside_the_list_subtracts() {
    assert_eq!(cursor_up(5, 10, 3, true), 2);
    assert_eq!(cursor_up(5, 10, 3, false), 2);
    assert_eq!(cursor_up(5, 10, 5, false), 0);
    assert_eq!(cursor_up(5, 10, 0, true), 5);
}

#[test]
fn up_by_one_from_first_row_wraps_to_last() {
    assert_eq!(cursor_up(0, 1, 1, true), 0);
    assert_eq!(cursor_up(0, 2, 1, true), 1);
    assert_eq!(cursor_up(0, 7, 1, true), 6);
    assert_eq!(cursor_up(0, 1000, 1, true), 999);
}

#[test]
fn up_past_the_start_wraps_by_the_overshoot() {
    // three rows above row 1: one to row 0, the other two counted from the end
    assert_eq!(cursor_up(1, 10, 3, true), 8);
    assert_eq!(cursor_up(2, 5, 7, true), 0);
    // an overshoot longer than the list lands on the first row
    assert_eq!(cursor_up(2, 5, 8, true), 0);
    assert_eq!(cursor_up(0, 5, usize::MAX, true), 0);
}

#[test]
fn up_without_wrap_stops_at_first_row() {
    assert_eq!(cursor_up(3, 10, 4, false), 0);
    assert_eq!(cursor_up(0, 10, 1, false), 0);
    assert_eq!(cursor_up(9, 10, usize::MAX, false), 0);
}

#[test]
fn up_in_empty_list_stays_on_zero() {
    assert_eq!(cursor_up(0, 0, 1, true), 0);
    assert_eq!(cursor_up(0, 0, 1, false), 0);
    assert_eq!(cursor_up(0, 0, usize::MAX, false), 0);
}

#[test]
fn down_inside_the_list_adds() {
    assert_eq!(cursor_down(2, 10, 3, true), 5);
    assert_eq!(cursor_down(2, 10, 3, false), 5);
    assert_eq!(cursor_down(2, 10, 7, false), 9);
    assert_eq!(cursor_down(2, 10, 0, true), 2);
}

#[test]
fn down_by_one_from_last_row_wraps_to_first() {
    assert_eq!(cursor_down(0, 1, 1, true), 0);
    assert_eq!(cursor_down(1, 2, 1, true), 0);
    assert_eq!(cursor_down(6, 7, 1, true), 0);
    assert_eq!(cursor_down(999, 1000, 1, true), 0);
}

#[test]
fn down_past_the_end_wraps_modulo_length() {
    assert_eq!(cursor_down(8, 10, 3, true), 1);
    assert_eq!(cursor_down(8, 10, 13, true), 1);
    assert_eq!(cursor_down(4, 5, 11, true), 0);
}

#[test]
fn down_with_wrap_counts_every_row_of_a_huge_move() {
    // (3 + (2^64 - 1)) mod 10 is 8 on a 64-bit machine: the sum is not cut
    // off at the largest integer.
    let expected = ((3u128 + usize::MAX as u128) % 10) as usize;
    assert_eq!(cursor_down(3, 10, usize::MAX, true), expected);
}

#[test]
fn down_without_wrap_stops_at_last_row() {
    assert_eq!(cursor_down(8, 10, 5, false), 9);
    assert_eq!(cursor_down(9, 10, 1, false), 9);
    assert_eq!(cursor_down(0, 10, usize::MAX, false), 9);
}

#[test]
fn down_in_empty_list_stays_on_zero() {
    assert_eq!(cursor_down(0, 0, 1, true), 0);
    assert_eq!(cursor_down(0, 0, 1, false), 0);
    assert_eq!(cursor_down(0, 0, usize::MAX, false), 0);
}

#[test]
fn unwrapped_moves_never_leave_the_list() {
    for len in 1usize..6 {
        for cursor in 0..len {
            for qty in [0usize, 1, 2, 3, 5, 8, 100, usize::MAX] {
                let up = cursor_up(cursor, len, qty, false);
                let down = cursor_down(cursor, len, qty, false);
                assert!(up <= cursor);
                assert!(down >= cursor);
                assert!(down < len);
            }
        }
    }
}
