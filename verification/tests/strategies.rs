use room_planner::{
    fn_even_split, fn_full_balance, fn_full_rooms, fn_full_tail_balance, fn_lots_of_matches,
    fn_minimum_fill, fn_single_round, RoomDimension,
};

fn room(capacity: usize, amount: usize) -> RoomDimension {
    RoomDimension { capacity, amount }
}

#[test]
fn single_room_takes_a_population_within_bounds() {
    let mut rooms = Vec::new();
    assert!(fn_single_round(2, 4, 3, &mut rooms));
    assert_eq!(rooms, vec![room(3, 1)]);
}

#[test]
fn single_room_takes_the_bounds_themselves() {
    let mut rooms = Vec::new();
    assert!(fn_single_round(2, 4, 2, &mut rooms));
    assert!(fn_single_round(2, 4, 4, &mut rooms));
    assert_eq!(rooms, vec![room(2, 1), room(4, 1)]);
}

#[test]
fn single_room_refuses_too_many_and_too_few() {
    let mut rooms = Vec::new();
    assert!(!fn_single_round(2, 4, 5, &mut rooms));
    assert!(!fn_single_round(2, 4, 1, &mut rooms));
    assert!(!fn_single_round(2, 4, 0, &mut rooms));
    assert!(rooms.is_empty());
}

#[test]
fn full_rooms_divide_the_population() {
    let mut rooms = Vec::new();
    assert!(fn_full_rooms(4, 8, &mut rooms));
    assert_eq!(rooms, vec![room(4, 2)]);
}

#[test]
fn full_rooms_refuse_a_remainder() {
    let mut rooms = Vec::new();
    assert!(!fn_full_rooms(4, 9, &mut rooms));
    assert!(rooms.is_empty());
}

#[test]
fn full_rooms_of_nobody_are_no_rooms() {
    let mut rooms = Vec::new();
    assert!(fn_full_rooms(4, 0, &mut rooms));
    assert_eq!(rooms, vec![room(4, 0)]);
}

#[test]
fn lots_of_matches_divide_the_population() {
    let mut rooms = Vec::new();
    assert!(fn_lots_of_matches(3, 9, &mut rooms));
    assert_eq!(rooms, vec![room(3, 3)]);
}

#[test]
fn lots_of_matches_refuse_a_remainder() {
    let mut rooms = Vec::new();
    assert!(!fn_lots_of_matches(3, 10, &mut rooms));
    assert!(rooms.is_empty());
}

#[test]
fn even_split_takes_the_smallest_count() {
    let mut rooms = Vec::new();
    assert!(fn_even_split(2, 6, 12, &mut rooms));
    assert_eq!(rooms, vec![room(6, 2)]);
}

#[test]
fn even_split_skips_counts_that_leave_a_remainder() {
    let mut rooms = Vec::new();
    assert!(fn_even_split(2, 4, 9, &mut rooms));
    assert_eq!(rooms, vec![room(3, 3)]);
}

#[test]
fn even_split_skips_counts_with_rooms_too_large() {
    let mut rooms = Vec::new();
    assert!(fn_even_split(2, 5, 12, &mut rooms));
    assert_eq!(rooms, vec![room(4, 3)]);
}

#[test]
fn even_split_fails_without_a_count() {
    let mut rooms = Vec::new();
    assert!(!fn_even_split(2, 4, 7, &mut rooms));
    assert!(!fn_even_split(2, 2, 4, &mut rooms));
    assert!(!fn_even_split(2, 4, 16, &mut rooms));
    assert!(rooms.is_empty());
}

#[test]
fn even_split_never_uses_as_many_rooms_as_the_maximum() {
    let mut rooms = Vec::new();
    assert!(!fn_even_split(1, 3, 3, &mut rooms));
    assert!(fn_even_split(1, 4, 3, &mut rooms));
    assert_eq!(rooms, vec![room(1, 3)]);
}

#[test]
fn full_tail_balance_without_remainder() {
    let mut rooms = Vec::new();
    assert!(fn_full_tail_balance(2, 4, 8, &mut rooms));
    assert_eq!(rooms, vec![room(4, 2)]);
}

#[test]
fn full_tail_balance_with_a_remainder_that_fills_a_room() {
    let mut rooms = Vec::new();
    assert!(fn_full_tail_balance(2, 4, 10, &mut rooms));
    assert_eq!(rooms, vec![room(4, 2), room(2, 1)]);
}

#[test]
fn full_tail_balance_shares_an_even_tail() {
    let mut rooms = Vec::new();
    assert!(fn_full_tail_balance(3, 4, 10, &mut rooms));
    assert_eq!(rooms, vec![room(4, 1), room(3, 2)]);
}

#[test]
fn full_tail_balance_shares_an_odd_tail() {
    let mut rooms = Vec::new();
    assert!(fn_full_tail_balance(2, 4, 9, &mut rooms));
    assert_eq!(rooms, vec![room(4, 1), room(2, 1), room(3, 1)]);
}

#[test]
fn full_tail_balance_may_go_below_the_minimum() {
    let mut rooms = Vec::new();
    assert!(fn_full_tail_balance(3, 3, 4, &mut rooms));
    assert_eq!(rooms, vec![room(3, 0), room(2, 2)]);
}

#[test]
fn full_tail_balance_fails_without_a_full_room() {
    let mut rooms = Vec::new();
    assert!(!fn_full_tail_balance(2, 4, 1, &mut rooms));
    assert!(!fn_full_tail_balance(3, 5, 2, &mut rooms));
    assert!(rooms.is_empty());
}

#[test]
fn full_tail_balance_of_nobody() {
    let mut rooms = Vec::new();
    assert!(fn_full_tail_balance(2, 4, 0, &mut rooms));
    assert_eq!(rooms, vec![room(4, 0)]);
}

#[test]
fn full_balance_without_remainder_has_no_second_entry() {
    let mut rooms = Vec::new();
    assert!(fn_full_balance(2, 4, 8, &mut rooms));
    assert_eq!(rooms, vec![room(4, 2)]);
}

#[test]
fn full_balance_with_a_remainder_that_fills_a_room() {
    let mut rooms = Vec::new();
    assert!(fn_full_balance(2, 4, 10, &mut rooms));
    assert_eq!(rooms, vec![room(4, 2), room(2, 1)]);
}

#[test]
fn full_balance_stops_at_two_rooms() {
    let mut rooms = Vec::new();
    assert!(fn_full_balance(3, 4, 6, &mut rooms));
    assert_eq!(rooms, vec![room(4, 0), room(3, 2)]);
}

#[test]
fn full_balance_stops_at_three_rooms() {
    let mut rooms = Vec::new();
    assert!(fn_full_balance(3, 5, 12, &mut rooms));
    assert_eq!(rooms, vec![room(5, 0), room(4, 3)]);
}

#[test]
fn full_balance_keeps_the_full_rooms_it_does_not_need() {
    let mut rooms = Vec::new();
    assert!(fn_full_balance(3, 5, 22, &mut rooms));
    assert_eq!(rooms, vec![room(5, 2), room(4, 3)]);
}

#[test]
fn full_balance_fails_when_the_full_rooms_run_out() {
    let mut rooms = Vec::new();
    assert!(!fn_full_balance(3, 5, 7, &mut rooms));
    assert!(!fn_full_balance(2, 4, 1, &mut rooms));
    assert!(rooms.is_empty());
}

#[test]
fn full_balance_fails_rather_than_drop_players() {
    // Three players, rooms of two: the search stops at two rooms of one seat
    // each, which would seat only two of the three.
    let mut rooms = Vec::new();
    assert!(!fn_full_balance(2, 2, 3, &mut rooms));
    // Eight players, rooms of three: three rooms of two would seat six.
    assert!(!fn_full_balance(3, 3, 8, &mut rooms));
    assert!(rooms.is_empty());
}

#[test]
fn full_balance_fails_below_the_minimum() {
    // Nine players, rooms of four: three rooms of three would seat all nine,
    // but a room of three is too small.
    let mut rooms = Vec::new();
    assert!(!fn_full_balance(4, 4, 9, &mut rooms));
    assert!(rooms.is_empty());
}

#[test]
fn full_balance_takes_rooms_of_exactly_the_minimum() {
    let mut rooms = Vec::new();
    assert!(fn_full_balance(3, 4, 9, &mut rooms));
    assert_eq!(rooms, vec![room(4, 0), room(3, 3)]);
}

#[test]
fn quiet_rooms_without_leftover() {
    let mut rooms = Vec::new();
    assert!(fn_minimum_fill(2, 4, 8, &mut rooms));
    assert_eq!(rooms, vec![room(2, 4)]);
}

#[test]
fn quiet_rooms_with_leftover_get_one_seat_more() {
    let mut rooms = Vec::new();
    assert!(fn_minimum_fill(2, 4, 3, &mut rooms));
    assert!(fn_minimum_fill(3, 4, 8, &mut rooms));
    assert_eq!(rooms, vec![room(3, 1), room(4, 2)]);
}

#[test]
fn quiet_rooms_fail_above_the_maximum() {
    let mut rooms = Vec::new();
    assert!(!fn_minimum_fill(4, 4, 5, &mut rooms));
    assert!(!fn_minimum_fill(2, 2, 3, &mut rooms));
    assert!(rooms.is_empty());
}

#[test]
fn quiet_rooms_fail_rather_than_drop_players() {
    let mut rooms = Vec::new();
    assert!(!fn_minimum_fill(2, 4, 5, &mut rooms));
    assert!(!fn_minimum_fill(3, 5, 7, &mut rooms));
    assert!(!fn_minimum_fill(3, 5, 2, &mut rooms));
    assert!(rooms.is_empty());
}

#[test]
fn quiet_rooms_work_with_the_largest_minimum() {
    let mut rooms = Vec::new();
    assert!(!fn_minimum_fill(usize::MAX, usize::MAX, usize::MAX - 1, &mut rooms));
    assert!(fn_minimum_fill(usize::MAX, usize::MAX, usize::MAX, &mut rooms));
    assert_eq!(rooms, vec![room(usize::MAX, 1)]);
}

#[test]
fn strategies_append_to_what_is_there() {
    let mut rooms = vec![room(9, 9)];
    assert!(fn_full_rooms(4, 8, &mut rooms));
    assert!(!fn_full_rooms(4, 9, &mut rooms));
    assert!(fn_full_tail_balance(2, 4, 9, &mut rooms));
    assert_eq!(rooms, vec![room(9, 9), room(4, 2), room(4, 1), room(2, 1), room(3, 1)]);
}

#[test]
fn strategies_work_with_the_largest_population() {
    let mut rooms = Vec::new();
    assert!(fn_full_tail_balance(2, 4, usize::MAX, &mut rooms));
    assert_eq!(rooms, vec![room(4, usize::MAX / 4), room(3, 1)]);
    let mut balanced = Vec::new();
    assert!(fn_full_balance(2, 4, usize::MAX, &mut balanced));
    assert_eq!(balanced, vec![room(4, usize::MAX / 4), room(3, 1)]);
}
