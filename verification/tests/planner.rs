use room_planner::{automatic, plan_rooms, run_strategy, BalanceMode, PlanError, RoomDimension};

const MODES: [BalanceMode; 8] = [
    BalanceMode::SingleRoom,
    BalanceMode::FullRooms,
    BalanceMode::EvenSplit,
    BalanceMode::FullTailBalance,
    BalanceMode::FullBalance,
    BalanceMode::QuietRooms,
    BalanceMode::LotsOfMatches,
    BalanceMode::Automatic,
];

fn room(capacity: usize, amount: usize) -> RoomDimension {
    RoomDimension { capacity, amount }
}

fn seats(plan: &[RoomDimension]) -> usize {
    plan.iter().map(|entry| entry.capacity * entry.amount).sum()
}

#[test]
fn automatic_returns_the_single_room_first() {
    assert_eq!(plan_rooms(BalanceMode::Automatic, 2, 4, 3), Ok(vec![room(3, 1)]));
    assert_eq!(
        plan_rooms(BalanceMode::Automatic, 2, 4, 3),
        plan_rooms(BalanceMode::SingleRoom, 2, 4, 3)
    );
}

#[test]
fn automatic_prefers_one_full_room_to_full_rooms() {
    assert_eq!(plan_rooms(BalanceMode::Automatic, 2, 4, 4), Ok(vec![room(4, 1)]));
}

#[test]
fn automatic_falls_through_to_full_rooms() {
    assert_eq!(plan_rooms(BalanceMode::Automatic, 2, 4, 8), Ok(vec![room(4, 2)]));
}

#[test]
fn automatic_falls_through_to_the_even_split() {
    assert_eq!(plan_rooms(BalanceMode::Automatic, 2, 6, 8), Ok(vec![room(4, 2)]));
    assert_eq!(plan_rooms(BalanceMode::Automatic, 2, 4, 9), Ok(vec![room(3, 3)]));
}

#[test]
fn automatic_falls_through_to_the_balanced_tail() {
    assert_eq!(plan_rooms(BalanceMode::Automatic, 2, 4, 7), Ok(vec![room(4, 1), room(3, 1)]));
    assert_eq!(plan_rooms(BalanceMode::Automatic, 3, 3, 4), Ok(vec![room(3, 0), room(2, 2)]));
}

#[test]
fn automatic_fails_below_one_room() {
    assert_eq!(plan_rooms(BalanceMode::Automatic, 2, 4, 1), Err(PlanError::NoRooms));
    assert_eq!(plan_rooms(BalanceMode::Automatic, 5, 9, 4), Err(PlanError::NoRooms));
}

#[test]
fn automatic_plans_for_nobody() {
    assert_eq!(plan_rooms(BalanceMode::Automatic, 2, 4, 0), Ok(vec![room(4, 0)]));
}

#[test]
fn automatic_leaves_lots_of_matches_out() {
    // Five rooms of one player would do; `Automatic` does not try them.
    assert_eq!(plan_rooms(BalanceMode::LotsOfMatches, 1, 2, 5), Ok(vec![room(1, 5)]));
    assert_eq!(plan_rooms(BalanceMode::Automatic, 1, 2, 5), Ok(vec![room(2, 2), room(1, 1)]));
}

#[test]
fn automatic_appends_to_what_is_there() {
    let mut rooms = vec![room(7, 7)];
    assert!(automatic(2, 4, 7, &mut rooms));
    assert!(!automatic(2, 4, 1, &mut rooms));
    assert_eq!(rooms, vec![room(7, 7), room(4, 1), room(3, 1)]);
}

#[test]
fn automatic_fails_exactly_below_one_room() {
    for min_size in 1..7 {
        for max_size in min_size..9 {
            for population in 0..70 {
                let mut rooms = Vec::new();
                let ok = automatic(min_size, max_size, population, &mut rooms);
                assert_eq!(ok, !(0 < population && population < min_size));
            }
        }
    }
}

#[test]
fn each_strategy_is_chosen_by_its_name() {
    assert_eq!(plan_rooms(BalanceMode::SingleRoom, 2, 4, 3), Ok(vec![room(3, 1)]));
    assert_eq!(plan_rooms(BalanceMode::FullRooms, 2, 4, 8), Ok(vec![room(4, 2)]));
    assert_eq!(plan_rooms(BalanceMode::EvenSplit, 2, 6, 12), Ok(vec![room(6, 2)]));
    assert_eq!(
        plan_rooms(BalanceMode::FullTailBalance, 2, 4, 9),
        Ok(vec![room(4, 1), room(2, 1), room(3, 1)])
    );
    assert_eq!(plan_rooms(BalanceMode::FullBalance, 3, 5, 12), Ok(vec![room(5, 0), room(4, 3)]));
    assert_eq!(plan_rooms(BalanceMode::QuietRooms, 3, 4, 8), Ok(vec![room(4, 2)]));
    assert_eq!(plan_rooms(BalanceMode::LotsOfMatches, 3, 5, 9), Ok(vec![room(3, 3)]));
}

#[test]
fn each_strategy_reports_that_it_found_no_rooms() {
    assert_eq!(plan_rooms(BalanceMode::SingleRoom, 2, 4, 5), Err(PlanError::NoRooms));
    assert_eq!(plan_rooms(BalanceMode::FullRooms, 2, 4, 9), Err(PlanError::NoRooms));
    assert_eq!(plan_rooms(BalanceMode::EvenSplit, 2, 4, 7), Err(PlanError::NoRooms));
    assert_eq!(plan_rooms(BalanceMode::FullTailBalance, 2, 4, 1), Err(PlanError::NoRooms));
    assert_eq!(plan_rooms(BalanceMode::FullBalance, 3, 5, 7), Err(PlanError::NoRooms));
    assert_eq!(plan_rooms(BalanceMode::QuietRooms, 2, 4, 5), Err(PlanError::NoRooms));
    assert_eq!(plan_rooms(BalanceMode::LotsOfMatches, 3, 5, 10), Err(PlanError::NoRooms));
}

#[test]
fn sizes_are_checked_before_any_planning() {
    for mode in MODES {
        assert_eq!(plan_rooms(mode, 4, 2, 8), Err(PlanError::InvalidParameters));
        assert_eq!(plan_rooms(mode, 0, 4, 8), Err(PlanError::InvalidParameters));
        assert_eq!(plan_rooms(mode, 0, 0, 0), Err(PlanError::InvalidParameters));
    }
    assert_eq!(plan_rooms(BalanceMode::FullRooms, 4, 4, 8), Ok(vec![room(4, 2)]));
}

#[test]
fn run_strategy_agrees_with_plan_rooms() {
    for mode in MODES {
        for population in 0..40 {
            let mut rooms = Vec::new();
            let ok = run_strategy(mode, 2, 5, population, &mut rooms);
            match plan_rooms(mode, 2, 5, population) {
                Ok(plan) => {
                    assert!(ok);
                    assert_eq!(plan, rooms);
                }
                Err(error) => {
                    assert!(!ok);
                    assert_eq!(error, PlanError::NoRooms);
                    assert!(rooms.is_empty());
                }
            }
        }
    }
}

#[test]
fn the_same_request_gives_the_same_plan() {
    for mode in MODES {
        for max_size in 2..8 {
            for population in 0..50 {
                assert_eq!(
                    plan_rooms(mode, 2, max_size, population),
                    plan_rooms(mode, 2, max_size, population)
                );
            }
        }
    }
}

#[test]
fn every_plan_seats_the_population() {
    for mode in MODES {
        for min_size in 1..7 {
            for max_size in min_size..9 {
                for population in 0..70 {
                    if let Ok(plan) = plan_rooms(mode, min_size, max_size, population) {
                        assert_eq!(seats(&plan), population);
                    }
                }
            }
        }
    }
}

#[test]
fn balanced_rooms_seat_the_population_or_there_is_no_plan() {
    // Twelve players in three rooms of four: nobody is left over.
    assert_eq!(seats(&plan_rooms(BalanceMode::FullBalance, 3, 5, 12).unwrap()), 12);
    assert_eq!(seats(&plan_rooms(BalanceMode::FullBalance, 3, 5, 22).unwrap()), 22);
    // Three players in two rooms of one, eight in three rooms of two:
    // somebody would be left over.
    assert_eq!(plan_rooms(BalanceMode::FullBalance, 2, 2, 3), Err(PlanError::NoRooms));
    assert_eq!(plan_rooms(BalanceMode::FullBalance, 3, 3, 8), Err(PlanError::NoRooms));
}

#[test]
fn every_room_has_a_seat_and_fits_the_maximum() {
    for mode in MODES {
        for min_size in 1..7 {
            for max_size in min_size..9 {
                for population in 0..70 {
                    if let Ok(plan) = plan_rooms(mode, min_size, max_size, population) {
                        for entry in plan {
                            assert!(1 <= entry.capacity && entry.capacity <= max_size);
                        }
                    }
                }
            }
        }
    }
}

#[test]
fn rooms_reach_the_minimum_outside_the_balanced_tail() {
    let strict = [
        BalanceMode::SingleRoom,
        BalanceMode::FullRooms,
        BalanceMode::EvenSplit,
        BalanceMode::FullBalance,
        BalanceMode::QuietRooms,
        BalanceMode::LotsOfMatches,
    ];
    for mode in strict {
        for min_size in 1..7 {
            for max_size in min_size..9 {
                for population in 0..70 {
                    if let Ok(plan) = plan_rooms(mode, min_size, max_size, population) {
                        for entry in plan {
                            assert!(min_size <= entry.capacity && entry.capacity <= max_size);
                        }
                    }
                }
            }
        }
    }
}

#[test]
fn only_the_balanced_tail_may_miss_the_minimum() {
    assert_eq!(plan_rooms(BalanceMode::FullTailBalance, 3, 3, 4), Ok(vec![room(3, 0), room(2, 2)]));
    assert_eq!(plan_rooms(BalanceMode::FullBalance, 4, 4, 9), Err(PlanError::NoRooms));
    assert_eq!(plan_rooms(BalanceMode::FullBalance, 3, 4, 9), Ok(vec![room(4, 0), room(3, 3)]));
}

#[test]
fn a_failed_strategy_names_its_reason() {
    assert_eq!(
        BalanceMode::SingleRoom.failure_message(),
        Some("Not enough players to conduct a match")
    );
    assert_eq!(
        BalanceMode::FullRooms.failure_message(),
        Some("Unable to split on maximum room size")
    );
    assert_eq!(BalanceMode::EvenSplit.failure_message(), Some("Unable to evenly split teams"));
    assert_eq!(
        BalanceMode::FullTailBalance.failure_message(),
        Some("Unable to balance the last rooms")
    );
    assert_eq!(BalanceMode::FullBalance.failure_message(), Some("Unable to balance rooms"));
    assert_eq!(
        BalanceMode::QuietRooms.failure_message(),
        Some("**** People need to drop out, or find more players")
    );
    assert_eq!(
        BalanceMode::LotsOfMatches.failure_message(),
        Some("Unable to split on lowest team size")
    );
    assert_eq!(BalanceMode::Automatic.failure_message(), None);
}

#[test]
fn an_error_names_its_reason() {
    assert_eq!(PlanError::InvalidParameters.message(), "Invalid Parameters");
    assert_eq!(PlanError::NoRooms.message(), "No rooms generated");
}
