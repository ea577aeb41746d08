//! What holds of every plan: whom it seats, how large its rooms are, which
//! split is chosen, and that a plan depends on the request alone.

use vstd::prelude::*;
use vstd::arithmetic::div_mod::lemma_fundamental_div_mod;
use crate::mode::BalanceMode;
use crate::model::{
    affected_players, balanced_capacity, balances,
    even_split, full_balance, full_rooms, full_tail_balance, least_balancing_count,
    least_team_count, lemma_balancing_count_exists, lemma_spread_capacity,
    lemma_team_count_exists, lots_of_matches, quiet_rooms, single_room, splits_evenly,
    tail_keeps_minimum, valid_sizes,
};
use crate::planner::{automatic_order, first_success, own_plan, planned, strategy_plan, PlanError};
use crate::seating::{
    lemma_groups_fill_sizes, lemma_room_sizes_of_plan, room_sizes, seats_in_order,
};
use crate::room::{
    extends_with, lemma_plan_view_is_injective, lemma_total_of_one, lemma_total_of_three,
    lemma_total_of_two, plan_total, plan_view, room_count, within_bounds, Dimension,
    RoomDimension,
};

verus! {

/// A division without remainder gives back the dividend when multiplied.
proof fn lemma_exact_division(whole: nat, part: nat)
    requires
        part > 0,
        whole % part == 0,
    ensures
        part * (whole / part) == whole,
        (whole / part) * part == whole,
{
    lemma_fundamental_div_mod(whole as int, part as int);
    assert((whole / part) * part == part * (whole / part)) by (nonlinear_arith);
}

/// The single room seats the whole population.
pub proof fn lemma_single_room_total(min_size: nat, max_size: nat, population: nat)
    requires
        single_room(min_size, max_size, population) is Some,
    ensures
        plan_total(single_room(min_size, max_size, population)->0) == population,
{
    lemma_total_of_one(Dimension { capacity: population, amount: 1 });
}

/// Full rooms seat the whole population.
pub proof fn lemma_full_rooms_total(max_size: nat, population: nat)
    requires
        max_size > 0,
        full_rooms(max_size, population) is Some,
    ensures
        plan_total(full_rooms(max_size, population)->0) == population,
{
    lemma_total_of_one(Dimension { capacity: max_size, amount: population / max_size });
    lemma_exact_division(population, max_size);
}

/// Rooms of the minimum size seat the whole population.
pub proof fn lemma_lots_of_matches_total(min_size: nat, population: nat)
    requires
        min_size > 0,
        lots_of_matches(min_size, population) is Some,
    ensures
        plan_total(lots_of_matches(min_size, population)->0) == population,
{
    lemma_total_of_one(Dimension { capacity: min_size, amount: population / min_size });
    lemma_exact_division(population, min_size);
}

/// The even split is made of the least number of rooms that splits the
/// population: that number splits it, no smaller number does, and the plan
/// is that many rooms of the population divided by it.
pub proof fn lemma_even_split_is_least(min_size: nat, max_size: nat, population: nat)
    requires
        even_split(min_size, max_size, population) is Some,
    ensures
        ({
            let teams = least_team_count(min_size, max_size, population);
            &&& splits_evenly(min_size, max_size, population, teams)
            &&& forall|other: nat|
                splits_evenly(min_size, max_size, population, other) ==> teams <= other
            &&& even_split(min_size, max_size, population) == Some(
                seq![Dimension { capacity: population / teams, amount: teams }],
            )
        }),
{
    let witness = choose|teams: nat| splits_evenly(min_size, max_size, population, teams);
    lemma_team_count_exists(min_size, max_size, population, witness);
}

/// The even split seats the whole population.
pub proof fn lemma_even_split_total(min_size: nat, max_size: nat, population: nat)
    requires
        even_split(min_size, max_size, population) is Some,
    ensures
        plan_total(even_split(min_size, max_size, population)->0) == population,
{
    lemma_even_split_is_least(min_size, max_size, population);
    let teams = least_team_count(min_size, max_size, population);
    lemma_total_of_one(Dimension { capacity: population / teams, amount: teams });
    lemma_exact_division(population, teams);
}

/// Full rooms with a balanced tail seat the whole population.
pub proof fn lemma_full_tail_balance_total(min_size: nat, max_size: nat, population: nat)
    requires
        valid_sizes(min_size, max_size),
        full_tail_balance(min_size, max_size, population) is Some,
    ensures
        plan_total(full_tail_balance(min_size, max_size, population)->0) == population,
{
    let full = population / max_size;
    let remainder = population % max_size;
    lemma_fundamental_div_mod(population as int, max_size as int);
    if remainder == 0 {
        lemma_total_of_one(Dimension { capacity: max_size, amount: full });
    } else if remainder >= min_size {
        lemma_total_of_two(
            Dimension { capacity: max_size, amount: full },
            Dimension { capacity: remainder, amount: 1 },
        );
    } else {
        let tail = remainder + max_size;
        let half = tail / 2;
        let kept = Dimension { capacity: max_size, amount: (full - 1) as nat };
        assert(kept.seats() + max_size == max_size * full) by (nonlinear_arith)
            requires
                kept.seats() == max_size * ((full - 1) as nat),
                full >= 1,
        ;
        if tail % 2 == 0 {
            lemma_total_of_two(kept, Dimension { capacity: half, amount: 2 });
        } else {
            lemma_total_of_three(
                kept,
                Dimension { capacity: half, amount: 1 },
                Dimension { capacity: half + 1, amount: 1 },
            );
        }
    }
}

/// Full rooms with balanced rooms seat the whole population.
pub proof fn lemma_full_balance_total(min_size: nat, max_size: nat, population: nat)
    requires
        valid_sizes(min_size, max_size),
        full_balance(min_size, max_size, population) is Some,
    ensures
        plan_total(full_balance(min_size, max_size, population)->0) == population,
{
    let full = population / max_size;
    let remainder = population % max_size;
    lemma_fundamental_div_mod(population as int, max_size as int);
    if remainder == 0 {
        lemma_total_of_one(Dimension { capacity: max_size, amount: full });
    } else if remainder >= min_size {
        lemma_total_of_two(
            Dimension { capacity: max_size, amount: full },
            Dimension { capacity: remainder, amount: 1 },
        );
    } else {
        let witness = choose|count: nat| balances(max_size, remainder, full, count);
        lemma_balancing_count_exists(max_size, remainder, full, witness);
        let count = least_balancing_count(max_size, remainder, full);
        let kept = Dimension { capacity: max_size, amount: (full + 1 - count) as nat };
        let balanced = Dimension {
            capacity: balanced_capacity(max_size, remainder, count),
            amount: count,
        };
        lemma_total_of_two(kept, balanced);
        assert(kept.seats() + affected_players(max_size, remainder, count) == max_size * full
            + remainder) by (nonlinear_arith)
            requires
                kept.seats() == max_size * ((full + 1 - count) as nat),
                affected_players(max_size, remainder, count) == max_size * ((count - 1) as nat)
                    + remainder,
                2 <= count <= full + 1,
        ;
    }
}

/// Quiet rooms seat the whole population.
pub proof fn lemma_quiet_rooms_total(min_size: nat, max_size: nat, population: nat)
    requires
        valid_sizes(min_size, max_size),
        quiet_rooms(min_size, max_size, population) is Some,
    ensures
        plan_total(quiet_rooms(min_size, max_size, population)->0) == population,
{
    let matches = population / min_size;
    let leftover = (population - matches * min_size) as nat;
    lemma_fundamental_div_mod(population as int, min_size as int);
    assert(matches * min_size == min_size * matches) by (nonlinear_arith);
    if leftover == 0 {
        lemma_total_of_one(Dimension { capacity: min_size, amount: matches });
    } else {
        lemma_spread_capacity(min_size, leftover);
        lemma_total_of_one(Dimension { capacity: min_size + 1, amount: matches });
    }
}

/// What `Automatic` returns, written out: the plan of the first of its six
/// strategies that has one.
pub proof fn lemma_automatic_unfolds(min_size: nat, max_size: nat, population: nat)
    ensures
        first_success(automatic_order(), min_size, max_size, population) == (if single_room(
            min_size,
            max_size,
            population,
        ) is Some {
            single_room(min_size, max_size, population)
        } else if full_rooms(max_size, population) is Some {
            full_rooms(max_size, population)
        } else if even_split(min_size, max_size, population) is Some {
            even_split(min_size, max_size, population)
        } else if full_tail_balance(min_size, max_size, population) is Some {
            full_tail_balance(min_size, max_size, population)
        } else if full_balance(min_size, max_size, population) is Some {
            full_balance(min_size, max_size, population)
        } else {
            quiet_rooms(min_size, max_size, population)
        }),
{
    let from_single = automatic_order();
    let from_full = seq![
        BalanceMode::FullRooms,
        BalanceMode::EvenSplit,
        BalanceMode::FullTailBalance,
        BalanceMode::FullBalance,
        BalanceMode::QuietRooms,
    ];
    let from_even = seq![
        BalanceMode::EvenSplit,
        BalanceMode::FullTailBalance,
        BalanceMode::FullBalance,
        BalanceMode::QuietRooms,
    ];
    let from_tail = seq![
        BalanceMode::FullTailBalance,
        BalanceMode::FullBalance,
        BalanceMode::QuietRooms,
    ];
    let from_balance = seq![BalanceMode::FullBalance, BalanceMode::QuietRooms];
    let from_quiet = seq![BalanceMode::QuietRooms];
    assert(from_single.drop_first() =~= from_full);
    assert(from_full.drop_first() =~= from_even);
    assert(from_even.drop_first() =~= from_tail);
    assert(from_tail.drop_first() =~= from_balance);
    assert(from_balance.drop_first() =~= from_quiet);
    assert(from_quiet.drop_first() =~= Seq::<BalanceMode>::empty());
    assert(first_success(Seq::<BalanceMode>::empty(), min_size, max_size, population) is None);
    assert(first_success(from_quiet, min_size, max_size, population) == quiet_rooms(
        min_size,
        max_size,
        population,
    ));
    assert(first_success(from_balance, min_size, max_size, population) == (if full_balance(
        min_size,
        max_size,
        population,
    ) is Some {
        full_balance(min_size, max_size, population)
    } else {
        first_success(from_quiet, min_size, max_size, population)
    }));
    assert(first_success(from_tail, min_size, max_size, population) == (if full_tail_balance(
        min_size,
        max_size,
        population,
    ) is Some {
        full_tail_balance(min_size, max_size, population)
    } else {
        first_success(from_balance, min_size, max_size, population)
    }));
    assert(first_success(from_even, min_size, max_size, population) == (if even_split(
        min_size,
        max_size,
        population,
    ) is Some {
        even_split(min_size, max_size, population)
    } else {
        first_success(from_tail, min_size, max_size, population)
    }));
    assert(first_success(from_full, min_size, max_size, population) == (if full_rooms(
        max_size,
        population,
    ) is Some {
        full_rooms(max_size, population)
    } else {
        first_success(from_even, min_size, max_size, population)
    }));
}

/// Where the balanced tail fails, so do balanced rooms and quiet rooms: the
/// players are then fewer than one room of the minimum size, and not none.
pub proof fn lemma_nothing_after_tail_balance(min_size: nat, max_size: nat, population: nat)
    requires
        valid_sizes(min_size, max_size),
        full_tail_balance(min_size, max_size, population) is None,
    ensures
        0 < population < min_size,
        full_balance(min_size, max_size, population) is None,
        quiet_rooms(min_size, max_size, population) is None,
{
    lemma_fundamental_div_mod(population as int, max_size as int);
    let full = population / max_size;
    let remainder = population % max_size;
    assert(full == 0);
    assert(max_size * full == 0) by (nonlinear_arith)
        requires
            full == 0,
    ;
    assert(forall|count: nat| !balances(max_size, remainder, full, count));
    let matches = population / min_size;
    assert(matches == 0) by (nonlinear_arith)
        requires
            matches == population / min_size,
            0 <= population < min_size,
    ;
    assert(matches * min_size == 0) by (nonlinear_arith)
        requires
            matches == 0,
    ;
    lemma_spread_capacity(min_size, population);
    assert((min_size + 1) * matches == 0) by (nonlinear_arith)
        requires
            matches == 0,
    ;
}

/// `Automatic` finds a plan unless the players are fewer than one room of
/// the minimum size, and not none.
pub proof fn lemma_automatic_succeeds(min_size: nat, max_size: nat, population: nat)
    requires
        valid_sizes(min_size, max_size),
    ensures
        strategy_plan(BalanceMode::Automatic, min_size, max_size, population) is None <==> 0
            < population < min_size,
{
    lemma_automatic_unfolds(min_size, max_size, population);
    lemma_fundamental_div_mod(population as int, max_size as int);
    if full_tail_balance(min_size, max_size, population) is None {
        lemma_nothing_after_tail_balance(min_size, max_size, population);
        assert(population % max_size == population) by (nonlinear_arith)
            requires
                0 < population < max_size,
        ;
        assert forall|teams: nat| !splits_evenly(min_size, max_size, population, teams) by {
            if 2 <= teams {
                assert(population / teams <= population) by (nonlinear_arith)
                    requires
                        2 <= teams,
                        0 <= population,
                ;
            }
        }
    } else {
        if 0 < population < min_size {
            assert(population / max_size == 0) by (nonlinear_arith)
                requires
                    0 < population < max_size,
            ;
            assert(max_size * (population / max_size) == 0) by (nonlinear_arith)
                requires
                    population / max_size == 0,
            ;
        }
    }
}

/// Every plan seats exactly the population, whichever strategy made it.
pub proof fn lemma_plan_seats_population(
    mode: BalanceMode,
    min_size: nat,
    max_size: nat,
    population: nat,
)
    requires
        valid_sizes(min_size, max_size),
        strategy_plan(mode, min_size, max_size, population) is Some,
    ensures
        plan_total(strategy_plan(mode, min_size, max_size, population)->0) == population,
{
    match mode {
        BalanceMode::SingleRoom => lemma_single_room_total(min_size, max_size, population),
        BalanceMode::FullRooms => lemma_full_rooms_total(max_size, population),
        BalanceMode::EvenSplit => lemma_even_split_total(min_size, max_size, population),
        BalanceMode::FullTailBalance => lemma_full_tail_balance_total(
            min_size,
            max_size,
            population,
        ),
        BalanceMode::FullBalance => lemma_full_balance_total(min_size, max_size, population),
        BalanceMode::QuietRooms => lemma_quiet_rooms_total(min_size, max_size, population),
        BalanceMode::LotsOfMatches => lemma_lots_of_matches_total(min_size, population),
        BalanceMode::Automatic => {
            lemma_automatic_unfolds(min_size, max_size, population);
            if single_room(min_size, max_size, population) is Some {
                lemma_single_room_total(min_size, max_size, population);
            } else if full_rooms(max_size, population) is Some {
                lemma_full_rooms_total(max_size, population);
            } else if even_split(min_size, max_size, population) is Some {
                lemma_even_split_total(min_size, max_size, population);
            } else if full_tail_balance(min_size, max_size, population) is Some {
                lemma_full_tail_balance_total(min_size, max_size, population);
            } else {
                lemma_nothing_after_tail_balance(min_size, max_size, population);
            }
        },
    }
}

/// The rooms of balanced rooms have at least one seat and at most the
/// maximum size.
proof fn lemma_balanced_capacity_fits(max_size: nat, remainder: nat, count: nat)
    requires
        0 < remainder < max_size,
        2 <= count,
    ensures
        1 <= balanced_capacity(max_size, remainder, count) < max_size,
{
    let players = affected_players(max_size, remainder, count);
    assert(count <= players < max_size * count) by (nonlinear_arith)
        requires
            players == max_size * ((count - 1) as nat) + remainder,
            0 < remainder < max_size,
            2 <= count,
    ;
    assert(1 <= players / count < max_size) by (nonlinear_arith)
        requires
            count <= players < max_size * count,
            2 <= count,
    ;
}

/// Every room of every plan has at least one seat and at most the maximum
/// size, whichever strategy made it.
pub proof fn lemma_capacities_fit(mode: BalanceMode, min_size: nat, max_size: nat, population: nat)
    requires
        valid_sizes(min_size, max_size),
        strategy_plan(mode, min_size, max_size, population) is Some,
    ensures
        within_bounds(strategy_plan(mode, min_size, max_size, population)->0, 1, max_size),
{
    let full = population / max_size;
    let remainder = population % max_size;
    lemma_fundamental_div_mod(population as int, max_size as int);
    match mode {
        BalanceMode::SingleRoom => {},
        BalanceMode::FullRooms => {},
        BalanceMode::EvenSplit => {
            lemma_even_split_is_least(min_size, max_size, population);
        },
        BalanceMode::FullTailBalance => {},
        BalanceMode::FullBalance => {
            if remainder != 0 && remainder < min_size {
                let witness = choose|count: nat| balances(max_size, remainder, full, count);
                lemma_balancing_count_exists(max_size, remainder, full, witness);
                lemma_balanced_capacity_fits(
                    max_size,
                    remainder,
                    least_balancing_count(max_size, remainder, full),
                );
            }
        },
        BalanceMode::QuietRooms => {
            let leftover = (population - (population / min_size) * min_size) as nat;
            if leftover > 0 {
                lemma_spread_capacity(min_size, leftover);
            }
        },
        BalanceMode::LotsOfMatches => {},
        BalanceMode::Automatic => {
            lemma_automatic_unfolds(min_size, max_size, population);
            if single_room(min_size, max_size, population) is Some {
            } else if full_rooms(max_size, population) is Some {
            } else if even_split(min_size, max_size, population) is Some {
                lemma_even_split_is_least(min_size, max_size, population);
            } else if full_tail_balance(min_size, max_size, population) is Some {
            } else {
                lemma_nothing_after_tail_balance(min_size, max_size, population);
            }
        },
    }
}

/// What one strategy computes by itself has rooms within bounds; for the
/// balanced tail, wherever the two rooms that share players reach the
/// minimum.
proof fn lemma_own_plan_within_bounds(
    mode: BalanceMode,
    min_size: nat,
    max_size: nat,
    population: nat,
)
    requires
        valid_sizes(min_size, max_size),
        own_plan(mode, min_size, max_size, population) is Some,
        mode == BalanceMode::FullTailBalance ==> tail_keeps_minimum(
            min_size,
            max_size,
            population,
        ),
    ensures
        within_bounds(own_plan(mode, min_size, max_size, population)->0, min_size, max_size),
{
    lemma_capacities_fit(mode, min_size, max_size, population);
    let plan = own_plan(mode, min_size, max_size, population)->0;
    match mode {
        BalanceMode::EvenSplit => {
            lemma_even_split_is_least(min_size, max_size, population);
        },
        BalanceMode::QuietRooms => {
            let leftover = (population - (population / min_size) * min_size) as nat;
            if leftover > 0 {
                lemma_spread_capacity(min_size, leftover);
            }
        },
        _ => {},
    }
    assert forall|i: int| 0 <= i < plan.len() implies min_size <= (#[trigger] plan[i]).capacity
        <= max_size by {
        assert(1 <= plan[i].capacity <= max_size);
    }
}

/// Every room of a plan has at least the minimum and at most the maximum
/// size. This holds of the single room, full rooms, the even split, balanced
/// rooms, quiet rooms and rooms of the minimum size without condition; of
/// the balanced tail wherever the two rooms that share players reach the
/// minimum; and of `Automatic` wherever the even split succeeds or the
/// balanced tail reaches the minimum.
pub proof fn lemma_capacities_within_bounds(
    mode: BalanceMode,
    min_size: nat,
    max_size: nat,
    population: nat,
)
    requires
        valid_sizes(min_size, max_size),
        strategy_plan(mode, min_size, max_size, population) is Some,
        mode == BalanceMode::FullTailBalance ==> tail_keeps_minimum(
            min_size,
            max_size,
            population,
        ),
        mode == BalanceMode::Automatic ==> even_split(min_size, max_size, population) is Some
            || tail_keeps_minimum(min_size, max_size, population),
    ensures
        within_bounds(strategy_plan(mode, min_size, max_size, population)->0, min_size, max_size),
{
    if mode == BalanceMode::Automatic {
        lemma_automatic_unfolds(min_size, max_size, population);
        if single_room(min_size, max_size, population) is Some {
            lemma_own_plan_within_bounds(BalanceMode::SingleRoom, min_size, max_size, population);
        } else if full_rooms(max_size, population) is Some {
            lemma_own_plan_within_bounds(BalanceMode::FullRooms, min_size, max_size, population);
        } else if even_split(min_size, max_size, population) is Some {
            lemma_own_plan_within_bounds(BalanceMode::EvenSplit, min_size, max_size, population);
        } else if full_tail_balance(min_size, max_size, population) is Some {
            lemma_own_plan_within_bounds(
                BalanceMode::FullTailBalance,
                min_size,
                max_size,
                population,
            );
        } else {
            lemma_nothing_after_tail_balance(min_size, max_size, population);
        }
    } else {
        lemma_own_plan_within_bounds(mode, min_size, max_size, population);
    }
}

/// A strategy leaves the list it was given in one way only: two runs on the
/// same sizes, the same population and the same list agree on whether there
/// is a plan and on every room of the list afterwards.
pub proof fn lemma_strategy_is_repeatable(
    mode: BalanceMode,
    min_size: nat,
    max_size: nat,
    population: nat,
    before: Seq<RoomDimension>,
    first: Seq<RoomDimension>,
    first_ok: bool,
    second: Seq<RoomDimension>,
    second_ok: bool,
)
    requires
        extends_with(
            strategy_plan(mode, min_size, max_size, population),
            before,
            first,
            first_ok,
        ),
        extends_with(
            strategy_plan(mode, min_size, max_size, population),
            before,
            second,
            second_ok,
        ),
    ensures
        first_ok == second_ok,
        first == second,
{
    if first_ok {
        lemma_plan_view_is_injective(first, second);
    }
}

/// A request has one answer only: two plans for the same strategy, sizes and
/// population hold the same rooms in the same order, and two refusals give
/// the same reason.
pub proof fn lemma_plan_is_repeatable(
    mode: BalanceMode,
    min_size: nat,
    max_size: nat,
    population: nat,
    first: Result<Seq<RoomDimension>, PlanError>,
    second: Result<Seq<RoomDimension>, PlanError>,
)
    requires
        match first {
            Ok(rooms) => planned(mode, min_size, max_size, population) == Ok::<
                Seq<Dimension>,
                PlanError,
            >(plan_view(rooms)),
            Err(error) => planned(mode, min_size, max_size, population) == Err::<
                Seq<Dimension>,
                PlanError,
            >(error),
        },
        match second {
            Ok(rooms) => planned(mode, min_size, max_size, population) == Ok::<
                Seq<Dimension>,
                PlanError,
            >(plan_view(rooms)),
            Err(error) => planned(mode, min_size, max_size, population) == Err::<
                Seq<Dimension>,
                PlanError,
            >(error),
        },
    ensures
        first == second,
{
    match (first, second) {
        (Ok(one), Ok(other)) => {
            lemma_plan_view_is_injective(one, other);
        },
        _ => {},
    }
}

/// Shuffling and seating lose nobody and invent nobody. Where `order` holds
/// every player of `names` as often as `names` does, and `groups` seats
/// `order` in the rooms of `plan`, the groups together hold every player as
/// often as `names` does, there is one group for each room of the plan, and
/// the seats of the plan are as many as the players.
pub proof fn lemma_everyone_is_seated_once<T>(
    names: Seq<T>,
    order: Seq<T>,
    groups: Seq<Seq<T>>,
    plan: Seq<Dimension>,
)
    requires
        order.to_multiset() == names.to_multiset(),
        seats_in_order(groups, plan, order),
    ensures
        groups.flatten().to_multiset() == names.to_multiset(),
        groups.flatten().len() == names.len(),
        groups.len() == room_count(plan),
        plan_total(plan) == names.len(),
{
    names.to_multiset_ensures();
    order.to_multiset_ensures();
    lemma_room_sizes_of_plan(plan);
    lemma_groups_fill_sizes(groups, room_sizes(plan));
}

} // verus!
