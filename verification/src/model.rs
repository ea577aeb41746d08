//! What each strategy computes, stated over natural numbers.
//!
//! Every function here maps a minimum room size, a maximum room size and a
//! population to `Some(plan)` where the strategy succeeds and to `None` where
//! it fails. The executable strategies are verified against these.

use vstd::prelude::*;
use crate::room::Dimension;

verus! {

/// The room sizes that every strategy expects: a positive minimum that does
/// not exceed the maximum.
pub open spec fn valid_sizes(min_size: nat, max_size: nat) -> bool {
    0 < min_size <= max_size
}

/// Everyone in one room, where the population is itself an allowed room size.
pub open spec fn single_room(min_size: nat, max_size: nat, population: nat) -> Option<
    Seq<Dimension>,
> {
    if min_size <= population <= max_size {
        Some(seq![Dimension { capacity: population, amount: 1 }])
    } else {
        None
    }
}

/// Only rooms of the maximum size, where they leave nobody over.
pub open spec fn full_rooms(max_size: nat, population: nat) -> Option<Seq<Dimension>> {
    if population % max_size == 0 {
        Some(seq![Dimension { capacity: max_size, amount: population / max_size }])
    } else {
        None
    }
}

/// Only rooms of the minimum size, where they leave nobody over.
pub open spec fn lots_of_matches(min_size: nat, population: nat) -> Option<Seq<Dimension>> {
    if population % min_size == 0 {
        Some(seq![Dimension { capacity: min_size, amount: population / min_size }])
    } else {
        None
    }
}

/// Whether `teams` equal rooms split the population: at least two and fewer
/// than `max_size` rooms, nobody left over, and a room size within bounds.
pub open spec fn splits_evenly(min_size: nat, max_size: nat, population: nat, teams: nat) -> bool {
    &&& 2 <= teams < max_size
    &&& population % teams == 0
    &&& min_size <= population / teams <= max_size
}

/// The smallest number of equal rooms that splits the population, where one exists.
pub open spec fn least_team_count(min_size: nat, max_size: nat, population: nat) -> nat {
    choose|teams: nat|
        splits_evenly(min_size, max_size, population, teams) && forall|other: nat|
            splits_evenly(min_size, max_size, population, other) ==> teams <= other
}

/// A number of rooms that splits the population, with none below it, is the least one.
pub proof fn lemma_least_team_count(min_size: nat, max_size: nat, population: nat, teams: nat)
    requires
        splits_evenly(min_size, max_size, population, teams),
        forall|other: nat| other < teams ==> !splits_evenly(min_size, max_size, population, other),
    ensures
        least_team_count(min_size, max_size, population) == teams,
{
    let least = least_team_count(min_size, max_size, population);
    assert(splits_evenly(min_size, max_size, population, teams) && forall|other: nat|
        splits_evenly(min_size, max_size, population, other) ==> teams <= other);
    assert(splits_evenly(min_size, max_size, population, least));
}

/// The first number of rooms from `from` up that splits the population,
/// given that `witness` does and that none below `from` does.
proof fn lemma_search_team_count(
    min_size: nat,
    max_size: nat,
    population: nat,
    from: nat,
    witness: nat,
) -> (least: nat)
    requires
        splits_evenly(min_size, max_size, population, witness),
        from <= witness,
        forall|other: nat| other < from ==> !splits_evenly(min_size, max_size, population, other),
    ensures
        splits_evenly(min_size, max_size, population, least),
        forall|other: nat| other < least ==> !splits_evenly(min_size, max_size, population, other),
    decreases witness - from,
{
    if splits_evenly(min_size, max_size, population, from) {
        from
    } else {
        lemma_search_team_count(min_size, max_size, population, from + 1, witness)
    }
}

/// Where some number of rooms splits the population, the least such number
/// exists: it splits the population and none below it does.
pub proof fn lemma_team_count_exists(min_size: nat, max_size: nat, population: nat, witness: nat)
    requires
        splits_evenly(min_size, max_size, population, witness),
    ensures
        splits_evenly(
            min_size,
            max_size,
            population,
            least_team_count(min_size, max_size, population),
        ),
        forall|other: nat|
            splits_evenly(min_size, max_size, population, other) ==> least_team_count(
                min_size,
                max_size,
                population,
            ) <= other,
{
    let least = lemma_search_team_count(min_size, max_size, population, 0, witness);
    lemma_least_team_count(min_size, max_size, population, least);
}

/// Equal rooms, as few of them as possible.
pub open spec fn even_split(min_size: nat, max_size: nat, population: nat) -> Option<
    Seq<Dimension>,
> {
    if exists|teams: nat| splits_evenly(min_size, max_size, population, teams) {
        let teams = least_team_count(min_size, max_size, population);
        Some(seq![Dimension { capacity: population / teams, amount: teams }])
    } else {
        None
    }
}

/// Full rooms, and the players they leave over in a room of their own; where
/// those are too few for a room, they share two rooms with the players of one
/// full room. The two rooms differ by one seat where the players are odd.
pub open spec fn full_tail_balance(min_size: nat, max_size: nat, population: nat) -> Option<
    Seq<Dimension>,
> {
    let full = population / max_size;
    let remainder = population % max_size;
    if remainder == 0 {
        Some(seq![Dimension { capacity: max_size, amount: full }])
    } else if remainder >= min_size {
        Some(
            seq![
                Dimension { capacity: max_size, amount: full },
                Dimension { capacity: remainder, amount: 1 },
            ],
        )
    } else if full == 0 {
        None
    } else {
        let tail = remainder + max_size;
        let half = tail / 2;
        if tail % 2 == 0 {
            Some(
                seq![
                    Dimension { capacity: max_size, amount: (full - 1) as nat },
                    Dimension { capacity: half, amount: 2 },
                ],
            )
        } else {
            Some(
                seq![
                    Dimension { capacity: max_size, amount: (full - 1) as nat },
                    Dimension { capacity: half, amount: 1 },
                    Dimension { capacity: half + 1, amount: 1 },
                ],
            )
        }
    }
}

/// The players that `count` rooms share once `count - 1` full rooms are
/// merged with the `remainder` players.
pub open spec fn affected_players(max_size: nat, remainder: nat, count: nat) -> nat {
    max_size * ((count - 1) as nat) + remainder
}

/// The size of each of `count` rooms that share the affected players, rounded down.
pub open spec fn balanced_capacity(max_size: nat, remainder: nat, count: nat) -> nat {
    affected_players(max_size, remainder, count) / count
}

/// Whether the search for balanced rooms stops at `count`: between two rooms
/// and one more than the full rooms there are, with the affected players a
/// multiple of the balanced capacity.
pub open spec fn balances(max_size: nat, remainder: nat, full: nat, count: nat) -> bool {
    &&& 2 <= count <= full + 1
    &&& affected_players(max_size, remainder, count) % balanced_capacity(
        max_size,
        remainder,
        count,
    ) == 0
}

/// The smallest count at which the search for balanced rooms stops, where one exists.
pub open spec fn least_balancing_count(max_size: nat, remainder: nat, full: nat) -> nat {
    choose|count: nat|
        balances(max_size, remainder, full, count) && forall|other: nat|
            balances(max_size, remainder, full, other) ==> count <= other
}

/// A count at which the search stops, with none below it, is the least one.
pub proof fn lemma_least_balancing_count(max_size: nat, remainder: nat, full: nat, count: nat)
    requires
        balances(max_size, remainder, full, count),
        forall|other: nat| other < count ==> !balances(max_size, remainder, full, other),
    ensures
        least_balancing_count(max_size, remainder, full) == count,
{
    let least = least_balancing_count(max_size, remainder, full);
    assert(balances(max_size, remainder, full, count) && forall|other: nat|
        balances(max_size, remainder, full, other) ==> count <= other);
    assert(balances(max_size, remainder, full, least));
}

/// The first count from `from` up at which the search stops, given that it
/// stops at `witness` and at none below `from`.
proof fn lemma_search_balancing_count(
    max_size: nat,
    remainder: nat,
    full: nat,
    from: nat,
    witness: nat,
) -> (least: nat)
    requires
        balances(max_size, remainder, full, witness),
        from <= witness,
        forall|other: nat| other < from ==> !balances(max_size, remainder, full, other),
    ensures
        balances(max_size, remainder, full, least),
        forall|other: nat| other < least ==> !balances(max_size, remainder, full, other),
    decreases witness - from,
{
    if balances(max_size, remainder, full, from) {
        from
    } else {
        lemma_search_balancing_count(max_size, remainder, full, from + 1, witness)
    }
}

/// Where the search stops at some count, the least such count exists: the
/// search stops at it and at none below it.
pub proof fn lemma_balancing_count_exists(max_size: nat, remainder: nat, full: nat, witness: nat)
    requires
        balances(max_size, remainder, full, witness),
    ensures
        balances(max_size, remainder, full, least_balancing_count(max_size, remainder, full)),
        forall|other: nat|
            balances(max_size, remainder, full, other) ==> least_balancing_count(
                max_size,
                remainder,
                full,
            ) <= other,
{
    let least = lemma_search_balancing_count(max_size, remainder, full, 0, witness);
    lemma_least_balancing_count(max_size, remainder, full, least);
}

/// Whether `count` balanced rooms are a sound share: they seat exactly the
/// affected players, and each has at least the minimum size.
pub open spec fn shares_soundly(min_size: nat, max_size: nat, remainder: nat, count: nat) -> bool {
    &&& balanced_capacity(max_size, remainder, count) * count == affected_players(
        max_size,
        remainder,
        count,
    )
    &&& balanced_capacity(max_size, remainder, count) >= min_size
}

/// Whether the last two rooms of `full_tail_balance` have at least the
/// minimum size. This holds wherever no two rooms share.
pub open spec fn tail_keeps_minimum(min_size: nat, max_size: nat, population: nat) -> bool {
    let remainder = population % max_size;
    remainder == 0 || remainder >= min_size || (remainder + max_size) / 2 >= min_size
}

/// Full rooms, and the players they leave over in a room of their own; where
/// those are too few for a room, the first count of rooms at which the search
/// stops shares them with the players of `count - 1` full rooms. There is no
/// plan where the search stops at no count, and none where the rooms it
/// stops at would not seat exactly the players they share or would be
/// smaller than the minimum.
pub open spec fn full_balance(min_size: nat, max_size: nat, population: nat) -> Option<
    Seq<Dimension>,
> {
    let full = population / max_size;
    let remainder = population % max_size;
    if remainder == 0 {
        Some(seq![Dimension { capacity: max_size, amount: full }])
    } else if remainder >= min_size {
        Some(
            seq![
                Dimension { capacity: max_size, amount: full },
                Dimension { capacity: remainder, amount: 1 },
            ],
        )
    } else if exists|count: nat| balances(max_size, remainder, full, count) {
        let count = least_balancing_count(max_size, remainder, full);
        if !shares_soundly(min_size, max_size, remainder, count) {
            None
        } else {
            Some(
            seq![
                Dimension { capacity: max_size, amount: (full + 1 - count) as nat },
                Dimension {
                    capacity: balanced_capacity(max_size, remainder, count),
                    amount: count,
                },
            ],
            )
        }
    } else {
        None
    }
}

/// The room size that spreads `leftover` players: `min_size * leftover +
/// leftover` seats divided among `leftover` rooms.
pub open spec fn spread_capacity(min_size: nat, leftover: nat) -> nat {
    (min_size * leftover + leftover) / leftover
}

/// The spread capacity is one more than the minimum size, however many
/// players are left over.
pub proof fn lemma_spread_capacity(min_size: nat, leftover: nat)
    requires
        leftover > 0,
    ensures
        spread_capacity(min_size, leftover) == min_size + 1,
{
    assert(min_size * leftover + leftover == (min_size + 1) * leftover) by (nonlinear_arith);
    vstd::arithmetic::div_mod::lemma_div_by_multiple((min_size + 1) as int, leftover as int);
}

/// As many rooms of the minimum size as the population fills; where players
/// are left over, rooms of the spread capacity instead, provided that size is
/// allowed and the rooms then seat exactly the population.
pub open spec fn quiet_rooms(min_size: nat, max_size: nat, population: nat) -> Option<
    Seq<Dimension>,
> {
    let matches = population / min_size;
    let leftover = (population - matches * min_size) as nat;
    if leftover == 0 {
        Some(seq![Dimension { capacity: min_size, amount: matches }])
    } else {
        let capacity = spread_capacity(min_size, leftover);
        if capacity <= max_size && capacity * matches == population {
            Some(seq![Dimension { capacity, amount: matches }])
        } else {
            None
        }
    }
}

} // verus!
