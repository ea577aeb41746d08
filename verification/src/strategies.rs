//! The seven strategies. Each appends its plan to the list it is given and
//! returns `true`, or leaves the list as it was and returns `false`.

use vstd::prelude::*;
use vstd::arithmetic::div_mod::lemma_fundamental_div_mod;
use vstd::arithmetic::mul::lemma_mul_inequality;
use crate::model::{
    affected_players, balanced_capacity, balances, even_split, full_balance, full_rooms,
    full_tail_balance, lemma_least_balancing_count, lemma_least_team_count, lots_of_matches,
    lemma_spread_capacity, quiet_rooms, single_room, splits_evenly, valid_sizes,
};
use crate::room::{
    extends_with, lemma_plan_view_push, lemma_plan_view_push2, lemma_plan_view_push3,
    RoomDimension,
};

verus! {

/// Searches the counts from 2 up to one more than the full rooms for the
/// first at which the affected players are a multiple of the balanced
/// capacity, and returns it with that capacity and those players.
fn find_balancing_count(max_size: usize, remainder: usize, full_rooms: usize) -> (found: Option<
    (usize, usize, usize),
>)
    requires
        0 < remainder < max_size,
        max_size * full_rooms + remainder <= usize::MAX,
    ensures
        match found {
            Some((count, capacity, players)) => {
                &&& balances(max_size as nat, remainder as nat, full_rooms as nat, count as nat)
                &&& capacity == balanced_capacity(max_size as nat, remainder as nat, count as nat)
                &&& players == affected_players(max_size as nat, remainder as nat, count as nat)
                &&& forall|other: nat|
                    other < count ==> !balances(
                        max_size as nat,
                        remainder as nat,
                        full_rooms as nat,
                        other,
                    )
            },
            None => forall|other: nat|
                !balances(max_size as nat, remainder as nat, full_rooms as nat, other),
        },
{
    assert(2 * full_rooms < usize::MAX) by (nonlinear_arith)
        requires
            2 <= max_size,
            0 < remainder,
            max_size * full_rooms + remainder <= usize::MAX,
    ;
    let mut count: usize = 2;
    while count - 1 <= full_rooms
        invariant
            2 <= count <= full_rooms + 2,
            2 * full_rooms < usize::MAX,
            0 < remainder < max_size,
            max_size * full_rooms + remainder <= usize::MAX,
            forall|other: nat|
                other < count ==> !balances(
                    max_size as nat,
                    remainder as nat,
                    full_rooms as nat,
                    other,
                ),
        decreases full_rooms + 2 - count,
    {
        proof {
            lemma_mul_inequality(count - 1, full_rooms as int, max_size as int);
            assert((count - 1) * max_size == max_size * (count - 1)) by (nonlinear_arith);
            assert(full_rooms * max_size == max_size * full_rooms) by (nonlinear_arith);
            assert(max_size * (count - 1) >= count - 1) by (nonlinear_arith)
                requires
                    max_size >= 1,
                    count >= 1,
            ;
        }
        let players: usize = max_size * (count - 1) + remainder;
        let capacity: usize = players / count;
        assert(capacity >= 1) by (nonlinear_arith)
            requires
                players >= count,
                count >= 2,
                capacity == players / count,
        ;
        assert(players == affected_players(max_size as nat, remainder as nat, count as nat));
        assert(capacity == balanced_capacity(max_size as nat, remainder as nat, count as nat));
        if players % capacity == 0 {
            return Some((count, capacity, players));
        }
        count += 1;
    }
    None
}

/// Fills rooms of the maximum size and gives the players left over a room of
/// their own. Where those are too few for a room, it looks for the first
/// count of rooms, from 2 up, at which the players of `count - 1` full rooms
/// and the players left over are a multiple of the rounded-down room size,
/// and replaces those full rooms by `count` rooms of that size. It fails
/// where no count up to one more than the full rooms is such, where the
/// rooms of that size would not seat exactly the players that they share,
/// and where that size is below the minimum.
pub fn fn_full_balance(
    min_size: usize,
    max_size: usize,
    player_base: usize,
    rooms: &mut Vec<RoomDimension>,
) -> (ok: bool)
    requires
        valid_sizes(min_size as nat, max_size as nat),
    ensures
        extends_with(
            full_balance(min_size as nat, max_size as nat, player_base as nat),
            old(rooms)@,
            final(rooms)@,
            ok,
        ),
{
    let full_rooms: usize = player_base / max_size;
    let remainder: usize = player_base % max_size;
    let full_type = RoomDimension { capacity: max_size, amount: full_rooms };
    proof {
        lemma_fundamental_div_mod(player_base as int, max_size as int);
    }
    if remainder == 0 {
        rooms.push(full_type);
        proof {
            lemma_plan_view_push(old(rooms)@, full_type);
        }
        return true;
    }
    if remainder >= min_size {
        let tail_type = RoomDimension { capacity: remainder, amount: 1 };
        rooms.push(full_type);
        rooms.push(tail_type);
        proof {
            lemma_plan_view_push2(old(rooms)@, full_type, tail_type);
        }
        return true;
    }
    match find_balancing_count(max_size, remainder, full_rooms) {
        Some((count, capacity, players)) => {
            proof {
                lemma_least_balancing_count(
                    max_size as nat,
                    remainder as nat,
                    full_rooms as nat,
                    count as nat,
                );
                assert(capacity * count <= players) by (nonlinear_arith)
                    requires
                        capacity == players / count,
                        count > 0,
                ;
            }
            if capacity < min_size || capacity * count != players {
                return false;
            }
            let kept_type = RoomDimension { capacity: max_size, amount: full_rooms - (count - 1) };
            let balanced_type = RoomDimension { capacity, amount: count };
            rooms.push(kept_type);
            rooms.push(balanced_type);
            proof {
                lemma_plan_view_push2(old(rooms)@, kept_type, balanced_type);
            }
            true
        },
        None => false,
    }
}

/// Fills rooms of the maximum size and gives the players left over a room of
/// their own. Where those are too few for a room, they share two rooms with
/// the players of one full room: two equal rooms where the players are even,
/// else two rooms one seat apart. The two rooms may be smaller than the
/// minimum. It fails only where there is no full room to share with.
pub fn fn_full_tail_balance(
    min_size: usize,
    max_size: usize,
    player_base: usize,
    rooms: &mut Vec<RoomDimension>,
) -> (ok: bool)
    requires
        valid_sizes(min_size as nat, max_size as nat),
    ensures
        extends_with(
            full_tail_balance(min_size as nat, max_size as nat, player_base as nat),
            old(rooms)@,
            final(rooms)@,
            ok,
        ),
{
    let full_rooms: usize = player_base / max_size;
    let remainder: usize = player_base % max_size;
    proof {
        lemma_fundamental_div_mod(player_base as int, max_size as int);
    }
    if remainder >= min_size || remainder == 0 {
        let full_type = RoomDimension { capacity: max_size, amount: full_rooms };
        rooms.push(full_type);
        if remainder != 0 {
            let tail_type = RoomDimension { capacity: remainder, amount: 1 };
            rooms.push(tail_type);
            proof {
                lemma_plan_view_push2(old(rooms)@, full_type, tail_type);
            }
        } else {
            proof {
                lemma_plan_view_push(old(rooms)@, full_type);
            }
        }
        return true;
    }
    if full_rooms == 0 {
        return false;
    }
    assert(remainder + max_size <= usize::MAX) by (nonlinear_arith)
        requires
            player_base == max_size * full_rooms + remainder,
            full_rooms >= 1,
            max_size >= 0,
    ;
    let players_to_affect: usize = remainder + max_size;
    let full_type = RoomDimension { capacity: max_size, amount: full_rooms - 1 };
    rooms.push(full_type);
    let new_balance: usize = players_to_affect / 2;
    if players_to_affect % 2 == 0 {
        let tail_type = RoomDimension { capacity: new_balance, amount: 2 };
        rooms.push(tail_type);
        proof {
            lemma_plan_view_push2(old(rooms)@, full_type, tail_type);
        }
    } else {
        let lower_type = RoomDimension { capacity: new_balance, amount: 1 };
        let upper_type = RoomDimension { capacity: new_balance + 1, amount: 1 };
        rooms.push(lower_type);
        rooms.push(upper_type);
        proof {
            lemma_plan_view_push3(old(rooms)@, full_type, lower_type, upper_type);
        }
    }
    true
}

/// Searches the room counts from 2 up to, not including, the maximum size
/// for the first that splits the population evenly.
fn find_team_count(min_size: usize, max_size: usize, player_base: usize) -> (found: Option<usize>)
    ensures
        match found {
            Some(teams) => {
                &&& splits_evenly(
                    min_size as nat,
                    max_size as nat,
                    player_base as nat,
                    teams as nat,
                )
                &&& forall|other: nat|
                    other < teams ==> !splits_evenly(
                        min_size as nat,
                        max_size as nat,
                        player_base as nat,
                        other,
                    )
            },
            None => forall|other: nat|
                !splits_evenly(min_size as nat, max_size as nat, player_base as nat, other),
        },
{
    let mut team_count: usize = 2;
    while team_count < max_size
        invariant
            2 <= team_count,
            forall|other: nat|
                other < team_count ==> !splits_evenly(
                    min_size as nat,
                    max_size as nat,
                    player_base as nat,
                    other,
                ),
        decreases max_size - team_count,
    {
        let team_size: usize = player_base / team_count;
        if team_size <= max_size && team_size >= min_size && player_base % team_count == 0 {
            return Some(team_count);
        }
        team_count += 1;
    }
    None
}

/// Splits the players into equal rooms: the smallest number of rooms, at
/// least two and fewer than the maximum size, that leaves nobody over with a
/// room size within bounds. It fails where no such number exists.
pub fn fn_even_split(
    min_size: usize,
    max_size: usize,
    player_base: usize,
    rooms: &mut Vec<RoomDimension>,
) -> (ok: bool)
    requires
        valid_sizes(min_size as nat, max_size as nat),
    ensures
        extends_with(
            even_split(min_size as nat, max_size as nat, player_base as nat),
            old(rooms)@,
            final(rooms)@,
            ok,
        ),
{
    match find_team_count(min_size, max_size, player_base) {
        Some(team_count) => {
            let team_type = RoomDimension {
                capacity: player_base / team_count,
                amount: team_count,
            };
            rooms.push(team_type);
            proof {
                lemma_least_team_count(
                    min_size as nat,
                    max_size as nat,
                    player_base as nat,
                    team_count as nat,
                );
                lemma_plan_view_push(old(rooms)@, team_type);
            }
            true
        },
        None => false,
    }
}

/// Fills rooms of the minimum size. Where players are left over, every room
/// gets the spread capacity instead, which is one more than the minimum; it
/// then fails where that exceeds the maximum, and where the rooms would not
/// seat exactly the players.
pub fn fn_minimum_fill(
    min_size: usize,
    max_size: usize,
    player_base: usize,
    rooms: &mut Vec<RoomDimension>,
) -> (ok: bool)
    requires
        valid_sizes(min_size as nat, max_size as nat),
    ensures
        extends_with(
            quiet_rooms(min_size as nat, max_size as nat, player_base as nat),
            old(rooms)@,
            final(rooms)@,
            ok,
        ),
{
    let matches_to_populate: usize = player_base / min_size;
    proof {
        lemma_fundamental_div_mod(player_base as int, min_size as int);
        assert(matches_to_populate * min_size == min_size * matches_to_populate)
            by (nonlinear_arith);
    }
    let players_to_assign: usize = player_base - matches_to_populate * min_size;
    if players_to_assign == 0 {
        let quiet_type = RoomDimension { capacity: min_size, amount: matches_to_populate };
        rooms.push(quiet_type);
        proof {
            lemma_plan_view_push(old(rooms)@, quiet_type);
        }
        return true;
    }
    proof {
        lemma_spread_capacity(min_size as nat, players_to_assign as nat);
    }
    if min_size >= max_size {
        return false;
    }
    let balanced_cap: usize = min_size + 1;
    assert(balanced_cap * matches_to_populate == player_base <==> matches_to_populate
        == players_to_assign) by (nonlinear_arith)
        requires
            balanced_cap == min_size + 1,
            players_to_assign == player_base - matches_to_populate * min_size,
    ;
    if matches_to_populate != players_to_assign {
        return false;
    }
    let quiet_type = RoomDimension { capacity: balanced_cap, amount: matches_to_populate };
    rooms.push(quiet_type);
    proof {
        lemma_plan_view_push(old(rooms)@, quiet_type);
    }
    true
}

/// Fills rooms of the minimum size, and fails where players are left over.
pub fn fn_lots_of_matches(min_size: usize, player_base: usize, rooms: &mut Vec<RoomDimension>) -> (ok:
    bool)
    requires
        min_size > 0,
    ensures
        extends_with(
            lots_of_matches(min_size as nat, player_base as nat),
            old(rooms)@,
            final(rooms)@,
            ok,
        ),
{
    if player_base % min_size == 0 {
        let room_type = RoomDimension { capacity: min_size, amount: player_base / min_size };
        rooms.push(room_type);
        proof {
            lemma_plan_view_push(old(rooms)@, room_type);
        }
        return true;
    }
    false
}

/// Fills rooms of the maximum size, and fails where players are left over.
pub fn fn_full_rooms(max_size: usize, player_base: usize, rooms: &mut Vec<RoomDimension>) -> (ok:
    bool)
    requires
        max_size > 0,
    ensures
        extends_with(
            full_rooms(max_size as nat, player_base as nat),
            old(rooms)@,
            final(rooms)@,
            ok,
        ),
{
    if player_base % max_size == 0 {
        let room_type = RoomDimension { capacity: max_size, amount: player_base / max_size };
        rooms.push(room_type);
        proof {
            lemma_plan_view_push(old(rooms)@, room_type);
        }
        return true;
    }
    false
}

/// Puts everyone in one room, and fails where the number of players is not
/// itself a room size within bounds.
pub fn fn_single_round(
    min_size: usize,
    max_size: usize,
    player_base: usize,
    rooms: &mut Vec<RoomDimension>,
) -> (ok: bool)
    requires
        valid_sizes(min_size as nat, max_size as nat),
    ensures
        extends_with(
            single_room(min_size as nat, max_size as nat, player_base as nat),
            old(rooms)@,
            final(rooms)@,
            ok,
        ),
{
    if player_base <= max_size && player_base >= min_size {
        let room_type = RoomDimension { capacity: player_base, amount: 1 };
        rooms.push(room_type);
        proof {
            lemma_plan_view_push(old(rooms)@, room_type);
        }
        return true;
    }
    false
}

} // verus!
