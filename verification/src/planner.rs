//! Choosing a strategy by name, trying several in order, and the plan for a
//! whole request.

use vstd::prelude::*;
use crate::mode::BalanceMode;
use crate::model::{
    even_split, full_balance, full_rooms, full_tail_balance, lots_of_matches, quiet_rooms,
    single_room, valid_sizes,
};
use crate::room::{extends_with, plan_view, Dimension, RoomDimension};
use crate::strategies::{
    fn_even_split, fn_full_balance, fn_full_rooms, fn_full_tail_balance, fn_lots_of_matches,
    fn_minimum_fill, fn_single_round,
};

verus! {

/// What a strategy computes by itself. `Automatic` computes nothing by
/// itself: it only tries others.
pub open spec fn own_plan(mode: BalanceMode, min_size: nat, max_size: nat, population: nat) -> Option<
    Seq<Dimension>,
> {
    match mode {
        BalanceMode::SingleRoom => single_room(min_size, max_size, population),
        BalanceMode::FullRooms => full_rooms(max_size, population),
        BalanceMode::EvenSplit => even_split(min_size, max_size, population),
        BalanceMode::FullTailBalance => full_tail_balance(min_size, max_size, population),
        BalanceMode::FullBalance => full_balance(min_size, max_size, population),
        BalanceMode::QuietRooms => quiet_rooms(min_size, max_size, population),
        BalanceMode::LotsOfMatches => lots_of_matches(min_size, population),
        BalanceMode::Automatic => None,
    }
}

/// The strategies that `Automatic` tries, in the order in which it tries them.
pub open spec fn automatic_order() -> Seq<BalanceMode> {
    seq![
        BalanceMode::SingleRoom,
        BalanceMode::FullRooms,
        BalanceMode::EvenSplit,
        BalanceMode::FullTailBalance,
        BalanceMode::FullBalance,
        BalanceMode::QuietRooms,
    ]
}

/// The plan of the first strategy in `order` that has one.
pub open spec fn first_success(
    order: Seq<BalanceMode>,
    min_size: nat,
    max_size: nat,
    population: nat,
) -> Option<Seq<Dimension>>
    decreases order.len(),
{
    if order.len() == 0 {
        None
    } else {
        match own_plan(order.first(), min_size, max_size, population) {
            Some(plan) => Some(plan),
            None => first_success(order.drop_first(), min_size, max_size, population),
        }
    }
}

/// The plan of a strategy chosen by name.
pub open spec fn strategy_plan(
    mode: BalanceMode,
    min_size: nat,
    max_size: nat,
    population: nat,
) -> Option<Seq<Dimension>> {
    if mode == BalanceMode::Automatic {
        first_success(automatic_order(), min_size, max_size, population)
    } else {
        own_plan(mode, min_size, max_size, population)
    }
}

/// Why a request has no plan.
#[derive(Clone, Copy, Debug, PartialEq, Eq, Structural)]
pub enum PlanError {
    /// The minimum room size is zero, or the maximum is below the minimum.
    InvalidParameters,
    /// The strategy, or every strategy that was tried, failed.
    NoRooms,
}

impl PlanError {
    /// The text that tells a user of this error.
    pub open spec fn text(self) -> Seq<char> {
        match self {
            PlanError::InvalidParameters => "Invalid Parameters"@,
            PlanError::NoRooms => "No rooms generated"@,
        }
    }

    /// The text to show a user.
    pub fn message(&self) -> (message: &'static str)
        ensures
            message@ == self.text(),
    {
        match self {
            PlanError::InvalidParameters => "Invalid Parameters",
            PlanError::NoRooms => "No rooms generated",
        }
    }
}

/// The answer to a request: the plan of the chosen strategy where the sizes
/// are valid and the strategy succeeds, else the reason why there is none.
pub open spec fn planned(mode: BalanceMode, min_size: nat, max_size: nat, population: nat) -> Result<
    Seq<Dimension>,
    PlanError,
> {
    if !valid_sizes(min_size, max_size) {
        Err(PlanError::InvalidParameters)
    } else {
        match strategy_plan(mode, min_size, max_size, population) {
            Some(plan) => Ok(plan),
            None => Err(PlanError::NoRooms),
        }
    }
}

/// The strategies that `Automatic` tries, in order.
pub fn automatic_candidates() -> (order: [BalanceMode; 6])
    ensures
        order@ == automatic_order(),
{
    let order = [
        BalanceMode::SingleRoom,
        BalanceMode::FullRooms,
        BalanceMode::EvenSplit,
        BalanceMode::FullTailBalance,
        BalanceMode::FullBalance,
        BalanceMode::QuietRooms,
    ];
    assert(order@ =~= automatic_order());
    order
}

/// Runs one strategy by name. `Automatic` is no strategy of its own and
/// fails here.
pub fn run_own_strategy(
    mode: BalanceMode,
    min_size: usize,
    max_size: usize,
    player_base: usize,
    rooms: &mut Vec<RoomDimension>,
) -> (ok: bool)
    requires
        valid_sizes(min_size as nat, max_size as nat),
    ensures
        extends_with(
            own_plan(mode, min_size as nat, max_size as nat, player_base as nat),
            old(rooms)@,
            final(rooms)@,
            ok,
        ),
{
    match mode {
        BalanceMode::SingleRoom => fn_single_round(min_size, max_size, player_base, rooms),
        BalanceMode::FullRooms => fn_full_rooms(max_size, player_base, rooms),
        BalanceMode::EvenSplit => fn_even_split(min_size, max_size, player_base, rooms),
        BalanceMode::FullTailBalance => fn_full_tail_balance(
            min_size,
            max_size,
            player_base,
            rooms,
        ),
        BalanceMode::FullBalance => fn_full_balance(min_size, max_size, player_base, rooms),
        BalanceMode::QuietRooms => fn_minimum_fill(min_size, max_size, player_base, rooms),
        BalanceMode::LotsOfMatches => fn_lots_of_matches(min_size, player_base, rooms),
        BalanceMode::Automatic => false,
    }
}

/// Tries the strategies of `automatic_candidates` in order and keeps the
/// plan of the first that succeeds. It fails where none does.
pub fn automatic(
    min_size: usize,
    max_size: usize,
    player_base: usize,
    rooms: &mut Vec<RoomDimension>,
) -> (ok: bool)
    requires
        valid_sizes(min_size as nat, max_size as nat),
    ensures
        extends_with(
            first_success(
                automatic_order(),
                min_size as nat,
                max_size as nat,
                player_base as nat,
            ),
            old(rooms)@,
            final(rooms)@,
            ok,
        ),
{
    let order = automatic_candidates();
    let mut next: usize = 0;
    assert(automatic_order().skip(0) =~= automatic_order());
    while next < order.len()
        invariant
            next <= order@.len(),
            order@ == automatic_order(),
            valid_sizes(min_size as nat, max_size as nat),
            rooms@ == old(rooms)@,
            first_success(automatic_order(), min_size as nat, max_size as nat, player_base as nat)
                == first_success(
                automatic_order().skip(next as int),
                min_size as nat,
                max_size as nat,
                player_base as nat,
            ),
        decreases order@.len() - next,
    {
        let ghost rest = automatic_order().skip(next as int);
        assert(rest.first() == order@[next as int]);
        assert(rest.drop_first() =~= automatic_order().skip(next + 1));
        if run_own_strategy(order[next], min_size, max_size, player_base, rooms) {
            return true;
        }
        next += 1;
    }
    false
}

/// Runs the strategy chosen by name, `Automatic` included.
pub fn run_strategy(
    mode: BalanceMode,
    min_size: usize,
    max_size: usize,
    player_base: usize,
    rooms: &mut Vec<RoomDimension>,
) -> (ok: bool)
    requires
        valid_sizes(min_size as nat, max_size as nat),
    ensures
        extends_with(
            strategy_plan(mode, min_size as nat, max_size as nat, player_base as nat),
            old(rooms)@,
            final(rooms)@,
            ok,
        ),
{
    match mode {
        BalanceMode::Automatic => automatic(min_size, max_size, player_base, rooms),
        _ => run_own_strategy(mode, min_size, max_size, player_base, rooms),
    }
}

/// Plans the rooms for `player_base` players with the strategy chosen by
/// name. It refuses sizes that are not valid, and reports a strategy that
/// found no plan.
pub fn plan_rooms(mode: BalanceMode, min_size: usize, max_size: usize, player_base: usize) -> (result:
    Result<Vec<RoomDimension>, PlanError>)
    ensures
        match result {
            Ok(rooms) => planned(mode, min_size as nat, max_size as nat, player_base as nat) == Ok::<
                Seq<Dimension>,
                PlanError,
            >(plan_view(rooms@)),
            Err(error) => planned(mode, min_size as nat, max_size as nat, player_base as nat)
                == Err::<Seq<Dimension>, PlanError>(error),
        },
{
    if min_size == 0 || max_size < min_size {
        return Err(PlanError::InvalidParameters);
    }
    let mut rooms: Vec<RoomDimension> = Vec::new();
    if run_strategy(mode, min_size, max_size, player_base, &mut rooms) {
        assert(plan_view(Seq::<RoomDimension>::empty()) =~= Seq::<Dimension>::empty());
        Ok(rooms)
    } else {
        Err(PlanError::NoRooms)
    }
}

} // verus!
