//! The data model: rooms of one size, plans, and what a plan seats.

use vstd::prelude::*;

verus! {

/// `amount` rooms that each seat `capacity` players.
#[derive(Clone, Copy, Debug, PartialEq, Eq, Structural)]
pub struct RoomDimension {
    pub capacity: usize,
    pub amount: usize,
}

/// The mathematical content of a [`RoomDimension`]: unbounded naturals.
pub struct Dimension {
    pub capacity: nat,
    pub amount: nat,
}

impl Dimension {
    /// The players that all rooms of this size seat together.
    pub open spec fn seats(self) -> nat {
        self.capacity * self.amount
    }
}

impl View for RoomDimension {
    type V = Dimension;

    open spec fn view(&self) -> Dimension {
        Dimension { capacity: self.capacity as nat, amount: self.amount as nat }
    }
}

/// The plan that a list of room dimensions stands for.
pub open spec fn plan_view(rooms: Seq<RoomDimension>) -> Seq<Dimension> {
    rooms.map_values(|r: RoomDimension| r@)
}

/// The players that a plan seats: the sum of `capacity * amount` over its entries.
pub open spec fn plan_total(plan: Seq<Dimension>) -> nat
    decreases plan.len(),
{
    if plan.len() == 0 {
        0
    } else {
        plan_total(plan.drop_last()) + plan.last().seats()
    }
}

/// The number of rooms in a plan: the sum of `amount` over its entries.
pub open spec fn room_count(plan: Seq<Dimension>) -> nat
    decreases plan.len(),
{
    if plan.len() == 0 {
        0
    } else {
        room_count(plan.drop_last()) + plan.last().amount
    }
}

/// A plan of one entry seats what that entry seats.
pub proof fn lemma_total_of_one(first: Dimension)
    ensures
        plan_total(seq![first]) == first.seats(),
        room_count(seq![first]) == first.amount,
{
    assert(seq![first].drop_last() =~= Seq::<Dimension>::empty());
    assert(plan_total(Seq::<Dimension>::empty()) == 0);
    assert(room_count(Seq::<Dimension>::empty()) == 0);
}

/// A plan of two entries seats what the two seat together.
pub proof fn lemma_total_of_two(first: Dimension, second: Dimension)
    ensures
        plan_total(seq![first, second]) == first.seats() + second.seats(),
        room_count(seq![first, second]) == first.amount + second.amount,
{
    lemma_total_of_one(first);
    assert(seq![first, second].drop_last() =~= seq![first]);
}

/// A plan of three entries seats what the three seat together.
pub proof fn lemma_total_of_three(first: Dimension, second: Dimension, third: Dimension)
    ensures
        plan_total(seq![first, second, third]) == first.seats() + second.seats() + third.seats(),
        room_count(seq![first, second, third]) == first.amount + second.amount + third.amount,
{
    lemma_total_of_two(first, second);
    assert(seq![first, second, third].drop_last() =~= seq![first, second]);
}

/// Whether every room of a plan has at least `min_size` and at most
/// `max_size` seats.
pub open spec fn within_bounds(plan: Seq<Dimension>, min_size: nat, max_size: nat) -> bool {
    forall|i: int| 0 <= i < plan.len() ==> min_size <= (#[trigger] plan[i]).capacity <= max_size
}

/// How a strategy leaves the list it was given: with the rooms of `plan`
/// appended in order where there is a plan and `ok` is true, unchanged where
/// there is none and `ok` is false.
pub open spec fn extends_with(
    plan: Option<Seq<Dimension>>,
    before: Seq<RoomDimension>,
    after: Seq<RoomDimension>,
    ok: bool,
) -> bool {
    match plan {
        Some(rooms) => ok && plan_view(after) == plan_view(before) + rooms,
        None => !ok && after == before,
    }
}

/// Two lists that stand for the same plan hold the same rooms.
pub proof fn lemma_plan_view_is_injective(one: Seq<RoomDimension>, other: Seq<RoomDimension>)
    requires
        plan_view(one) == plan_view(other),
    ensures
        one == other,
{
    assert(plan_view(one).len() == one.len());
    assert(plan_view(other).len() == other.len());
    assert forall|i: int| 0 <= i < one.len() implies one[i] == other[i] by {
        assert(plan_view(one)[i] == one[i]@);
        assert(plan_view(other)[i] == other[i]@);
    }
    assert(one =~= other);
}

/// Appending one room to a list appends its content to the plan.
pub proof fn lemma_plan_view_push(rooms: Seq<RoomDimension>, room: RoomDimension)
    ensures
        plan_view(rooms.push(room)) == plan_view(rooms).push(room@),
        plan_view(rooms.push(room)) == plan_view(rooms) + seq![room@],
{
    assert(plan_view(rooms.push(room)) =~= plan_view(rooms).push(room@));
    assert(plan_view(rooms).push(room@) =~= plan_view(rooms) + seq![room@]);
}

/// Appending two rooms to a list appends their contents, in order, to the plan.
pub proof fn lemma_plan_view_push2(
    rooms: Seq<RoomDimension>,
    first: RoomDimension,
    second: RoomDimension,
)
    ensures
        plan_view(rooms.push(first).push(second)) == plan_view(rooms) + seq![first@, second@],
{
    lemma_plan_view_push(rooms, first);
    lemma_plan_view_push(rooms.push(first), second);
    assert(plan_view(rooms).push(first@).push(second@) =~= plan_view(rooms)
        + seq![first@, second@]);
}

/// Appending three rooms to a list appends their contents, in order, to the plan.
pub proof fn lemma_plan_view_push3(
    rooms: Seq<RoomDimension>,
    first: RoomDimension,
    second: RoomDimension,
    third: RoomDimension,
)
    ensures
        plan_view(rooms.push(first).push(second).push(third)) == plan_view(rooms)
            + seq![first@, second@, third@],
{
    lemma_plan_view_push2(rooms, first, second);
    lemma_plan_view_push(rooms.push(first).push(second), third);
    assert((plan_view(rooms) + seq![first@, second@]).push(third@) =~= plan_view(rooms)
        + seq![first@, second@, third@]);
}

} // verus!
