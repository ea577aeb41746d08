//! Seating an ordered list of players in the rooms of a plan.

use vstd::prelude::*;
use crate::room::{plan_total, plan_view, room_count, Dimension, RoomDimension};

verus! {

/// The sizes of the rooms of a plan, one after another: for each entry in
/// plan order its capacity, as often as its amount.
pub open spec fn room_sizes(plan: Seq<Dimension>) -> Seq<nat>
    decreases plan.len(),
{
    if plan.len() == 0 {
        Seq::empty()
    } else {
        room_sizes(plan.drop_last()) + Seq::new(
            plan.last().amount,
            |i: int| plan.last().capacity,
        )
    }
}

/// The players of each group, group by group.
pub open spec fn groups_view<T>(groups: Seq<Vec<T>>) -> Seq<Seq<T>> {
    groups.map_values(|group: Vec<T>| group@)
}

/// Whether `groups` seats the players of `order` in the rooms of `plan`:
/// there is one group for each room, each group is as large as its room, and
/// the groups one after another are the players in their order.
pub open spec fn seats_in_order<T>(groups: Seq<Seq<T>>, plan: Seq<Dimension>, order: Seq<T>) -> bool {
    &&& groups.len() == room_sizes(plan).len()
    &&& forall|k: int| 0 <= k < groups.len() ==> (#[trigger] groups[k]).len() == room_sizes(plan)[k]
    &&& groups.flatten() == order
}

/// The seats of rooms of the given sizes together.
pub open spec fn total_size(sizes: Seq<nat>) -> nat
    decreases sizes.len(),
{
    if sizes.len() == 0 {
        0
    } else {
        sizes.first() + total_size(sizes.drop_first())
    }
}

/// Rooms listed one after another have their seats added up.
pub proof fn lemma_total_size_concat(front: Seq<nat>, back: Seq<nat>)
    ensures
        total_size(front + back) == total_size(front) + total_size(back),
    decreases front.len(),
{
    if front.len() == 0 {
        assert(front + back =~= back);
    } else {
        lemma_total_size_concat(front.drop_first(), back);
        assert((front + back).drop_first() =~= front.drop_first() + back);
    }
}

/// `amount` rooms of `capacity` seats have `capacity * amount` seats together.
pub proof fn lemma_total_size_of_equal_rooms(capacity: nat, amount: nat)
    ensures
        total_size(Seq::new(amount, |i: int| capacity)) == capacity * amount,
    decreases amount,
{
    let sizes = Seq::new(amount, |i: int| capacity);
    if amount == 0 {
        assert(capacity * amount == 0) by (nonlinear_arith)
            requires
                amount == 0,
        ;
    } else {
        let fewer = (amount - 1) as nat;
        lemma_total_size_of_equal_rooms(capacity, fewer);
        assert(sizes.drop_first() =~= Seq::new(fewer, |i: int| capacity));
        assert(capacity + capacity * fewer == capacity * amount) by (nonlinear_arith)
            requires
                fewer == amount - 1,
        ;
    }
}

/// The rooms of a plan are as many as it counts, and have together the
/// seats that it totals.
pub proof fn lemma_room_sizes_of_plan(plan: Seq<Dimension>)
    ensures
        room_sizes(plan).len() == room_count(plan),
        total_size(room_sizes(plan)) == plan_total(plan),
    decreases plan.len(),
{
    if plan.len() > 0 {
        lemma_room_sizes_of_plan(plan.drop_last());
        lemma_total_size_concat(
            room_sizes(plan.drop_last()),
            Seq::new(plan.last().amount, |i: int| plan.last().capacity),
        );
        lemma_total_size_of_equal_rooms(plan.last().capacity, plan.last().amount);
    }
}

/// Groups that are as large as the given sizes hold together as many
/// players as the sizes total.
pub proof fn lemma_groups_fill_sizes<T>(groups: Seq<Seq<T>>, sizes: Seq<nat>)
    requires
        groups.len() == sizes.len(),
        forall|k: int| 0 <= k < groups.len() ==> (#[trigger] groups[k]).len() == sizes[k],
    ensures
        groups.flatten().len() == total_size(sizes),
    decreases groups.len(),
{
    if groups.len() > 0 {
        assert forall|k: int| 0 <= k < groups.drop_first().len() implies (
        #[trigger] groups.drop_first()[k]).len() == sizes.drop_first()[k] by {
            assert(groups.drop_first()[k] == groups[k + 1]);
        }
        lemma_groups_fill_sizes(groups.drop_first(), sizes.drop_first());
    }
}

/// A plan seats no fewer players than its first `count` entries.
proof fn lemma_total_of_prefix(plan: Seq<Dimension>, count: int)
    requires
        0 <= count <= plan.len(),
    ensures
        plan_total(plan.take(count)) <= plan_total(plan),
    decreases plan.len(),
{
    if count == plan.len() {
        assert(plan.take(count) =~= plan);
    } else {
        lemma_total_of_prefix(plan.drop_last(), count);
        assert(plan.drop_last().take(count) =~= plan.take(count));
    }
}

/// One entry more adds its rooms and its seats.
proof fn lemma_prefix_step(plan: Seq<Dimension>, count: int)
    requires
        0 <= count < plan.len(),
    ensures
        plan_total(plan.take(count + 1)) == plan_total(plan.take(count)) + plan[count].seats(),
        room_sizes(plan.take(count + 1)) == room_sizes(plan.take(count)) + Seq::new(
            plan[count].amount,
            |i: int| plan[count].capacity,
        ),
{
    assert(plan.take(count + 1).drop_last() =~= plan.take(count));
    assert(plan.take(count + 1).last() == plan[count]);
}

/// Seats the players of `order`, in their order, in the rooms of `plan`, in
/// plan order: the first room gets the first players, as many as it has
/// seats, the next room the next, and so on. It seats nobody, and returns
/// `None`, unless the plan seats exactly as many players as there are.
pub fn assign_rooms<T>(plan: &Vec<RoomDimension>, order: Vec<T>) -> (result: Option<Vec<Vec<T>>>)
    ensures
        result is Some <==> plan_total(plan_view(plan@)) == order@.len(),
        match result {
            Some(groups) => seats_in_order(groups_view(groups@), plan_view(plan@), order@),
            None => true,
        },
{
    let ghost rooms = plan_view(plan@);
    let mut groups: Vec<Vec<T>> = Vec::new();
    let mut rest: Vec<T> = order;
    let mut entry: usize = 0;
    proof {
        assert(rooms.take(0) =~= Seq::<Dimension>::empty());
        assert(groups_view(groups@) =~= Seq::<Seq<T>>::empty());
        assert(groups_view(groups@).flatten() + rest@ =~= order@);
    }
    while entry < plan.len()
        invariant
            rooms == plan_view(plan@),
            entry <= plan@.len(),
            groups_view(groups@).flatten() + rest@ == order@,
            groups@.len() == room_sizes(rooms.take(entry as int)).len(),
            forall|k: int|
                0 <= k < groups@.len() ==> (#[trigger] groups@[k])@.len() == room_sizes(
                    rooms.take(entry as int),
                )[k],
            order@.len() - rest@.len() == plan_total(rooms.take(entry as int)),
        decreases plan@.len() - entry,
    {
        let capacity: usize = plan[entry].capacity;
        let amount: usize = plan[entry].amount;
        let ghost before = room_sizes(rooms.take(entry as int));
        let mut made: usize = 0;
        proof {
            assert(rooms[entry as int] == plan@[entry as int]@);
            lemma_prefix_step(rooms, entry as int);
            lemma_total_of_prefix(rooms, entry + 1);
            assert(made * capacity == 0) by (nonlinear_arith)
                requires
                    made == 0,
            ;
        }
        while made < amount
            invariant
                rooms == plan_view(plan@),
                entry < plan@.len(),
                made <= amount,
                capacity == rooms[entry as int].capacity,
                amount == rooms[entry as int].amount,
                before == room_sizes(rooms.take(entry as int)),
                groups_view(groups@).flatten() + rest@ == order@,
                groups@.len() == before.len() + made,
                forall|k: int|
                    0 <= k < before.len() ==> (#[trigger] groups@[k])@.len() == before[k],
                forall|k: int|
                    before.len() <= k < groups@.len() ==> (#[trigger] groups@[k])@.len()
                        == capacity,
                order@.len() - rest@.len() == plan_total(rooms.take(entry as int)) + made
                    * capacity,
                plan_total(rooms.take(entry + 1)) == plan_total(rooms.take(entry as int))
                    + capacity * amount,
                plan_total(rooms.take(entry + 1)) <= plan_total(rooms),
            decreases amount - made,
        {
            proof {
                assert((made + 1) * capacity == made * capacity + capacity) by (nonlinear_arith);
                assert((made + 1) * capacity <= capacity * amount) by (nonlinear_arith)
                    requires
                        made + 1 <= amount,
                ;
            }
            if rest.len() < capacity {
                return None;
            }
            let ghost seated = groups_view(groups@).flatten();
            let ghost waiting = rest@;
            let tail = rest.split_off(capacity);
            let group = rest;
            proof {
                assert(group@ + tail@ =~= waiting);
                assert(groups_view(groups@.push(group)) =~= groups_view(groups@).push(group@));
                groups_view(groups@).lemma_flatten_push(group@);
                assert((seated + group@) + tail@ =~= seated + (group@ + tail@));
            }
            groups.push(group);
            rest = tail;
            made += 1;
        }
        proof {
            assert(made * capacity == capacity * amount) by (nonlinear_arith)
                requires
                    made == amount,
            ;
        }
        entry += 1;
    }
    proof {
        assert(rooms.take(entry as int) =~= rooms);
    }
    if rest.len() != 0 {
        return None;
    }
    proof {
        assert(groups_view(groups@).flatten() + rest@ =~= groups_view(groups@).flatten());
        assert(groups_view(groups@).len() == groups@.len());
        assert forall|k: int| 0 <= k < groups_view(groups@).len() implies (#[trigger] groups_view(
            groups@,
        )[k]).len() == room_sizes(rooms)[k] by {
            assert(groups_view(groups@)[k] == groups@[k]@);
        }
    }
    Some(groups)
}

} // verus!
