//! A random order of the players, drawn one by one from those that remain.

use vstd::prelude::*;
use vstd::seq_lib::{to_multiset_build, to_multiset_remove};
use rand::rngs::ThreadRng;
use rand::Rng;

verus! {

/// `rand::rngs::ThreadRng`, the handle to the generator of the running
/// thread. Nothing is known of what it holds.
#[verifier::external_type_specification]
#[verifier::external_body]
pub struct ExThreadRng(rand::rngs::ThreadRng);

/// `rand::thread_rng`: hands out the generator of the running thread.
/// Nothing is claimed of the generator. The call fails only where the
/// operating system cannot seed the generator.
pub assume_specification[ rand::thread_rng ]() -> (rng: rand::rngs::ThreadRng)
;

/// `rand::Rng::gen_range` on the range from 0 up to, not including, `bound`:
/// the number drawn is below `bound`. Which number it is depends on the
/// generator, so no more is claimed. The range must not be empty. Apart from
/// that the call fails only where the operating system gives the generator
/// no entropy when it seeds itself anew.
#[verifier::external_body]
fn random_index(rng: &mut ThreadRng, bound: usize) -> (index: usize)
    requires
        bound > 0,
    ensures
        index < bound,
{
    rng.gen_range(0..bound)
}

/// Moves the item at `position` of the pool to the end of the order. The
/// other items of the pool keep their order.
pub fn draw<T>(pool: &mut Vec<T>, order: &mut Vec<T>, position: usize)
    requires
        position < old(pool)@.len(),
    ensures
        final(pool)@ == old(pool)@.remove(position as int),
        final(order)@ == old(order)@.push(old(pool)@[position as int]),
        final(order)@.to_multiset().add(final(pool)@.to_multiset()) == old(
            order,
        )@.to_multiset().add(old(pool)@.to_multiset()),
{
    let item = pool.remove(position);
    order.push(item);
    proof {
        let picked = old(pool)@[position as int];
        to_multiset_build(old(order)@, picked);
        to_multiset_remove(old(pool)@, position as int);
        old(pool)@.to_multiset_ensures();
        assert(old(pool)@.contains(picked));
        assert(old(order)@.to_multiset().insert(picked).add(
            old(pool)@.to_multiset().remove(picked),
        ) =~= old(order)@.to_multiset().add(old(pool)@.to_multiset()));
    }
}

/// The items that remain of `items` once the positions have been drawn one
/// after another, each position counted among the items that then remain.
pub open spec fn remaining_after<T>(items: Seq<T>, positions: Seq<int>) -> Seq<T>
    decreases positions.len(),
{
    if positions.len() == 0 {
        items
    } else {
        remaining_after(items, positions.drop_last()).remove(positions.last())
    }
}

/// The items drawn from `items` at the positions, in the order of the draws,
/// each position counted among the items that then remain.
pub open spec fn order_after<T>(items: Seq<T>, positions: Seq<int>) -> Seq<T>
    decreases positions.len(),
{
    if positions.len() == 0 {
        Seq::empty()
    } else {
        order_after(items, positions.drop_last()).push(
            remaining_after(items, positions.drop_last())[positions.last()],
        )
    }
}

/// Whether the positions are draws that empty a pool of `count` items: one
/// draw for each item, each below the number of items that then remain.
pub open spec fn draws_all(count: nat, positions: Seq<int>) -> bool {
    &&& positions.len() == count
    &&& forall|k: int| 0 <= k < positions.len() ==> 0 <= #[trigger] positions[k] < count - k
}

/// Puts the items into a random order: it draws a random one of those that
/// remain until none remains. The result is the items in the order of the
/// draws, for some positions that empty the pool; which positions they are
/// depends on the generator. Whatever is drawn, the result holds every item
/// of `names` exactly as often as `names` does.
pub fn shuffle<T>(names: Vec<T>) -> (order: Vec<T>)
    ensures
        exists|positions: Seq<int>|
            draws_all(names@.len(), positions) && order@ == #[trigger] order_after(
                names@,
                positions,
            ),
        order@.to_multiset() == names@.to_multiset(),
        order@.len() == names@.len(),
{
    let mut rng = rand::thread_rng();
    let mut pool = names;
    let mut order: Vec<T> = Vec::new();
    let ghost mut positions: Seq<int> = Seq::empty();
    proof {
        assert(order@.to_multiset() =~= vstd::multiset::Multiset::<T>::empty()) by {
            order@.to_multiset_ensures();
        }
        assert(order@.to_multiset().add(pool@.to_multiset()) =~= names@.to_multiset());
        assert(order@ =~= order_after(names@, positions));
    }
    while pool.len() > 0
        invariant
            order@.to_multiset().add(pool@.to_multiset()) == names@.to_multiset(),
            order@.len() + pool@.len() == names@.len(),
            positions.len() == order@.len(),
            forall|k: int|
                0 <= k < positions.len() ==> 0 <= #[trigger] positions[k] < names@.len() - k,
            order@ == order_after(names@, positions),
            pool@ == remaining_after(names@, positions),
        decreases pool@.len(),
    {
        let position: usize = random_index(&mut rng, pool.len());
        proof {
            let drawn = positions.push(position as int);
            assert(drawn.drop_last() =~= positions);
            assert(drawn.last() == position);
            positions = drawn;
        }
        draw(&mut pool, &mut order, position);
    }
    proof {
        assert(pool@ =~= Seq::<T>::empty());
        pool@.to_multiset_ensures();
        assert(pool@.to_multiset() =~= vstd::multiset::Multiset::<T>::empty());
        assert(order@.to_multiset().add(pool@.to_multiset()) =~= order@.to_multiset());
        assert(draws_all(names@.len(), positions));
    }
    order
}

} // verus!
