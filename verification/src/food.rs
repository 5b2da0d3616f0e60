//! Consumable food items.
//!
//! A food item carries an integer quantity, decremented by one unit per
//! successful eat event; it is destroyed once the quantity drops below one.

use vstd::prelude::*;

use crate::events::SpawnEvent;
use crate::rng::sample_inclusive;
use crate::vec2::{in_bounds, Vec2i, COORD_LIMIT};

verus! {

/// Most food items allowed to exist at once.
pub const MAX_FOOD: usize = 10;

/// Half-width of the square region food is scattered over.
pub const FOOD_SPREAD: i64 = 500;

/// A consumable item: identity, position and remaining quantity.
#[derive(Clone, Copy, Debug, PartialEq, Eq, Structural)]
pub struct Food {
    pub id: u64,
    pub pos: Vec2i,
    pub quantity: i64,
}

impl Food {
    pub open spec fn wf(self) -> bool {
        in_bounds(self.pos, COORD_LIMIT as int) && 0 <= self.quantity <= 1_000_000
    }

    /// A fresh food item holding one unit.
    pub fn new(id: u64, pos: Vec2i) -> (r: Food)
        requires
            in_bounds(pos, COORD_LIMIT as int),
        ensures
            r == (Food { id, pos, quantity: 1i64 }),
            r.wf(),
    {
        Food { id, pos, quantity: 1 }
    }
}

/// Food items that remain after eaten ones are destroyed: exactly those
/// with at least one unit left, in order.
pub open spec fn spec_surviving_food(fs: Seq<Food>) -> Seq<Food>
    decreases fs.len(),
{
    if fs.len() == 0 {
        Seq::empty()
    } else {
        let rest = spec_surviving_food(fs.drop_last());
        if fs.last().quantity < 1 {
            rest
        } else {
            rest.push(fs.last())
        }
    }
}

/// Destroys food whose quantity has dropped below one.
pub fn despawn_eaten_food(foods: &mut Vec<Food>)
    ensures
        final(foods)@ == spec_surviving_food(old(foods)@),
{
    let ghost orig = foods@;
    let mut kept: Vec<Food> = Vec::new();
    let mut k: usize = 0;
    while k < foods.len()
        invariant
            foods@ == orig,
            k <= orig.len(),
            kept@ == spec_surviving_food(orig.subrange(0, k as int)),
        decreases orig.len() - k,
    {
        let f = foods[k];
        proof {
            assert(orig.subrange(0, k + 1).drop_last() =~= orig.subrange(0, k as int));
            assert(orig.subrange(0, k + 1).last() == orig[k as int]);
        }
        if f.quantity >= 1 {
            kept.push(f);
        }
        k = k + 1;
    }
    proof {
        assert(orig.subrange(0, orig.len() as int) =~= orig);
    }
    *foods = kept;
}

/// While fewer than `MAX_FOOD` items exist, requests one new food item at
/// a position drawn uniformly from the spread region; otherwise requests
/// nothing.
pub fn spawn_food(food_count: usize, events: &mut Vec<SpawnEvent>)
    ensures
        food_count >= MAX_FOOD ==> final(events)@ == old(events)@,
        food_count < MAX_FOOD ==> final(events)@.len() == old(events)@.len() + 1
            && final(events)@.subrange(0, old(events)@.len() as int) == old(events)@
            && (final(events)@.last() matches SpawnEvent::Food { position } && in_bounds(
            position,
            FOOD_SPREAD as int,
        )),
{
    if food_count >= MAX_FOOD {
        return ;
    }
    let x = sample_inclusive(-FOOD_SPREAD, FOOD_SPREAD);
    let y = sample_inclusive(-FOOD_SPREAD, FOOD_SPREAD);
    events.push(SpawnEvent::Food { position: Vec2i { x, y } });
    proof {
        assert(events@.subrange(0, events@.len() - 1) =~= old(events)@);
    }
}

} // verus!
