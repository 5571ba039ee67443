//! Randomness: the one place the library leans on the `rand` crate.
//!
//! Every random draw goes through `rand_range_i64`; everything computed
//! from the drawn values is ordinary verified code, so each caller's
//! contract states what holds for every possible draw.

use vstd::prelude::*;
use rand::RngExt;
use crate::math::Vec2i;
use crate::math::COORD_LIMIT;
use crate::entities::Bounds;
use crate::entities::Creature;
use crate::entities::FoodSource;
use crate::entities::HUNGER_LIMIT;
use crate::behavior::set_wander_target;
use crate::behavior::wander_offset;
use crate::behavior::wander_step;

verus! {

/// Declares rand's thread-local generator, `rand::rngs::ThreadRng`, so
/// that signatures here can carry it; the verifier sees nothing inside.
#[verifier::external_type_specification]
#[verifier::external_body]
pub struct ExThreadRng(rand::rngs::ThreadRng);

/// Relies on rand::RngExt::random_range over the half-open i64 range
/// `lo..hi`: it returns a uniform sample within the range and panics
/// only when the range is empty.
#[verifier::external_body]
pub(crate) fn rand_range_i64(rng: &mut rand::rngs::ThreadRng, lo: i64, hi: i64) -> (r: i64)
    requires
        lo < hi,
    ensures
        lo <= r < hi,
{
    rng.random_range(lo..hi)
}

/// A uniformly random point within the bounds, both upper edges
/// excluded.
pub fn rvec2_range(rng: &mut rand::rngs::ThreadRng, bounds: &Bounds) -> (r: Vec2i)
    requires
        bounds.wf(),
    ensures
        bounds.holds(r),
        r.bounded(COORD_LIMIT as int),
{
    let x = rand_range_i64(rng, bounds.x_min, bounds.x_max);
    let y = rand_range_i64(rng, bounds.y_min, bounds.y_max);
    Vec2i { x, y }
}

impl FoodSource {
    /// A food source at a random point in bounds, with a random
    /// capacity in `[50, 100)` points, full.
    pub fn new_rand(rng: &mut rand::rngs::ThreadRng, bounds: &Bounds) -> (f: FoodSource)
        requires
            bounds.wf(),
        ensures
            f.wf(),
            bounds.holds(f.position),
            f.amount == f.max_amount,
            50_000 <= f.max_amount < 100_000,
    {
        let max_amount = rand_range_i64(rng, 50_000, 100_000);
        FoodSource {
            position: rvec2_range(rng, bounds),
            max_amount,
            amount: max_amount,
        }
    }
}

/// A creature at a random point in bounds: at rest, facing along the
/// positive x axis, full, with a random hunger rate in `[0.01, 0.1)`
/// and a random hunger threshold in `[25, 75)` points.
pub fn random_creature(rng: &mut rand::rngs::ThreadRng, bounds: &Bounds) -> (c: Creature)
    requires
        bounds.wf(),
    ensures
        c.wf(),
        bounds.holds(c.position),
        c.velocity == (Vec2i { x: 0, y: 0 }),
        c.facing == (Vec2i { x: 1000, y: 0 }),
        c.strength == 1000,
        c.dexterity == 1000,
        c.hunger == HUNGER_LIMIT,
        10 <= c.hunger_rate < 100,
        25_000 <= c.hunger_threshold < 75_000,
        c.color < 5,
        c.movement_target is None,
{
    let position = rvec2_range(rng, bounds);
    let hunger_rate = rand_range_i64(rng, 10, 100);
    let hunger_threshold = rand_range_i64(rng, 25_000, 75_000);
    let color = rand_range_i64(rng, 0, 5);
    Creature {
        position,
        velocity: Vec2i { x: 0, y: 0 },
        facing: Vec2i { x: 1000, y: 0 },
        strength: 1000,
        dexterity: 1000,
        hunger: HUNGER_LIMIT,
        hunger_rate,
        hunger_threshold,
        color: color as u8,
        movement_target: None,
    }
}

/// Pick a random wander target in the cone in front of the creature:
/// distance uniform in `[10, 80)` units, angle within 30 degrees of the
/// facing. An existing target of any kind persists.
pub fn find_random_walk_target(rng: &mut rand::rngs::ThreadRng, creature: &mut Creature)
    requires
        old(creature).wf(),
    ensures
        final(creature).wf(),
        exists|d: int, k: int|
            {
                &&& 10_000 <= d < 80_000
                &&& -30 <= k <= 30
                &&& *final(creature) == wander_step(*old(creature), d, k)
                &&& (d - 19) * (d - 19) <= wander_offset(*old(creature), d, k).sq() <= d * d
            },
{
    let d = rand_range_i64(rng, 10_000, 80_000);
    let k = rand_range_i64(rng, -30, 31);
    set_wander_target(creature, d, k);
    proof {
        assert({
            &&& 10_000 <= (d as int) < 80_000
            &&& -30 <= (k as int) <= 30
            &&& *creature == wander_step(*old(creature), d as int, k as int)
            &&& (d - 19) * (d - 19) <= wander_offset(*old(creature), d as int, k as int).sq()
                <= d * d
        });
    }
}

} // verus!
