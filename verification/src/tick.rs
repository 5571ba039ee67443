//! The tick orchestrator: advances the whole world by one timestep.
//!
//! Snapshot discipline: all of a tick's behavior decisions and target
//! resolutions read a read-only copy of the world taken at tick start,
//! so a tick's outcome does not depend on the order in which creatures
//! are processed. Writes land in the live registry, one creature at a
//! time.

use vstd::prelude::*;
use vstd::pervasive::VecAdditionalExecFns;
use crate::entities::Creature;
use crate::entities::FoodSource;
use crate::behavior::hunger_step;
use crate::behavior::food_select;
use crate::behavior::wander_step;
use crate::behavior::steer_step;
use crate::behavior::bc_step;
use crate::behavior::face_step;
use crate::rng::find_random_walk_target;
use crate::world::World;

verus! {

/// The creature after hunger decay and behavior selection: food
/// seeking when hungry, wandering (with random draw `(d, k)`)
/// otherwise.
pub open spec fn tick_aimed(c: Creature, w: World, d: int, k: int) -> Creature {
    let fed = hunger_step(c);
    if fed.is_hungry_spec() {
        food_select(fed, w)
    } else {
        wander_step(fed, d, k)
    }
}

/// The creature after selection and arrival steering, before boundary
/// repulsion.
pub open spec fn tick_moved(c: Creature, w: World, d: int, k: int) -> Creature {
    steer_step(tick_aimed(c, w, d, k), w)
}

/// One creature's full tick against the world snapshot `w`, with the
/// random draw `(d, k)`: hunger decay, then behavior selection — food
/// seeking when hungry, wandering otherwise — then arrival steering,
/// boundary repulsion and the facing update.
pub open spec fn creature_tick(c: Creature, w: World, d: int, k: int) -> Creature {
    face_step(bc_step(tick_moved(c, w, d, k), w.bounds, w.params))
}

/// `creature_tick` reads the world only through its entry sequences,
/// parameters and bounds.
pub proof fn lemma_tick_congruence(c: Creature, w1: World, w2: World, d: int, k: int)
    requires
        w1.creatures@ == w2.creatures@,
        w1.food_sources@ == w2.food_sources@,
        w1.params == w2.params,
        w1.bounds == w2.bounds,
    ensures
        creature_tick(c, w1, d, k) == creature_tick(c, w2, d, k),
{
    let fed = hunger_step(c);
    assert(food_select(fed, w1) == food_select(fed, w2));
    let aimed = if fed.is_hungry_spec() {
        food_select(fed, w1)
    } else {
        wander_step(fed, d, k)
    };
    assert(steer_step(aimed, w1) == steer_step(aimed, w2));
}

/// Advance one creature by one tick, reading the snapshot `world`.
pub fn update_creature(
    rng: &mut rand::rngs::ThreadRng,
    creature: &mut Creature,
    world: &World,
)
    requires
        old(creature).wf(),
        world.wf(),
    ensures
        final(creature).wf(),
        exists|d: int, k: int|
            10_000 <= d < 80_000 && -30 <= k <= 30 && *final(creature) == creature_tick(
                *old(creature),
                *world,
                d,
                k,
            ),
{
    crate::behavior::update_hunger(creature);
    if creature.is_hungry() {
        crate::behavior::find_food(creature, world);
        creature.move_to_target(world);
        crate::behavior::apply_bc(creature, world);
        creature.update_facing();
        proof {
            assert(*creature == creature_tick(*old(creature), *world, 10_000, 0));
        }
    } else {
        find_random_walk_target(rng, creature);
        let ghost dk: (int, int) = choose|d: int, k: int|
            10_000 <= d < 80_000 && -30 <= k <= 30 && *creature == wander_step(
                hunger_step(*old(creature)),
                d,
                k,
            );
        creature.move_to_target(world);
        crate::behavior::apply_bc(creature, world);
        creature.update_facing();
        proof {
            assert(10_000 <= dk.0 < 80_000 && -30 <= dk.1 <= 30 && *creature == creature_tick(
                *old(creature),
                *world,
                dk.0,
                dk.1,
            ));
        }
    }
}

/// Copy the creature entries, element by element.
fn clone_creature_entries(v: &Vec<(usize, Creature)>) -> (r: Vec<(usize, Creature)>)
    ensures
        r@ == v@,
{
    let mut r: Vec<(usize, Creature)> = Vec::new();
    let n = v.len();
    let mut i: usize = 0;
    proof {
        assert(r@ =~= v@.subrange(0, 0));
    }
    while i < n
        invariant
            0 <= i <= n,
            n == v@.len(),
            r@ == v@.subrange(0, i as int),
        decreases n - i,
    {
        r.push(v[i]);
        proof {
            assert(r@ =~= v@.subrange(0, i + 1));
        }
        i = i + 1;
    }
    proof {
        assert(r@ =~= v@);
    }
    r
}

/// Copy the food-source entries, element by element.
fn clone_food_entries(v: &Vec<(usize, FoodSource)>) -> (r: Vec<(usize, FoodSource)>)
    ensures
        r@ == v@,
{
    let mut r: Vec<(usize, FoodSource)> = Vec::new();
    let n = v.len();
    let mut i: usize = 0;
    proof {
        assert(r@ =~= v@.subrange(0, 0));
    }
    while i < n
        invariant
            0 <= i <= n,
            n == v@.len(),
            r@ == v@.subrange(0, i as int),
        decreases n - i,
    {
        r.push(v[i]);
        proof {
            assert(r@ =~= v@.subrange(0, i + 1));
        }
        i = i + 1;
    }
    proof {
        assert(r@ =~= v@);
    }
    r
}

/// Update all food sources. Amounts do not change yet — regrowth is a
/// hook any collaborator may fill in without touching creature logic.
pub fn update_food_sources(_rng: &mut rand::rngs::ThreadRng, world: &mut World)
    requires
        old(world).wf(),
    ensures
        *final(world) == *old(world),
{
}

/// Advance every creature by one tick, each against the same snapshot
/// of the world taken before any creature moved.
pub fn update_creatures(rng: &mut rand::rngs::ThreadRng, world: &mut World)
    requires
        old(world).wf(),
    ensures
        final(world).wf(),
        final(world).params == old(world).params,
        final(world).bounds == old(world).bounds,
        final(world).next_id == old(world).next_id,
        final(world).food_sources@ == old(world).food_sources@,
        final(world).creatures@.len() == old(world).creatures@.len(),
        forall|i: int|
            0 <= i < old(world).creatures@.len() ==> {
                &&& (#[trigger] final(world).creatures@[i]).0 == old(world).creatures@[i].0
                &&& exists|d: int, k: int|
                    10_000 <= d < 80_000 && -30 <= k <= 30 && final(world).creatures@[i].1
                        == creature_tick(old(world).creatures@[i].1, *old(world), d, k)
            },
{
    let ghost w0 = *old(world);
    let snapshot = World {
        next_id: world.next_id,
        creatures: clone_creature_entries(&world.creatures),
        food_sources: clone_food_entries(&world.food_sources),
        params: world.params,
        bounds: world.bounds,
    };
    let n = world.creatures.len();
    let mut i: usize = 0;
    while i < n
        invariant
            world.wf(),
            snapshot.wf(),
            n == world.creatures@.len(),
            0 <= i <= n,
            snapshot.creatures@ == w0.creatures@,
            snapshot.food_sources@ == w0.food_sources@,
            snapshot.params == w0.params,
            snapshot.bounds == w0.bounds,
            snapshot.next_id == w0.next_id,
            world.params == w0.params,
            world.bounds == w0.bounds,
            world.next_id == w0.next_id,
            world.food_sources@ == w0.food_sources@,
            world.creatures@.len() == w0.creatures@.len(),
            forall|j: int| i <= j < n ==> #[trigger] world.creatures@[j] == w0.creatures@[j],
            forall|j: int|
                0 <= j < i ==> {
                    &&& (#[trigger] world.creatures@[j]).0 == w0.creatures@[j].0
                    &&& exists|d: int, k: int|
                        10_000 <= d < 80_000 && -30 <= k <= 30 && world.creatures@[j].1
                            == creature_tick(w0.creatures@[j].1, w0, d, k)
                },
        decreases n - i,
    {
        let entry = world.creatures[i];
        let id = entry.0;
        let mut creature = entry.1;
        proof {
            assert(world.creatures@[i as int].1.wf());
        }
        update_creature(rng, &mut creature, &snapshot);
        proof {
            let (d, k) = choose|d: int, k: int|
                10_000 <= d < 80_000 && -30 <= k <= 30 && creature == creature_tick(
                    w0.creatures@[i as int].1,
                    snapshot,
                    d,
                    k,
                );
            lemma_tick_congruence(w0.creatures@[i as int].1, snapshot, w0, d, k);
            assert(10_000 <= d < 80_000 && -30 <= k <= 30 && creature == creature_tick(
                w0.creatures@[i as int].1,
                w0,
                d,
                k,
            ));
        }
        world.creatures.set(i, (id, creature));
        i = i + 1;
    }
}

/// Advance the whole world by one timestep: food sources first, then
/// every creature exactly once, against a consistent snapshot.
pub fn update_world(rng: &mut rand::rngs::ThreadRng, world: &mut World)
    requires
        old(world).wf(),
    ensures
        final(world).wf(),
        final(world).params == old(world).params,
        final(world).bounds == old(world).bounds,
        final(world).next_id == old(world).next_id,
        final(world).food_sources@ == old(world).food_sources@,
        final(world).creatures@.len() == old(world).creatures@.len(),
        forall|i: int|
            0 <= i < old(world).creatures@.len() ==> {
                &&& (#[trigger] final(world).creatures@[i]).0 == old(world).creatures@[i].0
                &&& exists|d: int, k: int|
                    10_000 <= d < 80_000 && -30 <= k <= 30 && final(world).creatures@[i].1
                        == creature_tick(old(world).creatures@[i].1, *old(world), d, k)
            },
{
    let ghost w0 = *old(world);
    update_food_sources(rng, world);
    let ghost mid = *world;
    update_creatures(rng, world);
    proof {
        assert(mid == w0);
        assert forall|i: int| 0 <= i < w0.creatures@.len() implies exists|d: int, k: int|
            10_000 <= d < 80_000 && -30 <= k <= 30 && (#[trigger] world.creatures@[i]).1
                == creature_tick(w0.creatures@[i].1, w0, d, k) by {
            let (d, k) = choose|d: int, k: int|
                10_000 <= d < 80_000 && -30 <= k <= 30 && world.creatures@[i].1 == creature_tick(
                    mid.creatures@[i].1,
                    mid,
                    d,
                    k,
                );
            assert(10_000 <= d < 80_000 && -30 <= k <= 30 && world.creatures@[i].1
                == creature_tick(w0.creatures@[i].1, w0, d, k));
        }
    }
}

} // verus!
