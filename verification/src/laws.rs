//! The library's laws: properties of the behavior model that hold for
//! every creature and every world, stated and proved over the spec
//! functions that the executable functions' contracts use.

use vstd::prelude::*;
use crate::math::lemma_clamp_len_sq;
use crate::math::lemma_comp_bounded;
use crate::math::sq_len;
use crate::math::Vec2i;
use crate::math::div_tz;
use crate::math::COORD_LIMIT;
use crate::math::DEX_LIMIT;
use crate::math::VEL_LIMIT;
use crate::entities::Bounds;
use crate::entities::Creature;
use crate::entities::Params;
use crate::entities::Target;
use crate::behavior::axis_force;
use crate::behavior::bc_step;
use crate::behavior::face_step;
use crate::behavior::first_min_idx;
use crate::behavior::food_select;
use crate::behavior::food_sq_dist;
use crate::behavior::hunger_step;
use crate::behavior::is_first_min;
use crate::behavior::lemma_wander_rot_sq_big;
use crate::behavior::steer_increment;
use crate::behavior::steer_step;
use crate::behavior::wander_offset;
use crate::behavior::wander_rot;
use crate::behavior::wander_step;
use crate::behavior::ARRIVE_SQ;
use crate::entities::FoodSource;
use crate::tick::creature_tick;
use crate::tick::tick_aimed;
use crate::tick::tick_moved;
use crate::world::World;

verus! {

/// Hunger monotonicity under rest: a stationary creature loses exactly
/// 0.01 hunger points per tick until clamped at zero, and its hunger
/// never goes negative.
pub proof fn lemma_hunger_monotonic_at_rest(c: Creature)
    requires
        c.wf(),
        c.velocity.is_zero(),
    ensures
        hunger_step(c).hunger == if c.hunger >= 10 {
            c.hunger - 10
        } else {
            0
        },
        hunger_step(c).hunger >= 0,
        c.hunger > 0 ==> hunger_step(c).hunger < c.hunger,
{
    assert(c.velocity.sq() == 0) by (nonlinear_arith)
        requires
            c.velocity.x == 0,
            c.velocity.y == 0,
    ;
    assert(c.hunger_rate * c.velocity.sq() == 0) by (nonlinear_arith)
        requires
            c.velocity.sq() == 0,
    ;
}

/// Speed bound: one steering tick never drives the squared speed above
/// `(dexterity * 10)²`. Boundary repulsion is a separate force and is
/// not covered by this bound.
pub proof fn lemma_speed_bound_after_steering(c: Creature, w: World)
    requires
        1 <= c.dexterity <= DEX_LIMIT,
        c.velocity.sq() <= c.max_speed_spec() * c.max_speed_spec(),
    ensures
        steer_step(c, w).velocity.sq() <= c.max_speed_spec() * c.max_speed_spec(),
{
    let ms = c.max_speed_spec();
    match c.movement_target {
        None => {},
        Some(t) => match t.resolve_spec(w) {
            None => {},
            Some(tp) => {
                let sqd = sq_len(tp.x - c.position.x, tp.y - c.position.y);
                if sqd < ARRIVE_SQ {
                    assert(steer_step(c, w).velocity.sq() == 0) by (nonlinear_arith)
                        requires
                            steer_step(c, w).velocity.x == 0,
                            steer_step(c, w).velocity.y == 0,
                    ;
                } else {
                    let sc = steer_increment(c, tp);
                    let v1 = Vec2i {
                        x: (c.velocity.x + sc.x) as i64,
                        y: (c.velocity.y + sc.y) as i64,
                    };
                    lemma_clamp_len_sq(v1, ms);
                }
            },
        },
    }
}

/// No boundary force acts on the creature where it stands.
pub open spec fn no_boundary_force(c: Creature, b: Bounds, pm: Params) -> bool {
    &&& axis_force(c.position.x as int, b.x_min as int, b.x_max as int, pm.padding as int) == 0
    &&& axis_force(c.position.y as int, b.y_min as int, b.y_max as int, pm.padding as int) == 0
}

/// Speed bound over a full tick, for a creature that ends its steering
/// outside the boundary-repulsion zones. (Inside them the repulsion
/// force may push the speed above the steering bound: a creature
/// standing at `x_min` with a large padding gains extra velocity.)
pub proof fn lemma_tick_speed_bound(c: Creature, w: World, d: int, k: int)
    requires
        1 <= c.dexterity <= DEX_LIMIT,
        c.velocity.bounded(VEL_LIMIT as int),
        c.velocity.sq() <= c.max_speed_spec() * c.max_speed_spec(),
        no_boundary_force(tick_moved(c, w, d, k), w.bounds, w.params),
    ensures
        creature_tick(c, w, d, k).velocity.sq() <= c.max_speed_spec() * c.max_speed_spec(),
{
    let ms = c.max_speed_spec();
    let aimed = tick_aimed(c, w, d, k);
    assert(aimed.velocity == c.velocity && aimed.dexterity == c.dexterity);
    let moved = tick_moved(c, w, d, k);
    lemma_speed_bound_after_steering(aimed, w);
    assert(moved.velocity.sq() <= ms * ms);
    assert(0 <= ms * ms) by (nonlinear_arith)
        requires
            0 <= ms,
    ;
    lemma_comp_bounded(moved.velocity.x as int, moved.velocity.y as int, ms);
    let repelled = bc_step(moved, w.bounds, w.params);
    let fx = axis_force(
        moved.position.x as int,
        w.bounds.x_min as int,
        w.bounds.x_max as int,
        w.params.padding as int,
    );
    let fy = axis_force(
        moved.position.y as int,
        w.bounds.y_min as int,
        w.bounds.y_max as int,
        w.params.padding as int,
    );
    assert(fx * w.params.timestep == 0 && fy * w.params.timestep == 0) by (nonlinear_arith)
        requires
            fx == 0,
            fy == 0,
    ;
    assert(crate::math::div_tz(0, 1000) == 0);
    assert(crate::math::div_tz(0, 1000) * w.params.damping == 0) by (nonlinear_arith)
        requires
            crate::math::div_tz(0, 1000) == 0,
    ;
    assert(repelled.velocity == moved.velocity);
    assert(creature_tick(c, w, d, k).velocity == repelled.velocity);
}

/// Acceleration bound: the change in velocity attributable to steering
/// — the steering increment, before the top-speed clamp and excluding
/// boundary forces — has squared magnitude at most `dexterity²`.
pub proof fn lemma_acceleration_bound(c: Creature, tp: Vec2i)
    requires
        1 <= c.dexterity <= DEX_LIMIT,
    ensures
        steer_increment(c, tp).sq() <= c.dexterity * c.dexterity,
{
    let tox = tp.x - c.position.x;
    let toy = tp.y - c.position.y;
    let sqd = sq_len(tox, toy);
    let ds = (c.max_speed_spec() * crate::behavior::speed_factor(crate::behavior::arrive_t(sqd)))
        / 1000;
    let to = Vec2i { x: tox as i64, y: toy as i64 };
    let desired = crate::math::scale_to_spec(to, ds);
    let steer = Vec2i {
        x: (desired.x - c.velocity.x) as i64,
        y: (desired.y - c.velocity.y) as i64,
    };
    lemma_clamp_len_sq(steer, c.acceleration_spec());
}

/// Arrival snap: a creature whose target resolves within the arrival
/// radius ends the steering step with zero velocity and no target.
pub proof fn lemma_arrival_snap(c: Creature, w: World, t: Target, tp: Vec2i)
    requires
        c.movement_target == Some(t),
        t.resolve_spec(w) == Some(tp),
        sq_len(tp.x - c.position.x, tp.y - c.position.y) < ARRIVE_SQ,
    ensures
        steer_step(c, w).velocity.is_zero(),
        steer_step(c, w).movement_target is None,
{
}

/// Target dereference: a food target whose id is not in the registry
/// resolves to nothing, and the steering step leaves the creature
/// entirely unchanged that tick.
pub proof fn lemma_dangling_target(c: Creature, w: World, id: usize)
    requires
        c.movement_target == Some(Target::Food(id)),
        w.lookup_food(id) is None,
    ensures
        c.movement_target->Some_0.resolve_spec(w) is None,
        steer_step(c, w) == c,
{
}

/// Some index is the first minimum of a nonempty food registry.
pub proof fn lemma_first_min_exists(s: Seq<(usize, FoodSource)>, pos: Vec2i)
    requires
        s.len() > 0,
    ensures
        exists|i: int| is_first_min(s, pos, i),
    decreases s.len(),
{
    if s.len() == 1 {
        assert(is_first_min(s, pos, 0));
    } else {
        let s0 = s.drop_last();
        lemma_first_min_exists(s0, pos);
        let i0 = choose|i: int| is_first_min(s0, pos, i);
        assert(forall|j: int| 0 <= j < s0.len() ==> s0[j] == s[j]);
        let last = s.len() - 1;
        if food_sq_dist(pos, s[last].1) < food_sq_dist(pos, s[i0].1) {
            assert(is_first_min(s, pos, last));
        } else {
            assert(is_first_min(s, pos, i0));
        }
    }
}

/// Nearest-food selection: with a nonempty food registry, behavior
/// selection targets the first food source of minimum distance — no
/// source is strictly nearer, and among equally near ones the earliest
/// in registry order wins.
pub proof fn lemma_food_selection_nearest(c: Creature, w: World)
    requires
        w.food_sources@.len() > 0,
    ensures
        is_first_min(w.food_sources@, c.position, first_min_idx(w.food_sources@, c.position)),
        food_select(c, w).movement_target == Some(
            Target::Food(w.food_sources@[first_min_idx(w.food_sources@, c.position)].0),
        ),
{
    lemma_first_min_exists(w.food_sources@, c.position);
}

/// Wander-target distance: the offset that wandering stores is the
/// drawn distance long, up to rounding — its squared length lies
/// between `(d - 19)²` and `d²` for every draw `d` in `[10, 80)` units
/// and every angle step `k` in the cone. The stored target is the
/// position plus this offset, clamped into the numeric coordinate
/// range; away from that machine limit the target sits exactly one
/// offset from the position.
pub proof fn lemma_wander_offset_length(c: Creature, d: int, k: int)
    requires
        c.wf(),
        10_000 <= d < 80_000,
        -30 <= k <= 30,
    ensures
        (d - 19) * (d - 19) <= wander_offset(c, d, k).sq(),
        wander_offset(c, d, k).sq() <= d * d,
        (c.movement_target is None && wander_target_in_range(c, d, k))
            ==> wander_step(c, d, k).movement_target == Some(
            Target::Position(
                Vec2i {
                    x: (c.position.x + wander_offset(c, d, k).x) as i64,
                    y: (c.position.y + wander_offset(c, d, k).y) as i64,
                },
            ),
        ),
{
    lemma_wander_rot_sq_big(c.facing, k);
    crate::math::lemma_scale_to_sq_bounds(wander_rot(c.facing, k), d);
}

/// The wander target needs no clamping: position plus offset stays in
/// the coordinate range.
pub open spec fn wander_target_in_range(c: Creature, d: int, k: int) -> bool {
    &&& -COORD_LIMIT <= c.position.x + wander_offset(c, d, k).x <= COORD_LIMIT
    &&& -COORD_LIMIT <= c.position.y + wander_offset(c, d, k).y <= COORD_LIMIT
}

/// Boundary repulsion sign: on the repulsion zone's lower side the
/// force is strictly positive, on the upper side strictly negative,
/// and anywhere at least `padding` from both walls — the center of a
/// wide-enough range included — it vanishes.
pub proof fn lemma_boundary_repulsion_sign(b: Bounds, pm: Params)
    requires
        b.wf(),
        pm.wf(),
        pm.padding > 1000,
        b.x_max - b.x_min >= pm.padding,
    ensures
        axis_force(b.x_min as int, b.x_min as int, b.x_max as int, pm.padding as int) > 0,
        axis_force(b.x_max as int, b.x_min as int, b.x_max as int, pm.padding as int) < 0,
        forall|p: int|
            b.x_min + pm.padding <= p <= b.x_max - pm.padding ==> #[trigger] axis_force(
                p,
                b.x_min as int,
                b.x_max as int,
                pm.padding as int,
            ) == 0,
{
}

/// The velocity change that the boundary force `f` contributes in one
/// tick: the force scaled by timestep, then by damping.
pub open spec fn bc_velocity_inc(f: int, pm: Params) -> int {
    div_tz(div_tz(f * pm.timestep, 1000) * pm.damping, 1000)
}

/// Boundary repulsion at the lower wall: a creature standing exactly at
/// `x_min` with the spec's padding of 20 units feels the force
/// `padding - max(0, 1) = 19` units, and — for timestep and damping at
/// least their defaults of 0.01 s and 0.9, with headroom below the
/// velocity range — its x-velocity strictly increases, by exactly the
/// force scaled by timestep and damping. (For a small enough
/// `timestep * damping` the fixed-point increment truncates to zero,
/// so the strict increase needs these floors.)
pub proof fn lemma_boundary_low_edge(c: Creature, b: Bounds, pm: Params)
    requires
        b.wf(),
        pm.wf(),
        c.velocity.bounded(VEL_LIMIT as int),
        c.position.x == b.x_min,
        pm.padding == 20_000,
        pm.timestep >= 10,
        pm.damping >= 900,
        -VEL_LIMIT <= c.velocity.x + bc_velocity_inc(19_000, pm) <= VEL_LIMIT,
    ensures
        axis_force(c.position.x as int, b.x_min as int, b.x_max as int, pm.padding as int)
            == 19_000,
        bc_step(c, b, pm).velocity.x == c.velocity.x + bc_velocity_inc(19_000, pm),
        bc_velocity_inc(19_000, pm) >= 171,
        bc_step(c, b, pm).velocity.x > c.velocity.x,
{
    lemma_bc_inc_at_least_default(pm);
}

/// Boundary repulsion at the upper wall: symmetric to the lower one —
/// the force is `-19` units and the x-velocity strictly decreases, by
/// the same scaled amount.
pub proof fn lemma_boundary_high_edge(c: Creature, b: Bounds, pm: Params)
    requires
        b.wf(),
        pm.wf(),
        c.velocity.bounded(VEL_LIMIT as int),
        c.position.x == b.x_max,
        pm.padding == 20_000,
        pm.timestep >= 10,
        pm.damping >= 900,
        b.x_max - b.x_min >= pm.padding,
        -VEL_LIMIT <= c.velocity.x - bc_velocity_inc(19_000, pm) <= VEL_LIMIT,
    ensures
        axis_force(c.position.x as int, b.x_min as int, b.x_max as int, pm.padding as int)
            == -19_000,
        bc_step(c, b, pm).velocity.x == c.velocity.x - bc_velocity_inc(19_000, pm),
        bc_step(c, b, pm).velocity.x < c.velocity.x,
{
    lemma_bc_inc_at_least_default(pm);
    let a1 = div_tz(19_000 * pm.timestep, 1000);
    assert(div_tz(-19_000 * pm.timestep, 1000) == -a1) by {
        assert(-19_000 * pm.timestep == -(19_000 * pm.timestep)) by (nonlinear_arith);
    }
    assert((-a1) * pm.damping == -(a1 * pm.damping)) by (nonlinear_arith);
}

/// With timestep at least 0.01 s and damping at least 0.9, the scaled
/// 19-unit wall force moves the velocity by at least 0.171 units.
proof fn lemma_bc_inc_at_least_default(pm: Params)
    requires
        pm.wf(),
        pm.timestep >= 10,
        pm.damping >= 900,
    ensures
        bc_velocity_inc(19_000, pm) >= 171,
{
    let a1 = div_tz(19_000 * pm.timestep, 1000);
    assert(19_000 * pm.timestep >= 190_000);
    assert(19_000 * pm.timestep <= 19_000_000_000);
    crate::math::lemma_div_tz_le(190_000, 19_000 * pm.timestep, 1000);
    assert(a1 >= 190);
    assert(a1 * pm.damping >= 190 * 900) by (nonlinear_arith)
        requires
            a1 >= 190,
            pm.damping >= 900,
    ;
    crate::math::lemma_div_tz_mul_bound(19_000 * pm.timestep, 1000);
    assert(a1 * pm.damping <= 19_000_000 * 10_000) by (nonlinear_arith)
        requires
            0 <= a1 <= 19_000_000,
            0 <= pm.damping <= 10_000,
    ;
    crate::math::lemma_div_tz_le(171_000, a1 * pm.damping, 1000);
}

/// In the interior — at least `padding` from every wall, the center of
/// a wide-enough arena included — the boundary force vanishes on both
/// axes: the velocity is untouched, and the position still advances by
/// one timestep of it (the tick's second integration stage).
pub proof fn lemma_boundary_interior(c: Creature, b: Bounds, pm: Params)
    requires
        c.wf(),
        b.wf(),
        pm.wf(),
        b.x_min + pm.padding <= c.position.x <= b.x_max - pm.padding,
        b.y_min + pm.padding <= c.position.y <= b.y_max - pm.padding,
        -COORD_LIMIT <= c.position.x + div_tz(c.velocity.x * pm.timestep, 1000) <= COORD_LIMIT,
        -COORD_LIMIT <= c.position.y + div_tz(c.velocity.y * pm.timestep, 1000) <= COORD_LIMIT,
    ensures
        no_boundary_force(c, b, pm),
        bc_step(c, b, pm).velocity == c.velocity,
        bc_step(c, b, pm).position.x == c.position.x + div_tz(c.velocity.x * pm.timestep, 1000),
        bc_step(c, b, pm).position.y == c.position.y + div_tz(c.velocity.y * pm.timestep, 1000),
{
    let fx = axis_force(c.position.x as int, b.x_min as int, b.x_max as int, pm.padding as int);
    let fy = axis_force(c.position.y as int, b.y_min as int, b.y_max as int, pm.padding as int);
    assert(fx == 0 && fy == 0);
    assert(fx * pm.timestep == 0 && fy * pm.timestep == 0) by (nonlinear_arith)
        requires
            fx == 0,
            fy == 0,
    ;
    assert(div_tz(0, 1000) == 0);
    assert(div_tz(0, 1000) * pm.damping == 0) by (nonlinear_arith)
        requires
            div_tz(0, 1000) == 0,
    ;
}

/// Facing stability: the facing update leaves a stationary creature's
/// facing untouched.
pub proof fn lemma_facing_stable(c: Creature)
    requires
        c.velocity.is_zero(),
    ensures
        face_step(c) == c,
{
}

/// Facing stability over a full tick: a creature that ends the tick
/// stationary keeps its prior facing exactly — no stage but the facing
/// update writes the facing, and that update keeps it when the
/// velocity is zero.
pub proof fn lemma_tick_facing_stable(c: Creature, w: World, d: int, k: int)
    requires
        creature_tick(c, w, d, k).velocity.is_zero(),
    ensures
        creature_tick(c, w, d, k).facing == c.facing,
{
    let moved = tick_moved(c, w, d, k);
    let repelled = bc_step(moved, w.bounds, w.params);
    assert(creature_tick(c, w, d, k).velocity == repelled.velocity);
    assert(repelled.facing == moved.facing);
    assert(moved.facing == c.facing);
}

} // verus!

