//! The per-tick creature behavior model: hunger decay, arrival steering
//! toward a resolved target, boundary repulsion and the facing update.
//!
//! Each executable step has a spec-function mirror that gives the exact
//! fixed-point result; the exec functions are proved equal to it.

use vstd::prelude::*;
use vstd::arithmetic::div_mod::lemma_fundamental_div_mod;
use crate::math::abs_int;
use crate::math::clamp_i64;
use crate::math::clamp_int;
use crate::math::div_tz;
use crate::math::div_tz_i64;
use crate::math::lemma_comp_bounded;
use crate::math::lemma_mul_bounds;
use crate::math::lemma_mul_nonneg;
use crate::math::max_int;
use crate::math::scale_to_spec;
use crate::math::clamp_len_spec;
use crate::math::sq_len;
use crate::math::Vec2i;
use crate::math::COORD_LIMIT;
use crate::math::VEL_LIMIT;
use crate::entities::Creature;
use crate::entities::FoodSource;
use crate::entities::Bounds;
use crate::entities::Params;
use crate::entities::Target;
use crate::entities::HUNGER_LIMIT;
use crate::entities::RATE_LIMIT;
use crate::entities::TS_LIMIT;
use crate::entities::DAMP_LIMIT;
use crate::world::World;

verus! {

/// Squared arrival radius: a target closer than 5 units counts as
/// reached (25 square units, in milli-units squared).
pub const ARRIVE_SQ: i64 = 25_000_000;

/// Divisor mapping a squared distance to the arrival-profile parameter:
/// 525 square units, in milli-units squared, divided by `SCALE`.
pub const ARRIVE_T_DIV: i64 = 525_000;

// ---------------------------------------------------------------------
// Hunger decay
// ---------------------------------------------------------------------

/// One tick of hunger decay: hunger falls by `0.01 + hunger_rate *
/// squared speed` points, clamped into `[0, 100]` points.
pub open spec fn hunger_step(c: Creature) -> Creature {
    let dec = 10 + div_tz(c.hunger_rate * c.velocity.sq(), 1_000_000);
    Creature {
        hunger: clamp_int(c.hunger - dec, 0, HUNGER_LIMIT as int) as i64,
        ..c
    }
}

/// Reduce hunger according to current speed: faster creatures starve
/// faster.
pub fn update_hunger(creature: &mut Creature)
    requires
        old(creature).wf(),
    ensures
        *final(creature) == hunger_step(*old(creature)),
        final(creature).wf(),
{
    let sqv = creature.square_speed();
    proof {
        crate::math::lemma_sq_bounds(creature.velocity.x as int, VEL_LIMIT as int);
        crate::math::lemma_sq_bounds(creature.velocity.y as int, VEL_LIMIT as int);
        lemma_mul_bounds(
            creature.hunger_rate as int,
            RATE_LIMIT as int,
            sqv as int,
            1_800_000_000_000_000,
        );
        lemma_mul_nonneg(creature.hunger_rate as int, sqv as int);
    }
    let cost = div_tz_i64(creature.hunger_rate * sqv, 1_000_000);
    let dec = 10 + cost;
    creature.hunger = clamp_i64(creature.hunger - dec, 0, HUNGER_LIMIT);
}

// ---------------------------------------------------------------------
// Facing
// ---------------------------------------------------------------------

/// The facing follows the velocity's direction whenever the velocity is
/// nonzero, and otherwise keeps its previous value.
pub open spec fn face_step(c: Creature) -> Creature {
    if c.velocity.is_zero() {
        c
    } else {
        Creature { facing: c.velocity, ..c }
    }
}

impl Creature {
    /// Turn toward the direction of motion, if any.
    pub fn update_facing(&mut self)
        requires
            old(self).wf(),
        ensures
            *final(self) == face_step(*old(self)),
            final(self).wf(),
    {
        if !(self.velocity.x == 0 && self.velocity.y == 0) {
            self.facing = self.velocity;
        }
    }
}

// ---------------------------------------------------------------------
// Arrival steering
// ---------------------------------------------------------------------

/// The arrival profile's normalized distance parameter, in milli-units:
/// `clamp(squared_distance / 525, 0, 1)`.
pub open spec fn arrive_t(sqd: int) -> int {
    clamp_int(sqd / (ARRIVE_T_DIV as int), 0, 1000)
}

/// Smoothstep-style easing `t * (3 - 2 t)`, in milli-units.
pub open spec fn speed_factor(t: int) -> int {
    (t * (3000 - 2 * t)) / 1000
}

/// The steering vector applied to the velocity when heading for the
/// resolved target point `tp`: the difference between the desired
/// velocity — the direction to the target, scaled to the arrival
/// profile's desired speed — and the current velocity, clamped to the
/// creature's acceleration.
pub open spec fn steer_increment(c: Creature, tp: Vec2i) -> Vec2i {
    let tox = tp.x - c.position.x;
    let toy = tp.y - c.position.y;
    let sqd = sq_len(tox, toy);
    let ds = (c.max_speed_spec() * speed_factor(arrive_t(sqd))) / 1000;
    let to = Vec2i { x: tox as i64, y: toy as i64 };
    let desired = scale_to_spec(to, ds);
    let steer = Vec2i {
        x: (desired.x - c.velocity.x) as i64,
        y: (desired.y - c.velocity.y) as i64,
    };
    clamp_len_spec(steer, c.acceleration_spec())
}

/// The velocity after one steering tick toward `tp`: the steering
/// increment is added, and the result clamped to the top speed.
pub open spec fn steer_velocity(c: Creature, tp: Vec2i) -> Vec2i {
    let sc = steer_increment(c, tp);
    let v1 = Vec2i {
        x: (c.velocity.x + sc.x) as i64,
        y: (c.velocity.y + sc.y) as i64,
    };
    clamp_len_spec(v1, c.max_speed_spec())
}

/// One tick of target resolution and arrival steering.
///
/// No target, or a dangling one, leaves the creature unchanged. A
/// resolved target within the arrival radius snaps: velocity zero,
/// target cleared. Otherwise the velocity turns toward the target —
/// the steering change is clamped to the creature's acceleration, the
/// result to its top speed — and the position advances by one timestep.
pub open spec fn steer_step(c: Creature, w: World) -> Creature {
    match c.movement_target {
        None => c,
        Some(t) => match t.resolve_spec(w) {
            None => c,
            Some(tp) => {
                let tox = tp.x - c.position.x;
                let toy = tp.y - c.position.y;
                let sqd = sq_len(tox, toy);
                if sqd < ARRIVE_SQ {
                    Creature {
                        velocity: Vec2i { x: 0, y: 0 },
                        movement_target: None,
                        ..c
                    }
                } else {
                    let v2 = steer_velocity(c, tp);
                    let px = clamp_int(
                        c.position.x + div_tz(v2.x * w.params.timestep, 1000),
                        -COORD_LIMIT as int,
                        COORD_LIMIT as int,
                    );
                    let py = clamp_int(
                        c.position.y + div_tz(v2.y * w.params.timestep, 1000),
                        -COORD_LIMIT as int,
                        COORD_LIMIT as int,
                    );
                    Creature {
                        velocity: v2,
                        position: Vec2i { x: px as i64, y: py as i64 },
                        ..c
                    }
                }
            },
        },
    }
}

impl Creature {
    /// Steer toward the movement target, if it resolves; see
    /// `steer_step` for the exact profile.
    pub fn move_to_target(&mut self, world: &World)
        requires
            old(self).wf(),
            world.wf(),
        ensures
            *final(self) == steer_step(*old(self), *world),
            final(self).wf(),
    {
        let target = match self.movement_target {
            None => {
                return;
            },
            Some(t) => t,
        };
        let target_pos = match target.position(world) {
            None => {
                return;
            },
            Some(tp) => tp,
        };
        proof {
            crate::world::lemma_resolved_bounded(target, *world);
        }
        let to_target = target_pos.minus(self.position);
        let sqd = to_target.len_sq();
        if sqd < ARRIVE_SQ {
            self.velocity = Vec2i { x: 0, y: 0 };
            self.movement_target = None;
            return;
        }
        let t = clamp_i64(sqd / ARRIVE_T_DIV, 0, 1000);
        proof {
            lemma_mul_nonneg(t as int, 3000 - 2 * (t as int));
            assert((t as int) * (3000 - 2 * (t as int)) <= 1_125_000) by (nonlinear_arith)
                requires
                    0 <= t <= 1000,
            ;
        }
        let sf = (t * (3000 - 2 * t)) / 1000;
        let ms = self.max_speed();
        proof {
            lemma_mul_bounds(ms as int, 10_000_000, sf as int, 1125);
            lemma_mul_nonneg(ms as int, sf as int);
            if to_target.is_zero() {
                assert(to_target.sq() == 0) by (nonlinear_arith)
                    requires
                        to_target.x == 0,
                        to_target.y == 0,
                ;
            }
        }
        let ds = (ms * sf) / 1000;
        let desired = to_target.scale_to_length(ds);
        let steering = desired.minus(self.velocity);
        let steering_clamped = steering.clamp_len(self.acceleration());
        let v1 = self.velocity.plus(steering_clamped);
        let v2 = v1.clamp_len(ms);
        self.velocity = v2;
        proof {
            lemma_comp_bounded(v2.x as int, v2.y as int, ms as int);
            lemma_mul_bounds(v2.x as int, 10_000_000, world.params.timestep as int, TS_LIMIT as int);
            lemma_mul_bounds(v2.y as int, 10_000_000, world.params.timestep as int, TS_LIMIT as int);
        }
        let dx = div_tz_i64(v2.x * world.params.timestep, 1000);
        let dy = div_tz_i64(v2.y * world.params.timestep, 1000);
        self.position = Vec2i {
            x: clamp_i64(self.position.x + dx, -COORD_LIMIT, COORD_LIMIT),
            y: clamp_i64(self.position.y + dy, -COORD_LIMIT, COORD_LIMIT),
        };
    }
}

// ---------------------------------------------------------------------
// Food seeking
// ---------------------------------------------------------------------

/// Squared distance from `pos` to a food source.
pub open spec fn food_sq_dist(pos: Vec2i, f: FoodSource) -> int {
    sq_len(f.position.x - pos.x, f.position.y - pos.y)
}

/// Index `i` holds the first food source of minimum distance to `pos`:
/// no source is strictly nearer, and every earlier one is strictly
/// farther.
pub open spec fn is_first_min(s: Seq<(usize, FoodSource)>, pos: Vec2i, i: int) -> bool {
    &&& 0 <= i < s.len()
    &&& forall|j: int|
        0 <= j < s.len() ==> food_sq_dist(pos, s[i].1) <= food_sq_dist(pos, (#[trigger] s[j]).1)
    &&& forall|j: int|
        0 <= j < i ==> food_sq_dist(pos, (#[trigger] s[j]).1) > food_sq_dist(pos, s[i].1)
}

/// The index of the first nearest food source.
pub open spec fn first_min_idx(s: Seq<(usize, FoodSource)>, pos: Vec2i) -> int {
    choose|i: int| is_first_min(s, pos, i)
}

/// At most one index is the first minimum.
pub proof fn lemma_first_min_unique(s: Seq<(usize, FoodSource)>, pos: Vec2i, i1: int, i2: int)
    requires
        is_first_min(s, pos, i1),
        is_first_min(s, pos, i2),
    ensures
        i1 == i2,
{
    if i1 < i2 {
        assert(food_sq_dist(pos, s[i1].1) > food_sq_dist(pos, s[i2].1));
        assert(food_sq_dist(pos, s[i1].1) <= food_sq_dist(pos, s[i2].1));
    }
    if i2 < i1 {
        assert(food_sq_dist(pos, s[i2].1) > food_sq_dist(pos, s[i1].1));
        assert(food_sq_dist(pos, s[i2].1) <= food_sq_dist(pos, s[i1].1));
    }
}

/// Target the first nearest food source, if any food is registered;
/// an empty food registry leaves the creature unchanged.
pub open spec fn food_select(c: Creature, w: World) -> Creature {
    if w.food_sources@.len() == 0 {
        c
    } else {
        Creature {
            movement_target: Some(
                Target::Food(w.food_sources@[first_min_idx(w.food_sources@, c.position)].0),
            ),
            ..c
        }
    }
}

/// Point the creature at the nearest food source. Among equally near
/// sources the first in registry order — the lowest id — wins.
pub fn find_food(creature: &mut Creature, world: &World)
    requires
        old(creature).wf(),
        world.wf(),
    ensures
        *final(creature) == food_select(*old(creature), *world),
        final(creature).wf(),
{
    let n = world.food_sources.len();
    if n == 0 {
        return;
    }
    let mut best_i: usize = 0;
    let mut best_d: i64 = creature.square_distance_to_food(&world.food_sources[0].1);
    let mut i: usize = 1;
    while i < n
        invariant
            creature.wf(),
            world.wf(),
            n == world.food_sources@.len(),
            0 <= best_i < i <= n,
            best_d == food_sq_dist(creature.position, world.food_sources@[best_i as int].1),
            forall|j: int|
                0 <= j < i
                    ==> best_d <= food_sq_dist(creature.position, (#[trigger] world.food_sources@[j]).1),
            forall|j: int|
                0 <= j < best_i
                    ==> food_sq_dist(creature.position, (#[trigger] world.food_sources@[j]).1) > best_d,
        decreases n - i,
    {
        let d = creature.square_distance_to_food(&world.food_sources[i].1);
        if d < best_d {
            best_i = i;
            best_d = d;
        }
        i = i + 1;
    }
    proof {
        assert(is_first_min(world.food_sources@, creature.position, best_i as int));
        lemma_first_min_unique(
            world.food_sources@,
            creature.position,
            best_i as int,
            first_min_idx(world.food_sources@, creature.position),
        );
    }
    creature.movement_target = Some(Target::Food(world.food_sources[best_i].0));
}

// ---------------------------------------------------------------------
// Random wandering
// ---------------------------------------------------------------------

/// Cosine of `a` degrees, for `0 <= a <= 30`, in milli-units.
pub open spec fn cos_tab(a: int) -> int {
    if a <= 0 { 1000 }
    else if a == 1 { 1000 }
    else if a == 2 { 999 }
    else if a == 3 { 999 }
    else if a == 4 { 998 }
    else if a == 5 { 996 }
    else if a == 6 { 995 }
    else if a == 7 { 993 }
    else if a == 8 { 990 }
    else if a == 9 { 988 }
    else if a == 10 { 985 }
    else if a == 11 { 982 }
    else if a == 12 { 978 }
    else if a == 13 { 974 }
    else if a == 14 { 970 }
    else if a == 15 { 966 }
    else if a == 16 { 961 }
    else if a == 17 { 956 }
    else if a == 18 { 951 }
    else if a == 19 { 946 }
    else if a == 20 { 940 }
    else if a == 21 { 934 }
    else if a == 22 { 927 }
    else if a == 23 { 921 }
    else if a == 24 { 914 }
    else if a == 25 { 906 }
    else if a == 26 { 899 }
    else if a == 27 { 891 }
    else if a == 28 { 883 }
    else if a == 29 { 875 }
    else { 866 }
}

/// Sine of `a` degrees, for `0 <= a <= 30`, in milli-units.
pub open spec fn sin_tab(a: int) -> int {
    if a <= 0 { 0 }
    else if a == 1 { 17 }
    else if a == 2 { 35 }
    else if a == 3 { 52 }
    else if a == 4 { 70 }
    else if a == 5 { 87 }
    else if a == 6 { 105 }
    else if a == 7 { 122 }
    else if a == 8 { 139 }
    else if a == 9 { 156 }
    else if a == 10 { 174 }
    else if a == 11 { 191 }
    else if a == 12 { 208 }
    else if a == 13 { 225 }
    else if a == 14 { 242 }
    else if a == 15 { 259 }
    else if a == 16 { 276 }
    else if a == 17 { 292 }
    else if a == 18 { 309 }
    else if a == 19 { 326 }
    else if a == 20 { 342 }
    else if a == 21 { 358 }
    else if a == 22 { 375 }
    else if a == 23 { 391 }
    else if a == 24 { 407 }
    else if a == 25 { 423 }
    else if a == 26 { 438 }
    else if a == 27 { 454 }
    else if a == 28 { 469 }
    else if a == 29 { 485 }
    else { 500 }
}

/// Cosine of `k` degrees for `-30 <= k <= 30`, in milli-units.
pub open spec fn cos_mdeg(k: int) -> int {
    if k >= 0 {
        cos_tab(k)
    } else {
        cos_tab(-k)
    }
}

/// Sine of `k` degrees for `-30 <= k <= 30`, in milli-units.
pub open spec fn sin_mdeg(k: int) -> int {
    if k >= 0 {
        sin_tab(k)
    } else {
        -sin_tab(-k)
    }
}

/// The exec mirror of `cos_tab`.
fn cos_tab_exec(a: i64) -> (r: i64)
    requires
        0 <= a <= 30,
    ensures
        r == cos_tab(a as int),
        866 <= r <= 1000,
{
    if a <= 0 { 1000 }
    else if a == 1 { 1000 }
    else if a == 2 { 999 }
    else if a == 3 { 999 }
    else if a == 4 { 998 }
    else if a == 5 { 996 }
    else if a == 6 { 995 }
    else if a == 7 { 993 }
    else if a == 8 { 990 }
    else if a == 9 { 988 }
    else if a == 10 { 985 }
    else if a == 11 { 982 }
    else if a == 12 { 978 }
    else if a == 13 { 974 }
    else if a == 14 { 970 }
    else if a == 15 { 966 }
    else if a == 16 { 961 }
    else if a == 17 { 956 }
    else if a == 18 { 951 }
    else if a == 19 { 946 }
    else if a == 20 { 940 }
    else if a == 21 { 934 }
    else if a == 22 { 927 }
    else if a == 23 { 921 }
    else if a == 24 { 914 }
    else if a == 25 { 906 }
    else if a == 26 { 899 }
    else if a == 27 { 891 }
    else if a == 28 { 883 }
    else if a == 29 { 875 }
    else { 866 }
}

/// The exec mirror of `sin_tab`.
fn sin_tab_exec(a: i64) -> (r: i64)
    requires
        0 <= a <= 30,
    ensures
        r == sin_tab(a as int),
        0 <= r <= 500,
{
    if a <= 0 { 0 }
    else if a == 1 { 17 }
    else if a == 2 { 35 }
    else if a == 3 { 52 }
    else if a == 4 { 70 }
    else if a == 5 { 87 }
    else if a == 6 { 105 }
    else if a == 7 { 122 }
    else if a == 8 { 139 }
    else if a == 9 { 156 }
    else if a == 10 { 174 }
    else if a == 11 { 191 }
    else if a == 12 { 208 }
    else if a == 13 { 225 }
    else if a == 14 { 242 }
    else if a == 15 { 259 }
    else if a == 16 { 276 }
    else if a == 17 { 292 }
    else if a == 18 { 309 }
    else if a == 19 { 326 }
    else if a == 20 { 342 }
    else if a == 21 { 358 }
    else if a == 22 { 375 }
    else if a == 23 { 391 }
    else if a == 24 { 407 }
    else if a == 25 { 423 }
    else if a == 26 { 438 }
    else if a == 27 { 454 }
    else if a == 28 { 469 }
    else if a == 29 { 485 }
    else { 500 }
}

/// The facing, scaled up by an integer factor so that its largest
/// component magnitude reaches at least 500_000 and stays at most
/// 30_000_000. Multiplying by an integer keeps the direction exact;
/// the large magnitude keeps the relative rounding error of the later
/// divisions small.
pub open spec fn wander_dir(f: Vec2i) -> Vec2i {
    let mx = max_int(abs_int(f.x as int), abs_int(f.y as int));
    let m = if mx >= 1_000_000 {
        1int
    } else {
        1_000_000int / mx
    };
    Vec2i { x: (f.x * m) as i64, y: (f.y * m) as i64 }
}

/// The scaled-up facing rotated by `k` degrees, using the milli-unit
/// trig table.
pub open spec fn wander_rot(f: Vec2i, k: int) -> Vec2i {
    let b = wander_dir(f);
    let ca = cos_mdeg(k);
    let sa = sin_mdeg(k);
    Vec2i {
        x: div_tz(b.x * ca - b.y * sa, 1000) as i64,
        y: div_tz(b.y * ca + b.x * sa, 1000) as i64,
    }
}

/// The wander offset for draw `(d, k)`: the rotated facing direction,
/// scaled to length `d` up to rounding (the law
/// `lemma_wander_offset_length` bounds the loss at 19 milli-units).
pub open spec fn wander_offset(c: Creature, d: int, k: int) -> Vec2i {
    scale_to_spec(wander_rot(c.facing, k), d)
}

/// The wander target for draw `(d, k)`: the wander offset added to the
/// position, clamped into the numeric coordinate range.
pub open spec fn wander_step(c: Creature, d: int, k: int) -> Creature {
    if c.movement_target is Some {
        c
    } else {
        let off = wander_offset(c, d, k);
        let tgt = Vec2i {
            x: clamp_int(c.position.x + off.x, -COORD_LIMIT as int, COORD_LIMIT as int) as i64,
            y: clamp_int(c.position.y + off.y, -COORD_LIMIT as int, COORD_LIMIT as int) as i64,
        };
        Creature { movement_target: Some(Target::Position(tgt)), ..c }
    }
}

/// The table vectors stay within the milli-unit square.
proof fn lemma_trig_bounds(k: int)
    requires
        -30 <= k <= 30,
    ensures
        866 <= cos_mdeg(k) <= 1000,
        -500 <= sin_mdeg(k) <= 500,
{
}

/// Rotating the scaled-up facing leaves a vector of squared length at
/// least `305_999²`, with components at most 45_000_000 — long enough
/// that scaling it to a drawn length is accurate to rounding.
pub proof fn lemma_wander_rot_sq_big(f: Vec2i, k: int)
    requires
        !f.is_zero(),
        f.bounded(VEL_LIMIT as int),
        -30 <= k <= 30,
    ensures
        wander_rot(f, k).sq() >= 90_000_000_000,
        wander_rot(f, k).bounded(45_000_000),
        !wander_rot(f, k).is_zero(),
{
    lemma_trig_bounds(k);
    let fx = f.x as int;
    let fy = f.y as int;
    let ax = abs_int(fx);
    let ay = abs_int(fy);
    let mx = max_int(ax, ay);
    assert(1 <= mx <= 30_000_000);
    let m = if mx >= 1_000_000 {
        1int
    } else {
        1_000_000int / mx
    };
    let bx = fx * m;
    let by = fy * m;
    // The scale factor lands the largest component in
    // [500_000, 30_000_000].
    if mx >= 1_000_000 {
        assert(bx == fx && by == fy) by (nonlinear_arith)
            requires
                m == 1,
                bx == fx * m,
                by == fy * m,
        ;
        assert(mx * m == mx) by (nonlinear_arith)
            requires
                m == 1,
        ;
    } else {
        lemma_fundamental_div_mod(1_000_000, mx);
        assert(mx * m == 1_000_000 - 1_000_000int % mx);
        if m < 1 {
            assert(mx * m <= 0) by (nonlinear_arith)
                requires
                    m <= 0,
                    mx >= 1,
            ;
            assert(false);
        }
        if mx < 500_000 {
            assert(mx * m > 500_000);
        } else {
            assert(mx * m >= mx) by (nonlinear_arith)
                requires
                    m >= 1,
                    mx >= 1,
            ;
        }
    }
    assert(500_000 <= mx * m <= 30_000_000);
    assert(-(mx * m) <= bx <= mx * m && -(mx * m) <= by <= mx * m) by (nonlinear_arith)
        requires
            bx == fx * m,
            by == fy * m,
            -mx <= fx <= mx,
            -mx <= fy <= mx,
            0 <= m,
    ;
    assert(bx * bx + by * by >= (mx * m) * (mx * m)) by (nonlinear_arith)
        requires
            bx == fx * m,
            by == fy * m,
            mx == ax || mx == ay,
            fx == ax || fx == -ax,
            fy == ay || fy == -ay,
            0 <= m,
    ;
    assert((mx * m) * (mx * m) >= 250_000_000_000) by (nonlinear_arith)
        requires
            mx * m >= 500_000,
    ;
    let ca = cos_mdeg(k);
    let sa = sin_mdeg(k);
    let p = bx * ca - by * sa;
    let q = by * ca + bx * sa;
    let u = bx * ca;
    let v = by * sa;
    let w = by * ca;
    let z = bx * sa;
    assert(u * v == w * z) by (nonlinear_arith)
        requires
            u == bx * ca,
            v == by * sa,
            w == by * ca,
            z == bx * sa,
    ;
    assert(p * p == u * u - 2 * (u * v) + v * v) by (nonlinear_arith)
        requires
            p == u - v,
    ;
    assert(q * q == w * w + 2 * (w * z) + z * z) by (nonlinear_arith)
        requires
            q == w + z,
    ;
    assert(u * u + z * z == (bx * bx) * (ca * ca + sa * sa)) by (nonlinear_arith)
        requires
            u == bx * ca,
            z == bx * sa,
    ;
    assert(v * v + w * w == (by * by) * (ca * ca + sa * sa)) by (nonlinear_arith)
        requires
            v == by * sa,
            w == by * ca,
    ;
    assert((bx * bx) * (ca * ca + sa * sa) + (by * by) * (ca * ca + sa * sa) == (bx * bx + by * by)
        * (ca * ca + sa * sa)) by (nonlinear_arith);
    assert(p * p + q * q == (bx * bx + by * by) * (ca * ca + sa * sa));
    assert(ca * ca + sa * sa >= 749_956) by (nonlinear_arith)
        requires
            866 <= ca,
    ;
    assert(p * p + q * q >= 187_489_000_000_000_000) by (nonlinear_arith)
        requires
            bx * bx + by * by >= 250_000_000_000,
            ca * ca + sa * sa >= 749_956,
            p * p + q * q == (bx * bx + by * by) * (ca * ca + sa * sa),
    ;
    lemma_mul_bounds(bx, 30_000_000, ca, 1000);
    lemma_mul_bounds(by, 30_000_000, sa, 500);
    lemma_mul_bounds(by, 30_000_000, ca, 1000);
    lemma_mul_bounds(bx, 30_000_000, sa, 500);
    assert(-45_000_000_000 <= p <= 45_000_000_000);
    assert(-45_000_000_000 <= q <= 45_000_000_000);
    // One of the two rotated components is at least 306_000_000 in
    // magnitude, else the squared sum would be too small.
    if -306_000_000 <= p <= 306_000_000 && -306_000_000 <= q <= 306_000_000 {
        crate::math::lemma_sq_bounds(p, 306_000_000);
        crate::math::lemma_sq_bounds(q, 306_000_000);
        assert(false);
    }
    let rx = div_tz(p, 1000);
    let ry = div_tz(q, 1000);
    crate::math::lemma_div_tz_mul_bound(p, 1000);
    crate::math::lemma_div_tz_mul_bound(q, 1000);
    crate::math::lemma_div_tz_abs_le(p, 1000, 45_000_000);
    crate::math::lemma_div_tz_abs_le(q, 1000, 45_000_000);
    assert(rx * rx >= 0 && ry * ry >= 0) by (nonlinear_arith);
    if p > 306_000_000 || p < -306_000_000 {
        assert(rx > 305_999 || rx < -305_999);
        assert(rx * rx >= 305_999 * 305_999) by (nonlinear_arith)
            requires
                rx > 305_999 || rx < -305_999,
        ;
    } else {
        assert(ry > 305_999 || ry < -305_999);
        assert(ry * ry >= 305_999 * 305_999) by (nonlinear_arith)
            requires
                ry > 305_999 || ry < -305_999,
        ;
    }
    assert(wander_rot(f, k).x == rx as i64 && wander_rot(f, k).y == ry as i64);
    assert(wander_rot(f, k).sq() == rx * rx + ry * ry);
}

/// Set a wander target in the cone in front of the creature, given the
/// drawn distance `d` (milli-units) and angle offset `k` (degrees). An
/// existing target of any kind persists.
pub fn set_wander_target(creature: &mut Creature, d: i64, k: i64)
    requires
        old(creature).wf(),
        10_000 <= d < 80_000,
        -30 <= k <= 30,
    ensures
        *final(creature) == wander_step(*old(creature), d as int, k as int),
        final(creature).wf(),
        (d - 19) * (d - 19) <= wander_offset(*old(creature), d as int, k as int).sq() <= d * d,
{
    proof {
        lemma_wander_rot_sq_big(old(creature).facing, k as int);
        crate::math::lemma_scale_to_sq_bounds(
            wander_rot(old(creature).facing, k as int),
            d as int,
        );
    }
    if creature.movement_target.is_some() {
        return;
    }
    let fx = creature.facing.x;
    let fy = creature.facing.y;
    let ax = if fx >= 0 {
        fx
    } else {
        -fx
    };
    let ay = if fy >= 0 {
        fy
    } else {
        -fy
    };
    let mx = if ax >= ay {
        ax
    } else {
        ay
    };
    let m = if mx >= 1_000_000 {
        1
    } else {
        1_000_000 / mx
    };
    proof {
        if mx < 1_000_000 {
            lemma_fundamental_div_mod(1_000_000, mx as int);
            if m < 1 {
                assert((mx as int) * (m as int) <= 0) by (nonlinear_arith)
                    requires
                        m <= 0,
                        mx >= 1,
                ;
                assert(false);
            }
        }
        lemma_mul_bounds(fx as int, mx as int, m as int, 1_000_000);
        assert((fx as int) * (m as int) <= (mx as int) * (m as int)
            && -((mx as int) * (m as int)) <= (fx as int) * (m as int)) by (nonlinear_arith)
            requires
                -mx <= fx <= mx,
                0 <= m,
        ;
        assert((fy as int) * (m as int) <= (mx as int) * (m as int)
            && -((mx as int) * (m as int)) <= (fy as int) * (m as int)) by (nonlinear_arith)
            requires
                -mx <= fy <= mx,
                0 <= m,
        ;
        if mx >= 1_000_000 {
            assert((mx as int) * (m as int) == mx as int) by (nonlinear_arith)
                requires
                    m == 1,
            ;
        } else {
            assert((mx as int) * (m as int) == 1_000_000 - 1_000_000int % (mx as int));
        }
    }
    let bx = fx * m;
    let by = fy * m;
    let ca = cos_tab_exec(if k >= 0 { k } else { -k });
    let sa0 = sin_tab_exec(if k >= 0 { k } else { -k });
    let sa = if k >= 0 { sa0 } else { -sa0 };
    proof {
        lemma_mul_bounds(bx as int, 30_000_000, ca as int, 1000);
        lemma_mul_bounds(by as int, 30_000_000, sa as int, 1000);
        lemma_mul_bounds(by as int, 30_000_000, ca as int, 1000);
        lemma_mul_bounds(bx as int, 30_000_000, sa as int, 1000);
    }
    let rx = div_tz_i64(bx * ca - by * sa, 1000);
    let ry = div_tz_i64(by * ca + bx * sa, 1000);
    let dir = Vec2i { x: rx, y: ry };
    proof {
        assert(dir == wander_rot(old(creature).facing, k as int));
    }
    let off = dir.scale_to_length(d);
    let tgt = Vec2i {
        x: clamp_i64(creature.position.x + off.x, -COORD_LIMIT, COORD_LIMIT),
        y: clamp_i64(creature.position.y + off.y, -COORD_LIMIT, COORD_LIMIT),
    };
    creature.movement_target = Some(Target::Position(tgt));
}

// ---------------------------------------------------------------------
// Boundary repulsion
// ---------------------------------------------------------------------

/// The repulsion force on one axis: positive within `padding` of the
/// lower bound, negative within `padding` of the upper bound, zero in
/// the interior. Its strength is the distance left to the padding edge,
/// with the distance to the wall floored at one unit.
pub open spec fn axis_force(p: int, lo: int, hi: int, padding: int) -> int {
    if p < lo + padding {
        padding - max_int(p - lo, 1000)
    } else if p > hi - padding {
        -(padding - max_int(hi - p, 1000))
    } else {
        0
    }
}

/// One tick of boundary repulsion: the force, scaled by timestep and
/// damping, is added to the velocity, and the position advances by one
/// more timestep (a second integration stage in the same tick).
pub open spec fn bc_step(c: Creature, b: Bounds, pm: Params) -> Creature {
    let fx = axis_force(c.position.x as int, b.x_min as int, b.x_max as int, pm.padding as int);
    let fy = axis_force(c.position.y as int, b.y_min as int, b.y_max as int, pm.padding as int);
    let vx = clamp_int(
        c.velocity.x + div_tz(div_tz(fx * pm.timestep, 1000) * pm.damping, 1000),
        -VEL_LIMIT as int,
        VEL_LIMIT as int,
    );
    let vy = clamp_int(
        c.velocity.y + div_tz(div_tz(fy * pm.timestep, 1000) * pm.damping, 1000),
        -VEL_LIMIT as int,
        VEL_LIMIT as int,
    );
    let px = clamp_int(
        c.position.x + div_tz(vx * pm.timestep, 1000),
        -COORD_LIMIT as int,
        COORD_LIMIT as int,
    );
    let py = clamp_int(
        c.position.y + div_tz(vy * pm.timestep, 1000),
        -COORD_LIMIT as int,
        COORD_LIMIT as int,
    );
    Creature {
        velocity: Vec2i { x: vx as i64, y: vy as i64 },
        position: Vec2i { x: px as i64, y: py as i64 },
        ..c
    }
}

/// The exec mirror of `axis_force`.
fn axis_force_exec(p: i64, lo: i64, hi: i64, padding: i64) -> (r: i64)
    requires
        -COORD_LIMIT <= p <= COORD_LIMIT,
        -COORD_LIMIT <= lo <= COORD_LIMIT,
        -COORD_LIMIT <= hi <= COORD_LIMIT,
        0 <= padding <= COORD_LIMIT,
    ensures
        r == axis_force(p as int, lo as int, hi as int, padding as int),
        -3_000_000_000 <= r <= 3_000_000_000,
{
    if p < lo + padding {
        let dist = if p - lo >= 1000 {
            p - lo
        } else {
            1000
        };
        padding - dist
    } else if p > hi - padding {
        let dist = if hi - p >= 1000 {
            hi - p
        } else {
            1000
        };
        -(padding - dist)
    } else {
        0
    }
}

/// Repel the creature from the arena's edges.
pub fn apply_bc(creature: &mut Creature, world: &World)
    requires
        old(creature).wf(),
        world.wf(),
    ensures
        *final(creature) == bc_step(*old(creature), world.bounds, world.params),
        final(creature).wf(),
{
    let b = world.bounds;
    let pm = world.params;
    let fx = axis_force_exec(creature.position.x, b.x_min, b.x_max, pm.padding);
    let fy = axis_force_exec(creature.position.y, b.y_min, b.y_max, pm.padding);
    proof {
        lemma_mul_bounds(fx as int, 3_000_000_000, pm.timestep as int, TS_LIMIT as int);
        lemma_mul_bounds(fy as int, 3_000_000_000, pm.timestep as int, TS_LIMIT as int);
    }
    let sx = div_tz_i64(fx * pm.timestep, 1000);
    let sy = div_tz_i64(fy * pm.timestep, 1000);
    proof {
        lemma_mul_bounds(sx as int, 3_000_000_000_000, pm.damping as int, DAMP_LIMIT as int);
        lemma_mul_bounds(sy as int, 3_000_000_000_000, pm.damping as int, DAMP_LIMIT as int);
    }
    let dvx = div_tz_i64(sx * pm.damping, 1000);
    let dvy = div_tz_i64(sy * pm.damping, 1000);
    let vx = clamp_i64(creature.velocity.x + dvx, -VEL_LIMIT, VEL_LIMIT);
    let vy = clamp_i64(creature.velocity.y + dvy, -VEL_LIMIT, VEL_LIMIT);
    creature.velocity = Vec2i { x: vx, y: vy };
    proof {
        lemma_mul_bounds(vx as int, VEL_LIMIT as int, pm.timestep as int, TS_LIMIT as int);
        lemma_mul_bounds(vy as int, VEL_LIMIT as int, pm.timestep as int, TS_LIMIT as int);
    }
    let dx = div_tz_i64(vx * pm.timestep, 1000);
    let dy = div_tz_i64(vy * pm.timestep, 1000);
    creature.position = Vec2i {
        x: clamp_i64(creature.position.x + dx, -COORD_LIMIT, COORD_LIMIT),
        y: clamp_i64(creature.position.y + dy, -COORD_LIMIT, COORD_LIMIT),
    };
}

} // verus!
