//! The simulation's entities and configuration records.
//!
//! All scalars are milli-units (see `math`): a hunger of 100.0 points is
//! stored as 100_000, the default timestep of 0.01 s as 10, and so on.
//! A creature's facing is kept as a direction vector — the last nonzero
//! velocity — rather than an angle; it is never the zero vector.

use vstd::prelude::*;
use crate::math::Vec2i;
use crate::math::COORD_LIMIT;
use crate::math::VEL_LIMIT;
use crate::math::DEX_LIMIT;

verus! {

/// Largest hunger value: 100 points.
pub const HUNGER_LIMIT: i64 = 100_000;

/// Largest hunger rate: 1 point per squared-unit of speed.
pub const RATE_LIMIT: i64 = 1_000;

/// Largest strength value.
pub const STRENGTH_LIMIT: i64 = 1_000_000;

/// Largest food amount.
pub const AMOUNT_LIMIT: i64 = 1_000_000_000;

/// Largest timestep: 1000 seconds.
pub const TS_LIMIT: i64 = 1_000_000;

/// Largest damping factor: 10.
pub const DAMP_LIMIT: i64 = 10_000;

/// Anything that sits somewhere in the arena.
pub trait HasPosition {
    fn position(&self) -> Vec2i;
}

/// What a creature steers toward: a food source or another creature,
/// both by identifier, or a fixed point.
#[derive(Clone, Copy, Debug, PartialEq)]
pub enum Target {
    Food(usize),
    Creature(usize),
    Position(Vec2i),
}

/// The axis-aligned rectangle that creatures live in.
#[derive(Clone, Copy, Debug, PartialEq)]
pub struct Bounds {
    pub x_min: i64,
    pub x_max: i64,
    pub y_min: i64,
    pub y_max: i64,
}

impl Bounds {
    pub open spec fn wf(self) -> bool {
        &&& -COORD_LIMIT <= self.x_min < self.x_max <= COORD_LIMIT
        &&& -COORD_LIMIT <= self.y_min < self.y_max <= COORD_LIMIT
    }

    /// `p` lies inside the rectangle, the upper edges excluded.
    pub open spec fn holds(self, p: Vec2i) -> bool {
        &&& self.x_min <= p.x < self.x_max
        &&& self.y_min <= p.y < self.y_max
    }

    pub fn is_well_formed(&self) -> (r: bool)
        ensures
            r == self.wf(),
    {
        -COORD_LIMIT <= self.x_min && self.x_min < self.x_max && self.x_max <= COORD_LIMIT
            && -COORD_LIMIT <= self.y_min && self.y_min < self.y_max && self.y_max <= COORD_LIMIT
    }
}

/// Simulation parameters. The window extents are informational; padding
/// is the width of the boundary-repulsion zone, timestep the integration
/// step, and damping scales only the boundary force.
#[derive(Clone, Copy, Debug, PartialEq)]
pub struct Params {
    pub window_width: i64,
    pub window_height: i64,
    pub padding: i64,
    pub timestep: i64,
    pub damping: i64,
}

impl Params {
    pub open spec fn wf(self) -> bool {
        &&& 0 <= self.window_width <= COORD_LIMIT
        &&& 0 <= self.window_height <= COORD_LIMIT
        &&& 0 <= self.padding <= COORD_LIMIT
        &&& 1 <= self.timestep <= TS_LIMIT
        &&& 0 <= self.damping <= DAMP_LIMIT
    }

    pub fn is_well_formed(&self) -> (r: bool)
        ensures
            r == self.wf(),
    {
        0 <= self.window_width && self.window_width <= COORD_LIMIT
            && 0 <= self.window_height && self.window_height <= COORD_LIMIT
            && 0 <= self.padding && self.padding <= COORD_LIMIT
            && 1 <= self.timestep && self.timestep <= TS_LIMIT
            && 0 <= self.damping && self.damping <= DAMP_LIMIT
    }
}

impl Default for Params {
    /// A 600 by 400 unit window, padding 20 units, timestep 0.01 s and
    /// damping 0.9.
    fn default() -> (r: Params)
        ensures
            r == (Params {
                window_width: 600_000,
                window_height: 400_000,
                padding: 20_000,
                timestep: 10,
                damping: 900,
            }),
            r.wf(),
    {
        Params {
            window_width: 600_000,
            window_height: 400_000,
            padding: 20_000,
            timestep: 10,
            damping: 900,
        }
    }
}

/// A place creatures flock to when hungry. `amount` never changes after
/// creation for now — depletion and regrowth are hooks for later.
#[derive(Clone, Copy, Debug, PartialEq)]
pub struct FoodSource {
    pub position: Vec2i,
    pub max_amount: i64,
    pub amount: i64,
}

impl FoodSource {
    pub open spec fn wf(self) -> bool {
        &&& self.position.bounded(COORD_LIMIT as int)
        &&& 0 <= self.amount <= self.max_amount <= AMOUNT_LIMIT
    }

    pub fn is_well_formed(&self) -> (r: bool)
        ensures
            r == self.wf(),
    {
        self.position.bounded_check(COORD_LIMIT)
            && 0 <= self.amount && self.amount <= self.max_amount
            && self.max_amount <= AMOUNT_LIMIT
    }
}

impl HasPosition for FoodSource {
    fn position(&self) -> Vec2i {
        self.position
    }
}

/// An autonomous agent. `color` is a display-only tag.
#[derive(Clone, Copy, Debug, PartialEq)]
pub struct Creature {
    pub position: Vec2i,
    pub velocity: Vec2i,
    pub facing: Vec2i,
    pub strength: i64,
    pub dexterity: i64,
    pub hunger: i64,
    pub hunger_threshold: i64,
    pub hunger_rate: i64,
    pub color: u8,
    pub movement_target: Option<Target>,
}

impl Creature {
    /// A fixed-point target must sit in the coordinate range the engine
    /// works with.
    pub open spec fn target_wf(self) -> bool {
        match self.movement_target {
            Some(Target::Position(p)) => p.bounded(COORD_LIMIT as int),
            _ => true,
        }
    }

    pub open spec fn wf(self) -> bool {
        &&& self.position.bounded(COORD_LIMIT as int)
        &&& self.velocity.bounded(VEL_LIMIT as int)
        &&& !self.facing.is_zero()
        &&& self.facing.bounded(VEL_LIMIT as int)
        &&& 1 <= self.strength <= STRENGTH_LIMIT
        &&& 1 <= self.dexterity <= DEX_LIMIT
        &&& 0 <= self.hunger <= HUNGER_LIMIT
        &&& 0 <= self.hunger_threshold <= HUNGER_LIMIT
        &&& 0 <= self.hunger_rate <= RATE_LIMIT
        &&& self.target_wf()
    }

    pub fn is_well_formed(&self) -> (r: bool)
        ensures
            r == self.wf(),
    {
        let target_ok = match self.movement_target {
            Some(Target::Position(p)) => p.bounded_check(COORD_LIMIT),
            _ => true,
        };
        self.position.bounded_check(COORD_LIMIT)
            && self.velocity.bounded_check(VEL_LIMIT)
            && !(self.facing.x == 0 && self.facing.y == 0)
            && self.facing.bounded_check(VEL_LIMIT)
            && 1 <= self.strength && self.strength <= STRENGTH_LIMIT
            && 1 <= self.dexterity && self.dexterity <= DEX_LIMIT
            && 0 <= self.hunger && self.hunger <= HUNGER_LIMIT
            && 0 <= self.hunger_threshold && self.hunger_threshold <= HUNGER_LIMIT
            && 0 <= self.hunger_rate && self.hunger_rate <= RATE_LIMIT
            && target_ok
    }

    /// A creature seeks food when its hunger has fallen to its threshold.
    pub open spec fn is_hungry_spec(self) -> bool {
        self.hunger <= self.hunger_threshold
    }

    pub fn is_hungry(&self) -> (r: bool)
        ensures
            r == self.is_hungry_spec(),
    {
        self.hunger <= self.hunger_threshold
    }

    /// Top speed: ten units per second per unit of dexterity.
    pub open spec fn max_speed_spec(self) -> int {
        self.dexterity * 10
    }

    pub fn max_speed(&self) -> (r: i64)
        requires
            1 <= self.dexterity <= DEX_LIMIT,
        ensures
            r == self.max_speed_spec(),
    {
        self.dexterity * 10
    }

    /// Largest steering change per tick.
    pub open spec fn acceleration_spec(self) -> int {
        self.dexterity as int
    }

    pub fn acceleration(&self) -> (r: i64)
        ensures
            r == self.acceleration_spec(),
    {
        self.dexterity
    }

    /// Squared speed, in milli-units squared.
    pub fn square_speed(&self) -> (r: i64)
        requires
            self.velocity.bounded(VEL_LIMIT as int),
        ensures
            r == self.velocity.sq(),
            r >= 0,
    {
        self.velocity.len_sq()
    }

    /// Squared distance to a food source.
    pub fn square_distance_to_food(&self, food: &FoodSource) -> (r: i64)
        requires
            self.position.bounded(COORD_LIMIT as int),
            food.position.bounded(COORD_LIMIT as int),
        ensures
            r == crate::math::sq_len(
                food.position.x - self.position.x,
                food.position.y - self.position.y,
            ),
            r >= 0,
    {
        food.position.minus(self.position).len_sq()
    }
}

impl HasPosition for Creature {
    fn position(&self) -> Vec2i {
        self.position
    }
}

} // verus!
