//! A small agent-simulation engine on a bounded 2D arena.
//!
//! Autonomous creatures move through the arena, get hungry, seek out
//! food sources and wander otherwise, while repelled from the world's
//! edges. The engine is the per-tick world update: entity storage with
//! stable identity, target resolution by reference (an id, never a
//! copied coordinate, so a dangling target is tolerated), arrival
//! steering, hunger decay and boundary repulsion.
//!
//! All quantities are fixed-point milli-units: an `i64` value of 1000
//! stands for one world unit, one hunger point or one second. Every
//! executable step has a spec-function mirror stating its exact result,
//! and the properties of the model — speed and acceleration bounds,
//! arrival snap, hunger monotonicity and the rest — are proved in
//! `laws`.
//!
//! - `math`: fixed-point scalars, square roots, 2D vectors.
//! - `entities`: creatures, food sources, targets, configuration.
//! - `world`: the id-keyed entity registry.
//! - `behavior`: the per-creature state machine.
//! - `rng`: the boundary to the `rand` crate, and random spawning.
//! - `tick`: the orchestrator advancing the whole world one timestep.
//! - `laws`: proofs of the model's general properties.

pub mod math;
pub mod entities;
pub mod world;
pub mod behavior;
pub mod rng;
pub mod tick;
pub mod laws;
