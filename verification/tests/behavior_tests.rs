use evosim::behavior::apply_bc;
use evosim::behavior::find_food;
use evosim::behavior::set_wander_target;
use evosim::behavior::update_hunger;
use evosim::entities::Bounds;
use evosim::entities::Creature;
use evosim::entities::FoodSource;
use evosim::entities::Params;
use evosim::entities::Target;
use evosim::math::Vec2i;
use evosim::world::World;

fn resting_creature(position: Vec2i) -> Creature {
    Creature {
        position,
        velocity: Vec2i { x: 0, y: 0 },
        facing: Vec2i { x: 1000, y: 0 },
        strength: 1000,
        dexterity: 1000,
        hunger: 100_000,
        hunger_threshold: 50_000,
        hunger_rate: 50,
        color: 0,
        movement_target: None,
    }
}

fn arena() -> World {
    let params = Params {
        window_width: 600_000,
        window_height: 400_000,
        padding: 20_000,
        timestep: 10,
        damping: 900,
    };
    let bounds = Bounds { x_min: 0, x_max: 600_000, y_min: 0, y_max: 400_000 };
    World::new(Vec::new(), Vec::new(), params, bounds).unwrap()
}

#[test]
fn hunger_falls_by_rest_rate_at_rest() {
    let mut c = resting_creature(Vec2i { x: 100_000, y: 100_000 });
    update_hunger(&mut c);
    assert_eq!(c.hunger, 99_990);
    update_hunger(&mut c);
    assert_eq!(c.hunger, 99_980);
}

#[test]
fn hunger_clamps_at_zero() {
    let mut c = resting_creature(Vec2i { x: 0, y: 0 });
    c.hunger = 5;
    update_hunger(&mut c);
    assert_eq!(c.hunger, 0);
    update_hunger(&mut c);
    assert_eq!(c.hunger, 0);
}

#[test]
fn hunger_falls_faster_when_moving() {
    let mut c = resting_creature(Vec2i { x: 0, y: 0 });
    c.velocity = Vec2i { x: 10_000, y: 0 };
    update_hunger(&mut c);
    // 10 + 50 * (10_000² / 1_000_000) / 1_000 = 10 + 5_000 milli-points.
    assert_eq!(c.hunger, 100_000 - 5_010);
}

#[test]
fn arrival_snap_zeroes_velocity_and_target() {
    let world = arena();
    let mut c = resting_creature(Vec2i { x: 100_000, y: 100_000 });
    c.velocity = Vec2i { x: 500, y: 0 };
    c.movement_target = Some(Target::Position(Vec2i { x: 103_000, y: 100_000 }));
    c.move_to_target(&world);
    assert_eq!(c.velocity, Vec2i { x: 0, y: 0 });
    assert_eq!(c.movement_target, None);
    assert_eq!(c.position, Vec2i { x: 100_000, y: 100_000 });
}

#[test]
fn dangling_food_target_leaves_creature_unchanged() {
    let world = arena();
    let mut c = resting_creature(Vec2i { x: 100_000, y: 100_000 });
    c.velocity = Vec2i { x: 700, y: -300 };
    c.movement_target = Some(Target::Food(99));
    assert_eq!(Target::Food(99).position(&world), None);
    let before = c;
    c.move_to_target(&world);
    assert_eq!(c, before);
}

#[test]
fn dangling_creature_target_leaves_creature_unchanged() {
    let world = arena();
    let mut c = resting_creature(Vec2i { x: 100_000, y: 100_000 });
    c.movement_target = Some(Target::Creature(7));
    let before = c;
    c.move_to_target(&world);
    assert_eq!(c, before);
}

#[test]
fn steering_respects_speed_and_acceleration_bounds() {
    let world = arena();
    let mut c = resting_creature(Vec2i { x: 0, y: 200_000 });
    c.movement_target = Some(Target::Position(Vec2i { x: 300_000, y: 200_000 }));
    c.move_to_target(&world);
    // From rest, the first tick's velocity is exactly the steering
    // increment, whose squared length is capped by dexterity².
    let sq = c.velocity.x * c.velocity.x + c.velocity.y * c.velocity.y;
    assert!(sq <= 1000 * 1000);
    assert!(sq > 0);
    // Across many ticks the speed never exceeds dexterity * 10.
    for _ in 0..200 {
        c.movement_target = Some(Target::Position(Vec2i { x: 300_000, y: 200_000 }));
        c.move_to_target(&world);
        let sq = c.velocity.x * c.velocity.x + c.velocity.y * c.velocity.y;
        assert!(sq <= 10_000 * 10_000);
    }
}

#[test]
fn find_food_picks_nearest_of_three() {
    let mut world = arena();
    // Distances 10, 5 and 20 units from the creature at the origin.
    world.add_food_source(FoodSource {
        position: Vec2i { x: 10_000, y: 0 },
        max_amount: 60_000,
        amount: 60_000,
    });
    world.add_food_source(FoodSource {
        position: Vec2i { x: 0, y: 5_000 },
        max_amount: 60_000,
        amount: 60_000,
    });
    world.add_food_source(FoodSource {
        position: Vec2i { x: -20_000, y: 0 },
        max_amount: 60_000,
        amount: 60_000,
    });
    let mut c = resting_creature(Vec2i { x: 0, y: 0 });
    find_food(&mut c, &world);
    assert_eq!(c.movement_target, Some(Target::Food(1)));
}

#[test]
fn find_food_breaks_ties_by_registry_order() {
    let mut world = arena();
    world.add_food_source(FoodSource {
        position: Vec2i { x: 7_000, y: 0 },
        max_amount: 60_000,
        amount: 60_000,
    });
    world.add_food_source(FoodSource {
        position: Vec2i { x: 0, y: 7_000 },
        max_amount: 60_000,
        amount: 60_000,
    });
    let mut c = resting_creature(Vec2i { x: 0, y: 0 });
    find_food(&mut c, &world);
    assert_eq!(c.movement_target, Some(Target::Food(0)));
}

#[test]
fn find_food_with_empty_registry_is_a_no_op() {
    let world = arena();
    let mut c = resting_creature(Vec2i { x: 0, y: 0 });
    let before = c;
    find_food(&mut c, &world);
    assert_eq!(c, before);
}

#[test]
fn boundary_force_pushes_inward_from_low_edge() {
    let world = arena();
    let mut c = resting_creature(Vec2i { x: 0, y: 200_000 });
    apply_bc(&mut c, &world);
    // force = padding - max(0, 1) = 19 units; dv = 19 * 0.01 * 0.9.
    assert_eq!(c.velocity, Vec2i { x: 171, y: 0 });
    assert!(c.velocity.x > 0);
}

#[test]
fn boundary_force_pushes_inward_from_high_edge() {
    let world = arena();
    let mut c = resting_creature(Vec2i { x: 600_000, y: 200_000 });
    apply_bc(&mut c, &world);
    assert_eq!(c.velocity, Vec2i { x: -171, y: 0 });
    assert!(c.velocity.x < 0);
}

#[test]
fn boundary_force_vanishes_at_center() {
    let world = arena();
    let mut c = resting_creature(Vec2i { x: 300_000, y: 200_000 });
    apply_bc(&mut c, &world);
    assert_eq!(c.velocity, Vec2i { x: 0, y: 0 });
    assert_eq!(c.position, Vec2i { x: 300_000, y: 200_000 });
}

#[test]
fn interior_tick_still_integrates_position_once_more() {
    let world = arena();
    let mut c = resting_creature(Vec2i { x: 300_000, y: 200_000 });
    c.velocity = Vec2i { x: 2_000, y: -1_000 };
    apply_bc(&mut c, &world);
    // No force in the interior: the velocity is untouched and the
    // position advances by one timestep of it.
    assert_eq!(c.velocity, Vec2i { x: 2_000, y: -1_000 });
    assert_eq!(c.position, Vec2i { x: 300_020, y: 199_990 });
}

#[test]
fn facing_keeps_prior_value_at_rest() {
    let mut c = resting_creature(Vec2i { x: 300_000, y: 200_000 });
    c.facing = Vec2i { x: -250, y: 750 };
    c.update_facing();
    assert_eq!(c.facing, Vec2i { x: -250, y: 750 });
}

#[test]
fn facing_follows_nonzero_velocity() {
    let mut c = resting_creature(Vec2i { x: 300_000, y: 200_000 });
    c.velocity = Vec2i { x: 0, y: -400 };
    c.update_facing();
    assert_eq!(c.facing, Vec2i { x: 0, y: -400 });
}

#[test]
fn wander_target_straight_ahead() {
    let mut c = resting_creature(Vec2i { x: 100_000, y: 100_000 });
    set_wander_target(&mut c, 10_000, 0);
    assert_eq!(
        c.movement_target,
        Some(Target::Position(Vec2i { x: 110_000, y: 100_000 }))
    );
}

#[test]
fn wander_target_at_cone_edges() {
    let mut c = resting_creature(Vec2i { x: 0, y: 0 });
    set_wander_target(&mut c, 10_000, 30);
    assert_eq!(
        c.movement_target,
        Some(Target::Position(Vec2i { x: 8_660, y: 5_000 }))
    );
    let mut c2 = resting_creature(Vec2i { x: 0, y: 0 });
    set_wander_target(&mut c2, 10_000, -30);
    assert_eq!(
        c2.movement_target,
        Some(Target::Position(Vec2i { x: 8_660, y: -5_000 }))
    );
}

#[test]
fn wander_distance_holds_for_a_tiny_facing() {
    // A creature that last crept at 0.001 units/s on each axis has the
    // short facing (1, 1). Scaling the direction up before rotating
    // keeps the drawn distance: the offset is (7.071, 7.071), less
    // than 0.02 units short of the drawn 10.
    let mut c = resting_creature(Vec2i { x: 100_000, y: 100_000 });
    c.facing = Vec2i { x: 1, y: 1 };
    set_wander_target(&mut c, 10_000, 0);
    match c.movement_target {
        Some(Target::Position(p)) => {
            assert_eq!(p, Vec2i { x: 107_071, y: 107_071 });
            let dx = p.x - 100_000;
            let dy = p.y - 100_000;
            let sq = dx * dx + dy * dy;
            assert!(sq >= 9_981 * 9_981);
            assert!(sq <= 10_000 * 10_000);
        }
        other => panic!("expected a position target, got {:?}", other),
    }
}

#[test]
fn wander_keeps_an_existing_target() {
    let mut c = resting_creature(Vec2i { x: 0, y: 0 });
    c.movement_target = Some(Target::Food(3));
    set_wander_target(&mut c, 20_000, 10);
    assert_eq!(c.movement_target, Some(Target::Food(3)));
}
