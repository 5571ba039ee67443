use evosim::entities::Bounds;
use evosim::entities::Creature;
use evosim::entities::FoodSource;
use evosim::entities::Params;
use evosim::entities::Target;
use evosim::math::Vec2i;
use evosim::rng::random_creature;
use evosim::tick::update_world;
use evosim::world::World;

fn scenario_world() -> World {
    let params = Params {
        window_width: 600_000,
        window_height: 400_000,
        padding: 20_000,
        timestep: 10,
        damping: 900,
    };
    let bounds = Bounds { x_min: 0, x_max: 600_000, y_min: 0, y_max: 400_000 };
    let creature = Creature {
        position: Vec2i { x: 0, y: 200_000 },
        velocity: Vec2i { x: 0, y: 0 },
        facing: Vec2i { x: 1000, y: 0 },
        strength: 1000,
        dexterity: 1000,
        hunger: 0,
        hunger_threshold: 50_000,
        hunger_rate: 50,
        color: 0,
        movement_target: None,
    };
    let food = FoodSource {
        position: Vec2i { x: 300_000, y: 200_000 },
        max_amount: 100_000,
        amount: 100_000,
    };
    World::new(vec![creature], vec![food], params, bounds).unwrap()
}

#[test]
fn hungry_creature_heads_for_the_food_after_one_tick() {
    let mut rng = rand::rng();
    let mut world = scenario_world();
    let food_id = world.food_sources[0].0;
    update_world(&mut rng, &mut world);
    let c = world.creatures[0].1;
    assert_eq!(c.movement_target, Some(Target::Food(food_id)));
    // The velocity points toward the food at (300, 200): positive x,
    // no y component, magnitude above zero and at most dexterity * 10.
    assert!(c.velocity.x > 0);
    assert_eq!(c.velocity.y, 0);
    let sq = c.velocity.x * c.velocity.x + c.velocity.y * c.velocity.y;
    assert!(sq <= 10_000 * 10_000);
    // Exact fixed-point trace: steering gives 1 unit/s, the low-edge
    // boundary force adds 0.171 more.
    assert_eq!(c.velocity, Vec2i { x: 1_171, y: 0 });
    assert_eq!(c.position, Vec2i { x: 21, y: 200_000 });
    assert_eq!(c.facing, Vec2i { x: 1_171, y: 0 });
    assert_eq!(c.hunger, 0);
}

#[test]
fn stationary_content_creature_keeps_facing_across_a_tick() {
    let mut rng = rand::rng();
    let params = Params::default();
    let bounds = Bounds { x_min: 0, x_max: 600_000, y_min: 0, y_max: 400_000 };
    // Content (hunger above threshold), already at its target point, in
    // the interior: the tick snaps the nearby target away, leaves the
    // velocity at zero and must keep the facing bit for bit.
    let creature = Creature {
        position: Vec2i { x: 300_000, y: 200_000 },
        velocity: Vec2i { x: 0, y: 0 },
        facing: Vec2i { x: -321, y: 654 },
        strength: 1000,
        dexterity: 1000,
        hunger: 90_000,
        hunger_threshold: 30_000,
        hunger_rate: 50,
        color: 1,
        movement_target: Some(Target::Position(Vec2i { x: 300_500, y: 200_000 })),
    };
    let mut world = World::new(vec![creature], Vec::new(), params, bounds).unwrap();
    update_world(&mut rng, &mut world);
    let c = world.creatures[0].1;
    assert_eq!(c.velocity, Vec2i { x: 0, y: 0 });
    assert_eq!(c.movement_target, None);
    assert_eq!(c.facing, Vec2i { x: -321, y: 654 });
    assert_eq!(c.hunger, 89_990);
}

#[test]
fn ticking_preserves_ids_foods_and_configuration() {
    let mut rng = rand::rng();
    let bounds = Bounds { x_min: 0, x_max: 600_000, y_min: 0, y_max: 400_000 };
    let mut creatures = Vec::new();
    for _ in 0..20 {
        creatures.push(random_creature(&mut rng, &bounds));
    }
    let mut foods = Vec::new();
    for _ in 0..10 {
        foods.push(FoodSource::new_rand(&mut rng, &bounds));
    }
    let mut world = World::new(creatures, foods, Params::default(), bounds).unwrap();
    let ids: Vec<usize> = world.creatures.iter().map(|e| e.0).collect();
    let foods_before: Vec<(usize, FoodSource)> = world.food_sources.clone();
    for _ in 0..100 {
        update_world(&mut rng, &mut world);
    }
    assert_eq!(world.creatures.len(), 20);
    let ids_after: Vec<usize> = world.creatures.iter().map(|e| e.0).collect();
    assert_eq!(ids, ids_after);
    assert_eq!(world.food_sources, foods_before);
    assert_eq!(world.next_id, 30);
    for (_, c) in &world.creatures {
        assert!(0 <= c.hunger && c.hunger <= 100_000);
        assert!(c.position.x.abs() <= 1_000_000_000);
        assert!(c.position.y.abs() <= 1_000_000_000);
    }
}

#[test]
fn tick_reads_a_pretick_snapshot_of_other_creatures() {
    let mut rng = rand::rng();
    let bounds = Bounds { x_min: 0, x_max: 600_000, y_min: 0, y_max: 400_000 };
    // The chased creature sits exactly 4.999 units from the chaser and
    // flees along +x; it is registered first, so it moves first. Under
    // the snapshot discipline the chaser still resolves the pre-tick
    // position, which is within the arrival radius, and snaps. If it
    // saw the updated position instead, the distance would already be
    // above 5 units and no snap could happen.
    let runner = Creature {
        position: Vec2i { x: 200_000, y: 200_000 },
        velocity: Vec2i { x: 0, y: 0 },
        facing: Vec2i { x: 1000, y: 0 },
        strength: 1000,
        dexterity: 1000,
        hunger: 90_000,
        hunger_threshold: 30_000,
        hunger_rate: 50,
        color: 0,
        movement_target: Some(Target::Position(Vec2i { x: 300_000, y: 200_000 })),
    };
    let chaser = Creature {
        position: Vec2i { x: 195_001, y: 200_000 },
        velocity: Vec2i { x: 0, y: 0 },
        facing: Vec2i { x: 1000, y: 0 },
        strength: 1000,
        dexterity: 1000,
        hunger: 90_000,
        hunger_threshold: 30_000,
        hunger_rate: 50,
        color: 0,
        movement_target: Some(Target::Creature(0)),
    };
    let mut world =
        World::new(vec![runner, chaser], Vec::new(), Params::default(), bounds).unwrap();
    update_world(&mut rng, &mut world);
    let runner_after = world.creatures[0].1;
    let chaser_after = world.creatures[1].1;
    assert!(runner_after.position.x > 200_000);
    assert_eq!(chaser_after.velocity, Vec2i { x: 0, y: 0 });
    assert_eq!(chaser_after.movement_target, None);
    assert_eq!(chaser_after.position, Vec2i { x: 195_001, y: 200_000 });
}

#[test]
fn wandering_creature_picks_a_target_in_the_cone() {
    let mut rng = rand::rng();
    let bounds = Bounds { x_min: 0, x_max: 600_000, y_min: 0, y_max: 400_000 };
    // Content creature facing +x, at rest in the interior, no target:
    // the tick must give it a Position target ahead of it.
    let creature = Creature {
        position: Vec2i { x: 300_000, y: 200_000 },
        velocity: Vec2i { x: 0, y: 0 },
        facing: Vec2i { x: 1000, y: 0 },
        strength: 1000,
        dexterity: 1000,
        hunger: 90_000,
        hunger_threshold: 30_000,
        hunger_rate: 50,
        color: 0,
        movement_target: None,
    };
    let mut world =
        World::new(vec![creature], Vec::new(), Params::default(), bounds).unwrap();
    update_world(&mut rng, &mut world);
    let c = world.creatures[0].1;
    match c.movement_target {
        Some(Target::Position(p)) => {
            let dx = p.x - 300_000;
            let dy = p.y - 200_000;
            // Within the 30-degree cone ahead: x offset positive and
            // dominant, total distance within rounding of the drawn
            // 10 to 80 units.
            assert!(dx > 0);
            assert!(dy.abs() < dx);
            assert!(dx * dx + dy * dy >= 9_981 * 9_981);
            assert!(dx * dx + dy * dy <= 80_000 * 80_000);
        }
        other => panic!("expected a position target, got {:?}", other),
    }
}
