use evosim::entities::Bounds;
use evosim::entities::Creature;
use evosim::entities::FoodSource;
use evosim::entities::Params;
use evosim::entities::Target;
use evosim::math::Vec2i;
use evosim::rng::random_creature;
use evosim::rng::rvec2_range;
use evosim::world::World;

fn default_bounds() -> Bounds {
    Bounds { x_min: 0, x_max: 600_000, y_min: 0, y_max: 400_000 }
}

fn plain_creature(position: Vec2i) -> Creature {
    Creature {
        position,
        velocity: Vec2i { x: 0, y: 0 },
        facing: Vec2i { x: 1000, y: 0 },
        strength: 1000,
        dexterity: 1000,
        hunger: 100_000,
        hunger_threshold: 50_000,
        hunger_rate: 50,
        color: 0,
        movement_target: None,
    }
}

fn plain_food(position: Vec2i) -> FoodSource {
    FoodSource { position, max_amount: 75_000, amount: 75_000 }
}

#[test]
fn world_assigns_ids_in_list_order() {
    let creatures = vec![
        plain_creature(Vec2i { x: 100_000, y: 100_000 }),
        plain_creature(Vec2i { x: 200_000, y: 100_000 }),
    ];
    let foods = vec![plain_food(Vec2i { x: 300_000, y: 200_000 })];
    let world = World::new(creatures, foods, Params::default(), default_bounds()).unwrap();
    assert_eq!(world.creatures[0].0, 0);
    assert_eq!(world.creatures[1].0, 1);
    assert_eq!(world.food_sources[0].0, 2);
    assert_eq!(world.next_id, 3);
}

#[test]
fn world_rejects_reversed_bounds() {
    let bad = Bounds { x_min: 10_000, x_max: 0, y_min: 0, y_max: 400_000 };
    assert!(World::new(Vec::new(), Vec::new(), Params::default(), bad).is_none());
}

#[test]
fn world_rejects_out_of_range_hunger_threshold() {
    let mut c = plain_creature(Vec2i { x: 100_000, y: 100_000 });
    c.hunger_threshold = 100_001;
    assert!(
        World::new(vec![c], Vec::new(), Params::default(), default_bounds()).is_none()
    );
}

#[test]
fn ids_survive_insertion_and_lookup() {
    let mut world =
        World::new(Vec::new(), Vec::new(), Params::default(), default_bounds()).unwrap();
    let a = world.add_creature(plain_creature(Vec2i { x: 50_000, y: 50_000 }));
    let f = world.add_food_source(plain_food(Vec2i { x: 300_000, y: 200_000 }));
    let b = world.add_creature(plain_creature(Vec2i { x: 150_000, y: 50_000 }));
    assert_eq!((a, f, b), (0, 1, 2));
    assert_eq!(world.get_creature(a).unwrap().position, Vec2i { x: 50_000, y: 50_000 });
    assert_eq!(world.get_creature(b).unwrap().position, Vec2i { x: 150_000, y: 50_000 });
    assert_eq!(world.get_food(f).unwrap().position, Vec2i { x: 300_000, y: 200_000 });
    assert!(world.get_creature(f).is_none());
    assert!(world.get_food(b).is_none());
    assert!(world.get_creature(99).is_none());
}

#[test]
fn target_resolution_follows_the_registry() {
    let mut world =
        World::new(Vec::new(), Vec::new(), Params::default(), default_bounds()).unwrap();
    let a = world.add_creature(plain_creature(Vec2i { x: 50_000, y: 50_000 }));
    let f = world.add_food_source(plain_food(Vec2i { x: 300_000, y: 200_000 }));
    assert_eq!(
        Target::Creature(a).position(&world),
        Some(Vec2i { x: 50_000, y: 50_000 })
    );
    assert_eq!(Target::Food(f).position(&world), Some(Vec2i { x: 300_000, y: 200_000 }));
    assert_eq!(
        Target::Position(Vec2i { x: 7, y: 8 }).position(&world),
        Some(Vec2i { x: 7, y: 8 })
    );
    assert_eq!(Target::Food(a).position(&world), None);
    assert_eq!(Target::Creature(f).position(&world), None);
}

#[test]
fn random_point_stays_in_bounds() {
    let mut rng = rand::rng();
    let bounds = default_bounds();
    for _ in 0..100 {
        let p = rvec2_range(&mut rng, &bounds);
        assert!(bounds.x_min <= p.x && p.x < bounds.x_max);
        assert!(bounds.y_min <= p.y && p.y < bounds.y_max);
    }
}

#[test]
fn random_point_in_unit_range_is_pinned() {
    let mut rng = rand::rng();
    let bounds = Bounds { x_min: 5_000, x_max: 5_001, y_min: 7_000, y_max: 7_001 };
    let p = rvec2_range(&mut rng, &bounds);
    assert_eq!(p, Vec2i { x: 5_000, y: 7_000 });
}

#[test]
fn random_creature_fields_are_in_spec_ranges() {
    let mut rng = rand::rng();
    let bounds = default_bounds();
    for _ in 0..50 {
        let c = random_creature(&mut rng, &bounds);
        assert!(bounds.x_min <= c.position.x && c.position.x < bounds.x_max);
        assert!(bounds.y_min <= c.position.y && c.position.y < bounds.y_max);
        assert_eq!(c.velocity, Vec2i { x: 0, y: 0 });
        assert_eq!(c.facing, Vec2i { x: 1000, y: 0 });
        assert_eq!(c.hunger, 100_000);
        assert!(10 <= c.hunger_rate && c.hunger_rate < 100);
        assert!(25_000 <= c.hunger_threshold && c.hunger_threshold < 75_000);
        assert!(c.color < 5);
        assert!(c.movement_target.is_none());
    }
}

#[test]
fn random_food_source_is_full_and_in_range() {
    let mut rng = rand::rng();
    let bounds = default_bounds();
    for _ in 0..50 {
        let f = FoodSource::new_rand(&mut rng, &bounds);
        assert_eq!(f.amount, f.max_amount);
        assert!(50_000 <= f.max_amount && f.max_amount < 100_000);
        assert!(bounds.x_min <= f.position.x && f.position.x < bounds.x_max);
        assert!(bounds.y_min <= f.position.y && f.position.y < bounds.y_max);
    }
}
