use game_sync::components::Vector2;
use game_sync::spawn::{
    border_spawn_point, Count, Rect, SpawnAction, SpawnActions, SpawnScheduler, SpawnType,
};

fn policy(kind: &str, num: u32, spawn_type: SpawnType) -> SpawnAction {
    SpawnAction { monsters: Count { entity: kind.to_string(), num }, spawn_type }
}

fn area() -> Rect {
    Rect { min: Vector2::new(0, 0), max: Vector2::new(1000, 1000) }
}

#[test]
fn spawning_never_exceeds_the_tick_budget() {
    let scheduler = SpawnScheduler::new(10, 5, 50);
    let mut actions = SpawnActions(vec![policy("Ghoul", 1000, SpawnType::Borderline)]);
    let players = vec![Vector2::new(100, 100)];
    let orders = scheduler.tick(&mut actions, area(), &players, &vec![]);
    assert_eq!(orders.len(), 10);
    assert_eq!(actions.0.len(), 1);
    assert_eq!(actions.0[0].monsters.num, 990);
    let orders = scheduler.tick(&mut actions, area(), &players, &vec![]);
    assert_eq!(orders.len(), 10);
    assert_eq!(actions.0[0].monsters.num, 980);
}

#[test]
fn policies_are_serviced_in_order_and_removed_when_done() {
    let scheduler = SpawnScheduler::new(4, 3, 10);
    let mut actions = SpawnActions(vec![
        policy("Ghoul", 1, SpawnType::Borderline),
        policy("Imp", 0, SpawnType::Borderline),
        policy("Ghoul", 5, SpawnType::Random),
    ]);
    let players = vec![Vector2::new(500, 500)];
    let samples = vec![
        Vector2::new(505, 505), // too close
        Vector2::new(100, 100),
        Vector2::new(2000, 10), // outside
        Vector2::new(200, 300),
        Vector2::new(900, 900),
    ];
    let orders = scheduler.tick(&mut actions, area(), &players, &samples);
    assert_eq!(orders.len(), 4);
    assert_eq!(orders[0].spawn_type, SpawnType::Borderline);
    assert_eq!(orders[0].position, Vector2::new(0, 0));
    assert_eq!(orders[1].position, Vector2::new(100, 100));
    assert_eq!(orders[2].position, Vector2::new(200, 300));
    assert_eq!(orders[3].position, Vector2::new(900, 900));
    assert_eq!(orders[1].entity, "Ghoul");
    assert_eq!(actions.0.len(), 1);
    assert_eq!(actions.0[0].monsters.num, 2);
}

#[test]
fn random_placement_gives_up_after_the_retry_cap() {
    let scheduler = SpawnScheduler::new(10, 2, 100);
    let mut actions = SpawnActions(vec![policy("Ghoul", 3, SpawnType::Random)]);
    let players = vec![Vector2::new(500, 500)];
    let samples = vec![
        Vector2::new(510, 500),
        Vector2::new(520, 500),
        Vector2::new(0, 0),
    ];
    let orders = scheduler.tick(&mut actions, area(), &players, &samples);
    assert!(orders.is_empty());
    assert_eq!(actions.0[0].monsters.num, 3);
}

#[test]
fn empty_worklist_spawns_nothing() {
    let scheduler = SpawnScheduler::new(10, 2, 100);
    let mut actions = SpawnActions(vec![policy("Ghoul", 0, SpawnType::Random)]);
    let orders = scheduler.tick(&mut actions, area(), &vec![], &vec![]);
    assert!(orders.is_empty());
    assert!(actions.0.is_empty());
}

#[test]
fn border_point_is_farthest_from_players() {
    let players = vec![Vector2::new(0, 0), Vector2::new(1000, 0)];
    assert_eq!(border_spawn_point(area(), &players), Vector2::new(500, 1000));
    let near_top = vec![Vector2::new(500, 990)];
    assert_eq!(border_spawn_point(area(), &near_top), Vector2::new(0, 0));
    assert_eq!(border_spawn_point(area(), &vec![]), Vector2::new(0, 0));
}
