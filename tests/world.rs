use game_sync::components::{
    distance_squared, DeadMarks, NetConnectionModel, Player, Vector2, WorldPosition,
};
use game_sync::net_identity::NetIdentityRegistry;
use game_sync::spawn::{SpawnActions, SpawnType};
use game_sync::states::{main_player_of, GameEngineState, GameLevelState, MenuState, PlayingState};

#[test]
fn fresh_player_values() {
    let p = Player::new();
    assert_eq!(p.health, 100);
    assert_eq!(p.radius, 20);
    assert_eq!(p.velocity, Vector2::zero());
    assert_eq!(p.walking_direction, Vector2::new(0, 1));
    assert_eq!(p.looking_direction, Vector2::new(0, 1));
    assert_eq!(Player::default(), p);
}

#[test]
fn world_position_and_distance() {
    let w = WorldPosition::new(Vector2::new(3, -4));
    assert_eq!(w.position, Vector2::new(3, -4));
    assert_eq!(distance_squared(Vector2::new(0, 0), w.position), 25);
    let far = distance_squared(Vector2::new(i32::MIN, i32::MIN), Vector2::new(i32::MAX, i32::MAX));
    assert_eq!(far, 2 * (u32::MAX as u128) * (u32::MAX as u128));
}

#[test]
fn connection_record_starts_pinged_now() {
    let c = NetConnectionModel::new(9, 2, 1234);
    assert_eq!(c.created_at, 1234);
    assert_eq!(c.last_pinged_at, 1234);
}

#[test]
fn menu_resets_a_finished_level() {
    let mut engine = GameEngineState::Playing;
    let mut level = GameLevelState { is_over: true };
    let mut identities = NetIdentityRegistry::new();
    let id = identities.register_new_entity(3);
    assert!(MenuState.on_start(&mut engine, &mut level, &mut identities));
    assert_eq!(engine, GameEngineState::Menu);
    assert!(!level.is_over);
    assert_eq!(identities.resolve(id), None);
    assert_eq!(identities.register_new_entity(4), id + 1);
    assert!(!MenuState.on_start(&mut engine, &mut level, &mut identities));
    assert_eq!(identities.resolve(id + 1), Some(4));
}

#[test]
fn playing_state_queues_the_initial_spawns() {
    let mut engine = GameEngineState::Menu;
    let mut level = GameLevelState { is_over: true };
    let mut actions = SpawnActions(Vec::new());
    PlayingState.on_start(&mut engine, &mut level, &mut actions);
    assert_eq!(engine, GameEngineState::Playing);
    assert!(!level.is_over);
    assert_eq!(actions.0.len(), 2);
    assert_eq!(actions.0[0].monsters.entity, "Ghoul");
    assert_eq!(actions.0[0].monsters.num, 1);
    assert_eq!(actions.0[0].spawn_type, SpawnType::Borderline);
    assert_eq!(actions.0[1].monsters.num, 5);
    assert_eq!(actions.0[1].spawn_type, SpawnType::Random);
}

#[test]
fn main_player_is_the_own_connections_entity() {
    let players = vec![(1, 10), (2, 20), (2, 21)];
    assert_eq!(main_player_of(&players, 2), Some(21));
    assert_eq!(main_player_of(&players, 1), Some(10));
    assert_eq!(main_player_of(&players, 3), None);
}

#[test]
fn dead_marks_are_a_set() {
    let mut dead = DeadMarks::new();
    assert!(!dead.is_dead(4));
    assert!(dead.mark(4));
    assert!(!dead.mark(4));
    assert!(dead.is_dead(4));
    assert!(!dead.is_dead(5));
    assert!(dead.clear(4));
    assert!(!dead.clear(4));
    assert!(!dead.is_dead(4));
}
