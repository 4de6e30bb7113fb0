use game_sync::actions::{
    PlayerAction, PlayerActions, PlayerCastAction, PlayerLookAction, PlayerWalkAction,
};
use game_sync::components::Vector2;

fn cast() -> PlayerAction {
    PlayerAction::Cast(PlayerCastAction {
        cast_position: Vector2::new(0, 0),
        target_position: Vector2::new(5, 5),
    })
}

#[test]
fn cast_within_cooldown_is_dropped() {
    let mut buf = PlayerActions::new();
    assert!(buf.push(cast(), 0, 500));
    assert!(!buf.push(cast(), 300, 500));
    assert_eq!(buf.cast_actions.len(), 1);
    assert_eq!(buf.last_spell_cast, Some(0));
    assert!(buf.push(cast(), 500, 500));
    assert_eq!(buf.cast_actions.len(), 2);
    assert_eq!(buf.last_spell_cast, Some(500));
}

#[test]
fn walk_and_look_are_always_kept_and_drained_in_order() {
    let mut buf = PlayerActions::default();
    let w1 = PlayerWalkAction { direction: Vector2::new(1, 0) };
    let w2 = PlayerWalkAction { direction: Vector2::new(0, 1) };
    let l1 = PlayerLookAction { direction: Vector2::new(-1, 0) };
    assert!(buf.push(PlayerAction::Walk(w1), 1, 500));
    assert!(buf.push(PlayerAction::Look(l1), 1, 500));
    assert!(buf.push(PlayerAction::Walk(w2), 2, 500));
    let drained = buf.drain();
    assert_eq!(drained.walk_actions, vec![w1, w2]);
    assert_eq!(drained.look_actions, vec![l1]);
    assert!(drained.cast_actions.is_empty());
    assert!(buf.walk_actions.is_empty());
    assert!(buf.look_actions.is_empty());
    let again = buf.drain();
    assert!(again.walk_actions.is_empty());
}

#[test]
fn drain_keeps_the_cooldown() {
    let mut buf = PlayerActions::new();
    assert!(buf.push(cast(), 1000, 500));
    let drained = buf.drain();
    assert_eq!(drained.cast_actions.len(), 1);
    assert!(!buf.push(cast(), 1200, 500));
    assert!(buf.push(cast(), 1500, 500));
}
