//! Per-player buffering of input, with a cooldown on spell casts.

use vstd::prelude::*;

use crate::components::{Millis, Vector2};

verus! {

/// Intent to walk in a direction.
#[derive(Clone, Copy, Debug, PartialEq, Eq, Structural)]
pub struct PlayerWalkAction {
    pub direction: Vector2,
}

/// Intent to face a direction.
#[derive(Clone, Copy, Debug, PartialEq, Eq, Structural)]
pub struct PlayerLookAction {
    pub direction: Vector2,
}

/// Intent to cast a spell from one point towards another.
#[derive(Clone, Copy, Debug, PartialEq, Eq, Structural)]
pub struct PlayerCastAction {
    pub cast_position: Vector2,
    pub target_position: Vector2,
}

/// One input intent of a player.
#[derive(Clone, Copy, Debug, PartialEq, Eq, Structural)]
pub enum PlayerAction {
    Walk(PlayerWalkAction),
    Look(PlayerLookAction),
    Cast(PlayerCastAction),
}

/// A cast at `now` is accepted after the last accepted one at `last`.
pub open spec fn cast_allowed(last: Option<Millis>, now: Millis, cooldown: Millis) -> bool {
    match last {
        None => true,
        Some(t) => now - t >= cooldown,
    }
}

/// Everything buffered for one tick, by category, each in arrival order.
pub struct DrainedActions {
    pub walk_actions: Vec<PlayerWalkAction>,
    pub look_actions: Vec<PlayerLookAction>,
    pub cast_actions: Vec<PlayerCastAction>,
}

/// Pending input of one player, and the time of its last accepted cast
/// (`None` while no cast was ever accepted).
pub struct PlayerActions {
    pub walk_actions: Vec<PlayerWalkAction>,
    pub look_actions: Vec<PlayerLookAction>,
    pub cast_actions: Vec<PlayerCastAction>,
    pub last_spell_cast: Option<Millis>,
}

impl PlayerActions {
    pub fn new() -> (r: Self)
        ensures
            r.walk_actions@.len() == 0,
            r.look_actions@.len() == 0,
            r.cast_actions@.len() == 0,
            r.last_spell_cast is None,
    {
        PlayerActions {
            walk_actions: Vec::new(),
            look_actions: Vec::new(),
            cast_actions: Vec::new(),
            last_spell_cast: None,
        }
    }

    /// Buffers `action` issued at `now`. Walk and look actions are always
    /// kept; a cast is kept only once `cooldown` has passed since the last
    /// accepted cast, and is otherwise dropped. Returns whether it was kept.
    pub fn push(&mut self, action: PlayerAction, now: Millis, cooldown: Millis) -> (accepted: bool)
        ensures
            accepted == match action {
                PlayerAction::Cast(_) => cast_allowed(old(self).last_spell_cast, now, cooldown),
                _ => true,
            },
            final(self).walk_actions@ == match action {
                PlayerAction::Walk(a) => old(self).walk_actions@.push(a),
                _ => old(self).walk_actions@,
            },
            final(self).look_actions@ == match action {
                PlayerAction::Look(a) => old(self).look_actions@.push(a),
                _ => old(self).look_actions@,
            },
            final(self).cast_actions@ == match action {
                PlayerAction::Cast(a) => if accepted {
                    old(self).cast_actions@.push(a)
                } else {
                    old(self).cast_actions@
                },
                _ => old(self).cast_actions@,
            },
            final(self).last_spell_cast == if action is Cast && accepted {
                Some(now)
            } else {
                old(self).last_spell_cast
            },
    {
        match action {
            PlayerAction::Walk(a) => {
                self.walk_actions.push(a);
                true
            },
            PlayerAction::Look(a) => {
                self.look_actions.push(a);
                true
            },
            PlayerAction::Cast(a) => {
                let allowed = match self.last_spell_cast {
                    None => true,
                    Some(t) => now >= t && now - t >= cooldown,
                };
                if allowed {
                    self.cast_actions.push(a);
                    self.last_spell_cast = Some(now);
                }
                allowed
            },
        }
    }

    /// Hands out everything buffered and empties the buffer; the cast
    /// cooldown is kept.
    pub fn drain(&mut self) -> (r: DrainedActions)
        ensures
            r.walk_actions@ == old(self).walk_actions@,
            r.look_actions@ == old(self).look_actions@,
            r.cast_actions@ == old(self).cast_actions@,
            final(self).walk_actions@.len() == 0,
            final(self).look_actions@.len() == 0,
            final(self).cast_actions@.len() == 0,
            final(self).last_spell_cast == old(self).last_spell_cast,
    {
        let mut walk_actions: Vec<PlayerWalkAction> = Vec::new();
        let mut look_actions: Vec<PlayerLookAction> = Vec::new();
        let mut cast_actions: Vec<PlayerCastAction> = Vec::new();
        std::mem::swap(&mut walk_actions, &mut self.walk_actions);
        std::mem::swap(&mut look_actions, &mut self.look_actions);
        std::mem::swap(&mut cast_actions, &mut self.cast_actions);
        DrainedActions { walk_actions, look_actions, cast_actions }
    }
}

impl Default for PlayerActions {
    fn default() -> (r: Self)
        ensures
            r.walk_actions@.len() == 0,
            r.look_actions@.len() == 0,
            r.cast_actions@.len() == 0,
            r.last_spell_cast is None,
    {
        Self::new()
    }
}

/// A cast issued less than `cooldown` after the last accepted cast (at
/// `first`) is dropped.
pub proof fn lemma_cast_within_cooldown_dropped(first: Millis, second: Millis, cooldown: Millis)
    requires
        second - first < cooldown,
    ensures
        !cast_allowed(Some(first), second, cooldown),
{
}

} // verus!
