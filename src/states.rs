//! The game's top-level states: the menu and a running level.

use vstd::prelude::*;

use crate::components::{ConnectionIdentifier, EntityNetIdentifier};
use crate::net_identity::NetIdentityRegistry;
use crate::spawn::{Count, SpawnAction, SpawnActions, SpawnType};

verus! {

/// Which top-level state the engine is in.
#[derive(Clone, Copy, Debug, PartialEq, Eq, Structural)]
pub enum GameEngineState {
    Loading,
    Menu,
    Playing,
}

/// Progress of the current level.
#[derive(Clone, Copy, Debug, PartialEq, Eq, Structural)]
pub struct GameLevelState {
    pub is_over: bool,
}

impl Default for GameLevelState {
    fn default() -> (r: Self)
        ensures
            !r.is_over,
    {
        GameLevelState { is_over: false }
    }
}

/// The kind of monster that a level spawns.
pub open spec fn ghoul() -> Seq<char> {
    seq!['G', 'h', 'o', 'u', 'l']
}

/// The state shown between levels.
pub struct MenuState;

impl MenuState {
    /// Enters the menu. When the level just played is over, it is reset, the
    /// identifiers of its entities are forgotten, and the result says that
    /// the world's players, monsters, missiles and cameras must be deleted.
    pub fn on_start(
        &mut self,
        engine: &mut GameEngineState,
        level: &mut GameLevelState,
        identities: &mut NetIdentityRegistry,
    ) -> (clear_world: bool)
        requires
            old(identities).well_formed(),
        ensures
            *final(engine) == GameEngineState::Menu,
            clear_world == old(level).is_over,
            !final(level).is_over,
            final(identities).well_formed(),
            final(identities)@.next == old(identities)@.next,
            clear_world ==> final(identities)@.bindings.is_empty(),
            !clear_world ==> final(identities)@ == old(identities)@,
    {
        *engine = GameEngineState::Menu;
        if level.is_over {
            level.is_over = false;
            identities.forget_all();
            true
        } else {
            false
        }
    }
}

/// The state of a running level.
#[derive(Default)]
pub struct PlayingState;

impl PlayingState {
    /// Starts a level: a fresh level state, and a worklist of one ghoul at
    /// the border followed by five at random places.
    pub fn on_start(
        &mut self,
        engine: &mut GameEngineState,
        level: &mut GameLevelState,
        spawn_actions: &mut SpawnActions,
    )
        ensures
            *final(engine) == GameEngineState::Playing,
            !final(level).is_over,
            final(spawn_actions).0@.len() == 2,
            final(spawn_actions).0@[0].monsters.entity@ == ghoul(),
            final(spawn_actions).0@[0].monsters.num == 1,
            final(spawn_actions).0@[0].spawn_type == SpawnType::Borderline,
            final(spawn_actions).0@[1].monsters.entity@ == ghoul(),
            final(spawn_actions).0@[1].monsters.num == 5,
            final(spawn_actions).0@[1].spawn_type == SpawnType::Random,
    {
        *engine = GameEngineState::Playing;
        *level = GameLevelState::default();
        let mut actions: Vec<SpawnAction> = Vec::new();
        proof { reveal_strlit("Ghoul"); }
        actions.push(SpawnAction {
            monsters: Count { entity: "Ghoul".to_string(), num: 1 },
            spawn_type: SpawnType::Borderline,
        });
        actions.push(SpawnAction {
            monsters: Count { entity: "Ghoul".to_string(), num: 5 },
            spawn_type: SpawnType::Random,
        });
        assert(ghoul() =~= "Ghoul"@);
        *spawn_actions = SpawnActions(actions);
    }
}

/// The player entity controlled by connection `own` among the announced
/// `(connection, entity)` pairs: that of the last pair of that connection.
pub fn main_player_of(
    players: &Vec<(ConnectionIdentifier, EntityNetIdentifier)>,
    own: ConnectionIdentifier,
) -> (r: Option<EntityNetIdentifier>)
    ensures
        r matches Some(e) ==> exists|k: int|
            0 <= k < players@.len() && #[trigger] players@[k] == (own, e) && forall|j: int|
                k < j < players@.len() ==> (#[trigger] players@[j]).0 != own,
        r is None ==> forall|k: int| 0 <= k < players@.len() ==> (#[trigger] players@[k]).0 != own,
{
    let mut found: Option<EntityNetIdentifier> = None;
    let ghost mut at: int = 0;
    let mut i: usize = 0;
    while i < players.len()
        invariant
            0 <= i <= players@.len(),
            found matches Some(e) ==> 0 <= at < i && players@[at] == (own, e) && forall|j: int|
                at < j < i ==> (#[trigger] players@[j]).0 != own,
            found is None ==> forall|j: int| 0 <= j < i ==> (#[trigger] players@[j]).0 != own,
        decreases players@.len() - i,
    {
        let (c, e) = players[i];
        if c == own {
            found = Some(e);
            proof { at = i as int; }
        }
        i = i + 1;
    }
    found
}

} // verus!
