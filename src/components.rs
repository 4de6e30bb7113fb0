//! Plain data carried by networked entities.

use std::collections::HashSet;
use vstd::prelude::*;

verus! {

broadcast use vstd::std_specs::hash::group_hash_axioms;

/// Handle of an entity in one process's local world.
pub type LocalEntity = u64;

/// Process-wide identifier of a networked entity.
pub type EntityNetIdentifier = u64;

/// Identifier of a live connection.
pub type ConnectionIdentifier = u64;

/// A point in time, in milliseconds of the simulation clock.
pub type Millis = u64;

/// Position of a connection's reader in its inbound event stream.
pub type EventCursor = u64;

/// A vector in world units (fixed point, integral).
#[derive(Clone, Copy, Debug, PartialEq, Eq, Structural)]
pub struct Vector2 {
    pub x: i32,
    pub y: i32,
}

impl Vector2 {
    pub fn new(x: i32, y: i32) -> (r: Vector2)
        ensures
            r.x == x,
            r.y == y,
    {
        Vector2 { x, y }
    }

    pub fn zero() -> (r: Vector2)
        ensures
            r.x == 0,
            r.y == 0,
    {
        Vector2 { x: 0, y: 0 }
    }
}

/// Squared euclidean distance between two points.
pub open spec fn dist2(a: Vector2, b: Vector2) -> int {
    (a.x - b.x) * (a.x - b.x) + (a.y - b.y) * (a.y - b.y)
}

/// Squared euclidean distance, computed without overflow.
pub fn distance_squared(a: Vector2, b: Vector2) -> (r: u128)
    ensures
        r as int == dist2(a, b),
{
    let dx: i64 = a.x as i64 - b.x as i64;
    let dy: i64 = a.y as i64 - b.y as i64;
    assert(0 <= dx * dx < 0x1_0000_0000_0000_0000) by (nonlinear_arith)
        requires -0x1_0000_0000 < dx < 0x1_0000_0000;
    assert(0 <= dy * dy < 0x1_0000_0000_0000_0000) by (nonlinear_arith)
        requires -0x1_0000_0000 < dy < 0x1_0000_0000;
    let sx: u128 = (dx as i128 * dx as i128) as u128;
    let sy: u128 = (dy as i128 * dy as i128) as u128;
    sx + sy
}

/// Where an entity stands in the world.
#[derive(Clone, Copy, Debug, PartialEq, Eq, Structural)]
pub struct WorldPosition {
    pub position: Vector2,
}

impl WorldPosition {
    pub fn new(position: Vector2) -> (r: Self)
        ensures
            r.position == position,
    {
        Self { position }
    }
}

/// A player-controlled hero.
#[derive(Clone, Copy, Debug, PartialEq, Eq, Structural)]
pub struct Player {
    pub health: u32,
    pub velocity: Vector2,
    pub walking_direction: Vector2,
    pub looking_direction: Vector2,
    pub radius: u32,
}

/// Health of a freshly created player.
pub const PLAYER_HEALTH: u32 = 100;

/// Collision radius of a player.
pub const PLAYER_RADIUS: u32 = 20;

impl Player {
    /// A fresh player: full health, standing still, facing up.
    pub open spec fn fresh() -> Player {
        Player {
            health: PLAYER_HEALTH,
            velocity: Vector2 { x: 0, y: 0 },
            walking_direction: Vector2 { x: 0, y: 1 },
            looking_direction: Vector2 { x: 0, y: 1 },
            radius: PLAYER_RADIUS,
        }
    }

    pub fn new() -> (r: Self)
        ensures
            r == Player::fresh(),
    {
        Self {
            health: PLAYER_HEALTH,
            velocity: Vector2::zero(),
            walking_direction: Vector2::new(0, 1),
            looking_direction: Vector2::new(0, 1),
            radius: PLAYER_RADIUS,
        }
    }
}

impl Default for Player {
    fn default() -> (r: Self)
        ensures
            r == Player::fresh(),
    {
        Self::new()
    }
}

/// What a monster is currently doing.
#[derive(Clone, Copy, Debug, PartialEq, Eq, Structural)]
pub enum MobAction {
    Idle,
    Chasing(EntityNetIdentifier),
    Attacking(EntityNetIdentifier),
}

/// A hostile entity.
#[derive(Debug)]
pub struct Monster {
    pub health: u32,
    pub attack_damage: u32,
    pub destination: Vector2,
    pub velocity: Vector2,
    pub action: MobAction,
    pub name: String,
    pub radius: u32,
}

/// Marks an entity as eliminated; its presence alone is meaningful.
#[derive(Clone, Copy, Debug, PartialEq, Eq, Structural)]
pub struct Dead;

/// The entities that carry the `Dead` mark: eliminated this tick or earlier,
/// not yet removed from the world. Most entities are never marked, so only
/// the marked ones are stored.
pub struct DeadMarks {
    marked: HashSet<LocalEntity>,
}

impl View for DeadMarks {
    type V = Set<LocalEntity>;

    closed spec fn view(&self) -> Set<LocalEntity> {
        self.marked@
    }
}

impl DeadMarks {
    pub fn new() -> (r: Self)
        ensures
            r@ == Set::<LocalEntity>::empty(),
    {
        DeadMarks { marked: HashSet::new() }
    }

    /// Marks `e`; returns whether it was unmarked before.
    pub fn mark(&mut self, e: LocalEntity) -> (newly: bool)
        ensures
            final(self)@ == old(self)@.insert(e),
            newly == !old(self)@.contains(e),
    {
        self.marked.insert(e)
    }

    pub fn is_dead(&self, e: LocalEntity) -> (r: bool)
        ensures
            r == self@.contains(e),
    {
        self.marked.contains(&e)
    }

    /// Drops the mark of `e` once the entity is removed from the world.
    pub fn clear(&mut self, e: LocalEntity) -> (was_marked: bool)
        ensures
            final(self)@ == old(self)@.remove(e),
            was_marked == old(self)@.contains(e),
    {
        self.marked.remove(&e)
    }
}

/// Stage of a connection that is still live.
#[derive(Clone, Copy, Debug, PartialEq, Eq, Structural)]
pub enum ConnectionPhase {
    Connecting,
    Established,
}

/// Liveness record of one connection.
#[derive(Clone, Copy, Debug, PartialEq, Eq, Structural)]
pub struct NetConnectionModel {
    pub id: ConnectionIdentifier,
    pub reader: EventCursor,
    pub created_at: Millis,
    pub last_pinged_at: Millis,
    pub phase: ConnectionPhase,
}

impl NetConnectionModel {
    /// A record for a connection accepted at `now`.
    pub fn new(id: ConnectionIdentifier, reader: EventCursor, now: Millis) -> (r: Self)
        ensures
            r.id == id,
            r.reader == reader,
            r.created_at == now,
            r.last_pinged_at == now,
            r.phase == ConnectionPhase::Connecting,
    {
        Self { id, reader, created_at: now, last_pinged_at: now, phase: ConnectionPhase::Connecting }
    }
}

/// Network metadata attached to every networked entity.
#[derive(Clone, Copy, Debug, PartialEq, Eq, Structural)]
pub struct EntityNetMetadata {
    pub id: EntityNetIdentifier,
    pub spawned_frame_number: u64,
}

} // verus!
