//! Payloads exchanged between the server and its clients.

use vstd::prelude::*;

use crate::components::{ConnectionIdentifier, EntityNetIdentifier, Vector2};

verus! {

/// What the server sends.
pub enum ServerMessagePayload {
    /// A networked entity came to exist (sent reliably).
    EntityCreated { id: EntityNetIdentifier, kind: String, spawn_frame: u64 },
    /// The latest state of an entity as of `frame` (sent unreliably).
    EntityUpdated { id: EntityNetIdentifier, position: Vector2, velocity: Vector2, frame: u64 },
    /// A networked entity is gone (sent reliably).
    EntityDestroyed { id: EntityNetIdentifier },
    /// The game starts with these player entities (sent reliably).
    StartGame(Vec<EntityNetIdentifier>),
    Ping,
    Pong,
}

/// The content of a payload, as mathematical values.
pub enum PayloadView {
    EntityCreated { id: EntityNetIdentifier, kind: Seq<char>, spawn_frame: u64 },
    EntityUpdated { id: EntityNetIdentifier, position: Vector2, velocity: Vector2, frame: u64 },
    EntityDestroyed { id: EntityNetIdentifier },
    StartGame(Seq<EntityNetIdentifier>),
    Ping,
    Pong,
}

impl PayloadView {
    /// Creation, destruction and the start of a game must arrive, in order;
    /// state updates and liveness probes may be lost.
    pub open spec fn reliable(self) -> bool {
        match self {
            PayloadView::EntityUpdated { .. } | PayloadView::Ping | PayloadView::Pong => false,
            _ => true,
        }
    }
}

impl View for ServerMessagePayload {
    type V = PayloadView;

    open spec fn view(&self) -> PayloadView {
        match self {
            ServerMessagePayload::EntityCreated { id, kind, spawn_frame } => PayloadView::EntityCreated {
                id: *id,
                kind: kind@,
                spawn_frame: *spawn_frame,
            },
            ServerMessagePayload::EntityUpdated { id, position, velocity, frame } => PayloadView::EntityUpdated {
                id: *id,
                position: *position,
                velocity: *velocity,
                frame: *frame,
            },
            ServerMessagePayload::EntityDestroyed { id } => PayloadView::EntityDestroyed { id: *id },
            ServerMessagePayload::StartGame(ids) => PayloadView::StartGame(ids@),
            ServerMessagePayload::Ping => PayloadView::Ping,
            ServerMessagePayload::Pong => PayloadView::Pong,
        }
    }
}

pub(crate) fn copy_ids(ids: &Vec<EntityNetIdentifier>) -> (r: Vec<EntityNetIdentifier>)
    ensures
        r@ == ids@,
{
    let mut r: Vec<EntityNetIdentifier> = Vec::new();
    let mut i: usize = 0;
    while i < ids.len()
        invariant
            0 <= i <= ids@.len(),
            r@ == ids@.take(i as int),
        decreases ids@.len() - i,
    {
        r.push(ids[i]);
        i = i + 1;
        proof { assert(r@ =~= ids@.take(i as int)); }
    }
    proof { assert(ids@.take(ids@.len() as int) =~= ids@); }
    r
}

impl ServerMessagePayload {
    /// Whether the payload travels on the reliable, ordered channel.
    pub fn is_reliable(&self) -> (r: bool)
        ensures
            r == self@.reliable(),
    {
        match self {
            ServerMessagePayload::EntityUpdated { .. } => false,
            ServerMessagePayload::Ping => false,
            ServerMessagePayload::Pong => false,
            _ => true,
        }
    }

    /// An equal payload.
    pub fn copy(&self) -> (r: Self)
        ensures
            r@ == self@,
    {
        match self {
            ServerMessagePayload::EntityCreated { id, kind, spawn_frame } => ServerMessagePayload::EntityCreated {
                id: *id,
                kind: kind.clone(),
                spawn_frame: *spawn_frame,
            },
            ServerMessagePayload::EntityUpdated { id, position, velocity, frame } => ServerMessagePayload::EntityUpdated {
                id: *id,
                position: *position,
                velocity: *velocity,
                frame: *frame,
            },
            ServerMessagePayload::EntityDestroyed { id } => ServerMessagePayload::EntityDestroyed { id: *id },
            ServerMessagePayload::StartGame(ids) => ServerMessagePayload::StartGame(copy_ids(ids)),
            ServerMessagePayload::Ping => ServerMessagePayload::Ping,
            ServerMessagePayload::Pong => ServerMessagePayload::Pong,
        }
    }
}

/// A payload addressed to one connection, with its delivery class.
pub struct Outbound {
    pub to: ConnectionIdentifier,
    pub reliable: bool,
    pub payload: ServerMessagePayload,
}

pub struct OutboundView {
    pub to: ConnectionIdentifier,
    pub reliable: bool,
    pub payload: PayloadView,
}

impl View for Outbound {
    type V = OutboundView;

    open spec fn view(&self) -> OutboundView {
        OutboundView { to: self.to, reliable: self.reliable, payload: self.payload@ }
    }
}

} // verus!
