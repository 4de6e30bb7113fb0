//! The authoritative side of world synchronization: it names entities,
//! tracks connections and queues what each connection must be told.

use vstd::prelude::*;

use crate::components::{
    ConnectionIdentifier, ConnectionPhase, EntityNetIdentifier, EventCursor, LocalEntity, Millis,
    NetConnectionModel, Vector2,
};
use crate::connections::{
    expired, has_id, ids, lemma_filter_step, still_alive, ConnectionRegistry,
};
use crate::messages::{copy_ids, Outbound, OutboundView, PayloadView, ServerMessagePayload};
use crate::net_identity::{
    id_space, lemma_binding_persists, lemma_register_resolves, NetIdModel, NetIdentityRegistry,
    RegistryOp,
};
use crate::spawn::SpawnOrder;

verus! {

/// The player entity a connection controls.
#[derive(Clone, Copy, Debug, PartialEq, Eq, Structural)]
pub struct PlayerOwnership {
    pub connection: ConnectionIdentifier,
    pub entity: EntityNetIdentifier,
}

/// What a broadcast of `p` adds to the outbox: one copy per connection.
pub open spec fn broadcast_of(conns: Seq<NetConnectionModel>, p: PayloadView) -> Seq<OutboundView> {
    conns.map_values(|c: NetConnectionModel| OutboundView { to: c.id, reliable: p.reliable(), payload: p })
}

/// The registry after registering each of `locals` in turn.
pub open spec fn register_all(m: NetIdModel, locals: Seq<LocalEntity>) -> NetIdModel
    decreases locals.len(),
{
    if locals.len() == 0 {
        m
    } else {
        register_all(m, locals.drop_last()).register(locals.last())
    }
}

/// The message telling connection `to` that entity `id` is gone.
pub open spec fn destroyed_to(to: ConnectionIdentifier, id: EntityNetIdentifier) -> OutboundView {
    OutboundView { to, reliable: true, payload: PayloadView::EntityDestroyed { id } }
}

/// A player entity released because its connection went away, with the
/// local entity it named, if it was still bound.
#[derive(Clone, Copy, Debug, PartialEq, Eq, Structural)]
pub struct ReleasedPlayer {
    pub connection: ConnectionIdentifier,
    pub entity: EntityNetIdentifier,
    pub local: Option<LocalEntity>,
}

/// The ownerships that the departure of the connections in `gone` ends, in order.
pub open spec fn released(owned: Seq<PlayerOwnership>, gone: Seq<ConnectionIdentifier>) -> Seq<PlayerOwnership> {
    owned.filter(|o: PlayerOwnership| gone.contains(o.connection))
}

/// The registry after forgetting the entity of each of `rel` in turn.
pub open spec fn forget_all(m: NetIdModel, rel: Seq<PlayerOwnership>) -> NetIdModel
    decreases rel.len(),
{
    if rel.len() == 0 {
        m
    } else {
        forget_all(m, rel.drop_last()).remove(rel.last().entity)
    }
}

/// The removal announcements for the entities of `rel`, in order, each sent
/// to every connection of `conns`.
pub open spec fn removal_announcements(
    conns: Seq<NetConnectionModel>,
    rel: Seq<PlayerOwnership>,
) -> Seq<OutboundView>
    decreases rel.len(),
{
    if rel.len() == 0 {
        Seq::empty()
    } else {
        removal_announcements(conns, rel.drop_last()) + broadcast_of(
            conns,
            PayloadView::EntityDestroyed { id: rel.last().entity },
        )
    }
}

/// The creation announcements for `orders`, the `k`-th under identifier
/// `first + k`, each sent to every connection of `conns`.
pub open spec fn creation_announcements(
    conns: Seq<NetConnectionModel>,
    orders: Seq<SpawnOrder>,
    first: nat,
    frame: u64,
) -> Seq<OutboundView>
    decreases orders.len(),
{
    if orders.len() == 0 {
        Seq::empty()
    } else {
        creation_announcements(conns, orders.drop_last(), first, frame) + broadcast_of(
            conns,
            PayloadView::EntityCreated {
                id: (first + orders.len() - 1) as EntityNetIdentifier,
                kind: orders.last().entity@,
                spawn_frame: frame,
            },
        )
    }
}

/// Whether `id` is among `v`.
fn id_listed(v: &Vec<ConnectionIdentifier>, id: ConnectionIdentifier) -> (r: bool)
    ensures
        r == v@.contains(id),
{
    let mut i: usize = 0;
    while i < v.len()
        invariant
            0 <= i <= v@.len(),
            forall|j: int| 0 <= j < i ==> v@[j] != id,
        decreases v@.len() - i,
    {
        if v[i] == id {
            return true;
        }
        i = i + 1;
    }
    false
}

proof fn lemma_contains_after_append<A>(a: Seq<A>, b: Seq<A>, x: A)
    requires
        a.contains(x),
    ensures
        (a + b).contains(x),
{
    let k = choose|k: int| 0 <= k < a.len() && a[k] == x;
    assert((a + b)[k] == x);
}

/// Registering players one after another keeps the registry well formed;
/// each player whose entity is not registered again later resolves from the
/// identifier it was given, and from no other; and bindings of entities that
/// are not among the players are kept.
pub proof fn lemma_register_all(m: NetIdModel, locals: Seq<LocalEntity>)
    requires
        m.wf(),
        m.next + locals.len() <= id_space(),
    ensures
        register_all(m, locals).wf(),
        register_all(m, locals).next == m.next + locals.len(),
        forall|k: int|
            0 <= k < locals.len() && (forall|j: int| k < j < locals.len() ==> locals[j] != locals[k])
                ==> #[trigger] register_all(m, locals).resolve((m.next + k) as EntityNetIdentifier)
                == Some(locals[k]),
        forall|k: int, other: EntityNetIdentifier|
            0 <= k < locals.len() && (forall|j: int| k < j < locals.len() ==> locals[j] != locals[k])
                && other != m.next + k ==> #[trigger] register_all(m, locals).resolve(other) != Some(
                #[trigger] locals[k],
            ),
        forall|id: EntityNetIdentifier|
            m.resolve(id) is Some && !locals.contains(m.resolve(id)->0) ==> #[trigger] register_all(
                m,
                locals,
            ).resolve(id) == m.resolve(id),
    decreases locals.len(),
{
    if locals.len() > 0 {
        let prev = locals.drop_last();
        let e = locals.last();
        lemma_register_all(m, prev);
        let p = register_all(m, prev);
        lemma_register_resolves(p, e);
        assert forall|k: int|
            0 <= k < locals.len() && (forall|j: int| k < j < locals.len() ==> locals[j] != locals[k])
                implies #[trigger] register_all(m, locals).resolve((m.next + k) as EntityNetIdentifier)
                == Some(locals[k]) by {
            if k < prev.len() {
                assert(locals[locals.len() - 1] != locals[k]);
                assert(prev[k] == locals[k]);
                assert forall|j: int| k < j < prev.len() implies prev[j] != prev[k] by {
                    assert(prev[j] == locals[j]);
                }
                lemma_binding_persists(p, RegistryOp::Register(e), (m.next + k) as EntityNetIdentifier, locals[k]);
            }
        }
        assert forall|k: int, other: EntityNetIdentifier|
            0 <= k < locals.len() && (forall|j: int| k < j < locals.len() ==> locals[j] != locals[k])
                && other != m.next + k implies #[trigger] register_all(m, locals).resolve(other) != Some(
                #[trigger] locals[k],
            ) by {
            if k < prev.len() {
                assert(locals[locals.len() - 1] != locals[k]);
                assert(prev[k] == locals[k]);
                assert forall|j: int| k < j < prev.len() implies prev[j] != prev[k] by {
                    assert(prev[j] == locals[j]);
                }
                lemma_binding_persists(p, RegistryOp::Register(e), (m.next + k) as EntityNetIdentifier, locals[k]);
            }
        }
        assert forall|id: EntityNetIdentifier|
            m.resolve(id) is Some && !locals.contains(m.resolve(id)->0) implies #[trigger] register_all(
                m,
                locals,
            ).resolve(id) == m.resolve(id) by {
            let x = m.resolve(id)->0;
            if prev.contains(x) {
                let j = choose|j: int| 0 <= j < prev.len() && prev[j] == x;
                assert(locals[j] == x);
            }
            assert(locals[locals.len() - 1] != x);
            assert(p.resolve(id) == Some(x));
            lemma_binding_persists(p, RegistryOp::Register(e), id, x);
        }
    }
}

/// Server-side synchronization state.
pub struct ServerSync {
    pub identities: NetIdentityRegistry,
    pub connections: ConnectionRegistry,
    pub owners: Vec<PlayerOwnership>,
    pub outbox: Vec<Outbound>,
}

impl ServerSync {
    pub open spec fn well_formed(&self) -> bool {
        self.identities.well_formed() && self.connections.well_formed()
    }

    /// The queued messages, as values.
    pub open spec fn sent(&self) -> Seq<OutboundView> {
        self.outbox@.map_values(|o: Outbound| o@)
    }

    pub fn new() -> (r: Self)
        ensures
            r.well_formed(),
            r.identities@.bindings.is_empty(),
            r.identities@.next == 0,
            r.connections@.len() == 0,
            r.owners@.len() == 0,
            r.sent().len() == 0,
    {
        ServerSync {
            identities: NetIdentityRegistry::new(),
            connections: ConnectionRegistry::new(),
            owners: Vec::new(),
            outbox: Vec::new(),
        }
    }

    /// Queues `payload` for every live connection.
    pub fn broadcast(&mut self, payload: &ServerMessagePayload)
        ensures
            final(self).sent() == old(self).sent() + broadcast_of(old(self).connections@, payload@),
            final(self).identities == old(self).identities,
            final(self).connections == old(self).connections,
            final(self).owners == old(self).owners,
    {
        let reliable = payload.is_reliable();
        let n = self.connections.len();
        let ghost start = self.sent();
        let ghost conns = self.connections@;
        let mut i: usize = 0;
        while i < n
            invariant
                n == conns.len(),
                conns == self.connections@,
                0 <= i <= n,
                reliable == payload@.reliable(),
                self.sent() == start + broadcast_of(conns.take(i as int), payload@),
                self.identities == old(self).identities,
                self.connections == old(self).connections,
                self.owners == old(self).owners,
            decreases n - i,
        {
            let to = self.connections.id_at(i);
            let ghost before = self.sent();
            let item = Outbound { to, reliable, payload: payload.copy() };
            self.outbox.push(item);
            proof {
                assert(self.sent() =~= before.push(item@));
            }
            i = i + 1;
            proof {
                assert(broadcast_of(conns.take(i as int), payload@) =~= broadcast_of(
                    conns.take(i - 1),
                    payload@,
                ).push(OutboundView { to, reliable, payload: payload@ }));
                assert(self.sent() =~= start + broadcast_of(conns.take(i as int), payload@));
            }
        }
        proof { assert(conns.take(n as int) =~= conns); }
    }

    /// Accepts a connection at `now`.
    pub fn on_connect(&mut self, id: ConnectionIdentifier, reader: EventCursor, now: Millis) -> (r: NetConnectionModel)
        requires
            old(self).well_formed(),
            !has_id(old(self).connections@, id),
        ensures
            final(self).well_formed(),
            final(self).connections@ == old(self).connections@.push(r),
            r == (NetConnectionModel {
                id,
                reader,
                created_at: now,
                last_pinged_at: now,
                phase: ConnectionPhase::Connecting,
            }),
            final(self).identities == old(self).identities,
            final(self).owners == old(self).owners,
            final(self).outbox == old(self).outbox,
    {
        self.connections.on_connect(id, reader, now)
    }

    /// Registers a new entity, then announces it to every connection.
    pub fn entity_created(&mut self, local: LocalEntity, kind: String, spawn_frame: u64) -> (id: EntityNetIdentifier)
        requires
            old(self).well_formed(),
            old(self).identities@.can_register(),
        ensures
            final(self).well_formed(),
            id == old(self).identities@.next,
            final(self).identities@ == old(self).identities@.register(local),
            final(self).sent() == old(self).sent() + broadcast_of(
                old(self).connections@,
                PayloadView::EntityCreated { id, kind: kind@, spawn_frame },
            ),
            final(self).connections == old(self).connections,
            final(self).owners == old(self).owners,
    {
        let id = self.identities.register_new_entity(local);
        let payload = ServerMessagePayload::EntityCreated { id, kind, spawn_frame };
        self.broadcast(&payload);
        id
    }

    /// Announces the latest state of entity `id` (lossy channel).
    pub fn entity_updated(&mut self, id: EntityNetIdentifier, position: Vector2, velocity: Vector2, frame: u64)
        requires
            old(self).well_formed(),
        ensures
            final(self).well_formed(),
            final(self).sent() == old(self).sent() + broadcast_of(
                old(self).connections@,
                PayloadView::EntityUpdated { id, position, velocity, frame },
            ),
            final(self).identities == old(self).identities,
            final(self).connections == old(self).connections,
            final(self).owners == old(self).owners,
    {
        let payload = ServerMessagePayload::EntityUpdated { id, position, velocity, frame };
        self.broadcast(&payload);
    }

    /// Forgets entity `id` and announces its removal to every connection;
    /// returns the local entity it named, for deletion.
    pub fn entity_destroyed(&mut self, id: EntityNetIdentifier) -> (r: Option<LocalEntity>)
        requires
            old(self).well_formed(),
        ensures
            final(self).well_formed(),
            r == old(self).identities@.resolve(id),
            final(self).identities@ == old(self).identities@.remove(id),
            final(self).sent() == old(self).sent() + broadcast_of(
                old(self).connections@,
                PayloadView::EntityDestroyed { id },
            ),
            final(self).connections == old(self).connections,
            final(self).owners == old(self).owners,
    {
        let r = self.identities.remove(id);
        let payload = ServerMessagePayload::EntityDestroyed { id };
        self.broadcast(&payload);
        r
    }

    /// Registers one player entity per `(connection, local entity)` pair, in
    /// order, records who controls it, and announces the start of the game
    /// with the new identifiers.
    pub fn start_game(&mut self, players: &Vec<(ConnectionIdentifier, LocalEntity)>) -> (r: Vec<EntityNetIdentifier>)
        requires
            old(self).well_formed(),
            old(self).identities@.next + players@.len() <= id_space(),
        ensures
            final(self).well_formed(),
            r@.len() == players@.len(),
            forall|k: int| 0 <= k < r@.len() ==> #[trigger] r@[k] == old(self).identities@.next + k,
            final(self).identities@ == register_all(
                old(self).identities@,
                players@.map_values(|p: (ConnectionIdentifier, LocalEntity)| p.1),
            ),
            final(self).owners@ == old(self).owners@ + players@.map_values(
                |p: (ConnectionIdentifier, LocalEntity)| p.0,
            ).zip_with(r@).map_values(
                |q: (ConnectionIdentifier, EntityNetIdentifier)| PlayerOwnership { connection: q.0, entity: q.1 },
            ),
            final(self).sent() == old(self).sent() + broadcast_of(
                old(self).connections@,
                PayloadView::StartGame(r@),
            ),
            final(self).connections == old(self).connections,
    {
        let ghost locals = players@.map_values(|p: (ConnectionIdentifier, LocalEntity)| p.1);
        let ghost conns = players@.map_values(|p: (ConnectionIdentifier, LocalEntity)| p.0);
        let mut ids: Vec<EntityNetIdentifier> = Vec::new();
        let mut i: usize = 0;
        while i < players.len()
            invariant
                0 <= i <= players@.len(),
                self.well_formed(),
                locals == players@.map_values(|p: (ConnectionIdentifier, LocalEntity)| p.1),
                conns == players@.map_values(|p: (ConnectionIdentifier, LocalEntity)| p.0),
                old(self).identities@.next + players@.len() <= id_space(),
                self.identities@ == register_all(old(self).identities@, locals.take(i as int)),
                self.identities@.next == old(self).identities@.next + i,
                ids@.len() == i,
                forall|k: int| 0 <= k < i ==> #[trigger] ids@[k] == old(self).identities@.next + k,
                self.owners@ == old(self).owners@ + conns.take(i as int).zip_with(ids@).map_values(
                    |q: (ConnectionIdentifier, EntityNetIdentifier)| PlayerOwnership { connection: q.0, entity: q.1 },
                ),
                self.outbox == old(self).outbox,
                self.connections == old(self).connections,
            decreases players@.len() - i,
        {
            let (connection, local) = players[i];
            let id = self.identities.register_new_entity(local);
            self.owners.push(PlayerOwnership { connection, entity: id });
            ids.push(id);
            i = i + 1;
            proof {
                assert(locals.take(i as int).drop_last() =~= locals.take(i - 1));
                assert(conns.take(i as int).zip_with(ids@) =~= conns.take(i - 1).zip_with(ids@.drop_last()).push((connection, id)));
                assert(ids@.drop_last() =~= ids@.take(i - 1));
                assert(self.owners@ =~= old(self).owners@ + conns.take(i as int).zip_with(ids@).map_values(
                    |q: (ConnectionIdentifier, EntityNetIdentifier)| PlayerOwnership { connection: q.0, entity: q.1 },
                ));
            }
        }
        proof {
            assert(locals.take(players@.len() as int) =~= locals);
            assert(conns.take(players@.len() as int) =~= conns);
        }
        let payload = ServerMessagePayload::StartGame(copy_ids(&ids));
        self.broadcast(&payload);
        ids
    }

    /// Releases the players of the connections in `gone`: each such entity
    /// is forgotten and its removal announced to every live connection.
    fn release_players(&mut self, gone: &Vec<ConnectionIdentifier>) -> (r: Vec<ReleasedPlayer>)
        requires
            old(self).well_formed(),
        ensures
            final(self).well_formed(),
            final(self).identities@ == forget_all(old(self).identities@, released(old(self).owners@, gone@)),
            final(self).sent() == old(self).sent() + removal_announcements(
                old(self).connections@,
                released(old(self).owners@, gone@),
            ),
            r@.len() == released(old(self).owners@, gone@).len(),
            forall|k: int|
                0 <= k < r@.len() ==> {
                    let rel = released(old(self).owners@, gone@);
                    &&& (#[trigger] r@[k]).connection == rel[k].connection
                    &&& r@[k].entity == rel[k].entity
                    &&& r@[k].local == forget_all(old(self).identities@, rel.take(k)).resolve(rel[k].entity)
                },
            final(self).connections == old(self).connections,
            final(self).owners@ == old(self).owners@.filter(
                |o: PlayerOwnership| !gone@.contains(o.connection),
            ),
            old(self).sent().is_prefix_of(final(self).sent()),
            forall|j: int, k: int|
                0 <= j < old(self).owners@.len() && 0 <= k < final(self).connections@.len()
                    && gone@.contains(#[trigger] old(self).owners@[j].connection) ==> final(self).sent().contains(
                    destroyed_to(#[trigger] final(self).connections@[k].id, old(self).owners@[j].entity),
                ),
            forall|j: int|
                0 <= j < old(self).owners@.len() && gone@.contains(#[trigger] old(self).owners@[j].connection)
                    ==> final(self).identities@.resolve(old(self).owners@[j].entity) is None,
    {
        let ghost owned = self.owners@;
        let ghost conns = self.connections@;
        let ghost keep = |o: PlayerOwnership| !gone@.contains(o.connection);
        let ghost start = self.sent();
        let ghost ids0 = self.identities@;
        let ghost drop = |o: PlayerOwnership| gone@.contains(o.connection);
        let n = self.owners.len();
        let mut out: Vec<ReleasedPlayer> = Vec::new();
        let mut kept: Vec<PlayerOwnership> = Vec::new();
        let mut i: usize = 0;
        while i < n
            invariant
                n == owned.len(),
                0 <= i <= n,
                self.well_formed(),
                self.owners@ == owned,
                self.connections@ == conns,
                self.connections == old(self).connections,
                keep == (|o: PlayerOwnership| !gone@.contains(o.connection)),
                kept@ == owned.take(i as int).filter(keep),
                drop == (|o: PlayerOwnership| gone@.contains(o.connection)),
                ids0 == old(self).identities@,
                self.identities@ == forget_all(ids0, owned.take(i as int).filter(drop)),
                self.sent() == start + removal_announcements(conns, owned.take(i as int).filter(drop)),
                out@.len() == owned.take(i as int).filter(drop).len(),
                forall|k: int|
                    0 <= k < out@.len() ==> {
                        let rel = owned.take(i as int).filter(drop);
                        &&& (#[trigger] out@[k]).connection == rel[k].connection
                        &&& out@[k].entity == rel[k].entity
                        &&& out@[k].local == forget_all(ids0, rel.take(k)).resolve(rel[k].entity)
                    },
                start.is_prefix_of(self.sent()),
                forall|j: int, k: int|
                    0 <= j < i && 0 <= k < conns.len() && gone@.contains(#[trigger] owned[j].connection)
                        ==> self.sent().contains(destroyed_to(#[trigger] conns[k].id, owned[j].entity)),
                forall|j: int|
                    0 <= j < i && gone@.contains(#[trigger] owned[j].connection)
                        ==> self.identities@.resolve(owned[j].entity) is None,
            decreases n - i,
        {
            let o = self.owners[i];
            proof {
                lemma_filter_step(owned, keep, i as int);
                lemma_filter_step(owned, drop, i as int);
                assert(keep(o) == !gone@.contains(o.connection));
                assert(drop(o) == gone@.contains(o.connection));
            }
            if id_listed(gone, o.connection) {
                let ghost before = self.sent();
                let ghost rel = owned.take(i as int).filter(drop);
                let ghost out0 = out@;
                let local = self.entity_destroyed(o.entity);
                out.push(ReleasedPlayer { connection: o.connection, entity: o.entity, local });
                proof {
                    let rel2 = rel.push(o);
                    assert(rel2.drop_last() =~= rel);
                    assert(rel2.take(rel.len() as int) =~= rel);
                    assert(before + broadcast_of(conns, PayloadView::EntityDestroyed { id: o.entity })
                        =~= start + removal_announcements(conns, rel2));
                    assert forall|k: int| 0 <= k < out@.len() implies {
                        &&& (#[trigger] out@[k]).connection == rel2[k].connection
                        &&& out@[k].entity == rel2[k].entity
                        &&& out@[k].local == forget_all(ids0, rel2.take(k)).resolve(rel2[k].entity)
                    } by {
                        if k < rel.len() {
                            assert(rel2.take(k) =~= rel.take(k));
                            assert(out@[k] == out0[k]);
                        }
                    }
                    let added = broadcast_of(conns, PayloadView::EntityDestroyed { id: o.entity });
                    assert forall|j: int, k: int|
                        0 <= j <= i && 0 <= k < conns.len() && gone@.contains(#[trigger] owned[j].connection)
                            implies self.sent().contains(destroyed_to(#[trigger] conns[k].id, owned[j].entity)) by {
                        if j < i {
                            lemma_contains_after_append(before, added, destroyed_to(conns[k].id, owned[j].entity));
                        } else {
                            assert(added[k] == destroyed_to(conns[k].id, owned[j].entity));
                            assert(self.sent()[before.len() + k] == added[k]);
                        }
                    }
                    assert(start.is_prefix_of(self.sent())) by {
                        assert forall|m: int| 0 <= m < start.len() implies start[m] == self.sent()[m] by {
                            assert(before[m] == start[m]);
                        }
                    }
                }
            } else {
                kept.push(o);
            }
            i = i + 1;
        }
        proof { assert(owned.take(n as int) =~= owned); }
        self.owners = kept;
        out
    }

    /// Removes the connections silent for longer than `timeout` at `now`,
    /// releases the players they controlled and announces each removal to
    /// every remaining connection; returns the removed connections and the
    /// released players, whose local entities the caller deletes.
    pub fn sweep(&mut self, now: Millis, timeout: Millis) -> (r: (Vec<ConnectionIdentifier>, Vec<ReleasedPlayer>))
        requires
            old(self).well_formed(),
        ensures
            final(self).well_formed(),
            r.0@ == ids(expired(old(self).connections@, now, timeout)),
            final(self).connections@ == still_alive(old(self).connections@, now, timeout),
            final(self).owners@ == old(self).owners@.filter(
                |o: PlayerOwnership| !r.0@.contains(o.connection),
            ),
            final(self).identities@ == forget_all(old(self).identities@, released(old(self).owners@, r.0@)),
            final(self).sent() == old(self).sent() + removal_announcements(
                final(self).connections@,
                released(old(self).owners@, r.0@),
            ),
            r.1@.len() == released(old(self).owners@, r.0@).len(),
            forall|k: int|
                0 <= k < r.1@.len() ==> {
                    let rel = released(old(self).owners@, r.0@);
                    &&& (#[trigger] r.1@[k]).connection == rel[k].connection
                    &&& r.1@[k].entity == rel[k].entity
                    &&& r.1@[k].local == forget_all(old(self).identities@, rel.take(k)).resolve(rel[k].entity)
                },
            forall|j: int, k: int|
                0 <= j < old(self).owners@.len() && 0 <= k < final(self).connections@.len()
                    && r.0@.contains(#[trigger] old(self).owners@[j].connection) ==> final(self).sent().contains(
                    destroyed_to(#[trigger] final(self).connections@[k].id, old(self).owners@[j].entity),
                ),
            forall|j: int|
                0 <= j < old(self).owners@.len() && r.0@.contains(#[trigger] old(self).owners@[j].connection)
                    ==> final(self).identities@.resolve(old(self).owners@[j].entity) is None,
    {
        let gone = self.connections.sweep_timeouts(now, timeout);
        let players = self.release_players(&gone);
        (gone, players)
    }

    /// Handles an explicit close of connection `id`: removes it, releases its
    /// players and announces their removal to every remaining connection.
    pub fn on_close(&mut self, id: ConnectionIdentifier) -> (r: (Option<NetConnectionModel>, Vec<ReleasedPlayer>))
        requires
            old(self).well_formed(),
        ensures
            final(self).well_formed(),
            r.0 matches Some(c) ==> c.id == id && old(self).connections@.contains(c),
            r.0 is None ==> !has_id(old(self).connections@, id),
            final(self).connections@ == old(self).connections@.filter(|c: NetConnectionModel| c.id != id),
            final(self).owners@ == old(self).owners@.filter(|o: PlayerOwnership| o.connection != id),
            final(self).identities@ == forget_all(old(self).identities@, released(old(self).owners@, seq![id])),
            final(self).sent() == old(self).sent() + removal_announcements(
                final(self).connections@,
                released(old(self).owners@, seq![id]),
            ),
            r.1@.len() == released(old(self).owners@, seq![id]).len(),
            forall|k: int|
                0 <= k < r.1@.len() ==> {
                    let rel = released(old(self).owners@, seq![id]);
                    &&& (#[trigger] r.1@[k]).connection == rel[k].connection
                    &&& r.1@[k].entity == rel[k].entity
                    &&& r.1@[k].local == forget_all(old(self).identities@, rel.take(k)).resolve(rel[k].entity)
                },
            forall|j: int, k: int|
                0 <= j < old(self).owners@.len() && 0 <= k < final(self).connections@.len()
                    && #[trigger] old(self).owners@[j].connection == id ==> final(self).sent().contains(
                    destroyed_to(#[trigger] final(self).connections@[k].id, old(self).owners@[j].entity),
                ),
            forall|j: int|
                0 <= j < old(self).owners@.len() && #[trigger] old(self).owners@[j].connection == id
                    ==> final(self).identities@.resolve(old(self).owners@[j].entity) is None,
    {
        let r = self.connections.on_close(id);
        let gone: Vec<ConnectionIdentifier> = vec![id];
        assert(gone@ =~= seq![id]);
        assert(forall|c: ConnectionIdentifier| gone@.contains(c) <==> c == id) by {
            assert(gone@[0] == id);
        }
        let players = self.release_players(&gone);
        assert((|o: PlayerOwnership| !gone@.contains(o.connection)) =~= (|o: PlayerOwnership| o.connection != id));
        (r, players)
    }

    /// Creates the monsters a spawn tick ordered: `locals[k]` is the local
    /// entity made for `orders[k]`. Each is registered, in order, and its
    /// creation announced to every connection.
    pub fn spawn_monsters(
        &mut self,
        orders: &Vec<SpawnOrder>,
        locals: &Vec<LocalEntity>,
        frame: u64,
    ) -> (r: Vec<EntityNetIdentifier>)
        requires
            old(self).well_formed(),
            locals@.len() == orders@.len(),
            old(self).identities@.next + orders@.len() <= id_space(),
        ensures
            final(self).well_formed(),
            r@.len() == orders@.len(),
            forall|k: int| 0 <= k < r@.len() ==> #[trigger] r@[k] == old(self).identities@.next + k,
            final(self).identities@ == register_all(old(self).identities@, locals@),
            final(self).sent() == old(self).sent() + creation_announcements(
                old(self).connections@,
                orders@,
                old(self).identities@.next,
                frame,
            ),
            forall|k: int, j: int|
                0 <= k < orders@.len() && 0 <= j < old(self).connections@.len() ==> final(self).sent().contains(
                    OutboundView {
                        to: (#[trigger] old(self).connections@[j]).id,
                        reliable: true,
                        payload: PayloadView::EntityCreated {
                            id: r@[k],
                            kind: (#[trigger] orders@[k]).entity@,
                            spawn_frame: frame,
                        },
                    },
                ),
            final(self).connections == old(self).connections,
            final(self).owners == old(self).owners,
    {
        let ghost conns = self.connections@;
        let ghost start = self.sent();
        let mut ids: Vec<EntityNetIdentifier> = Vec::new();
        let mut i: usize = 0;
        while i < orders.len()
            invariant
                0 <= i <= orders@.len(),
                locals@.len() == orders@.len(),
                self.well_formed(),
                old(self).identities@.next + orders@.len() <= id_space(),
                self.identities@ == register_all(old(self).identities@, locals@.take(i as int)),
                self.identities@.next == old(self).identities@.next + i,
                ids@.len() == i,
                forall|k: int| 0 <= k < i ==> #[trigger] ids@[k] == old(self).identities@.next + k,
                self.connections == old(self).connections,
                self.connections@ == conns,
                self.owners == old(self).owners,
                start == old(self).sent(),
                self.sent() == start + creation_announcements(
                    conns,
                    orders@.take(i as int),
                    old(self).identities@.next,
                    frame,
                ),
                start.is_prefix_of(self.sent()),
                forall|k: int, j: int|
                    0 <= k < i && 0 <= j < conns.len() ==> self.sent().contains(
                        OutboundView {
                            to: (#[trigger] conns[j]).id,
                            reliable: true,
                            payload: PayloadView::EntityCreated {
                                id: ids@[k],
                                kind: (#[trigger] orders@[k]).entity@,
                                spawn_frame: frame,
                            },
                        },
                    ),
            decreases orders@.len() - i,
        {
            let ghost before = self.sent();
            let kind = orders[i].entity.clone();
            let id = self.entity_created(locals[i], kind, frame);
            ids.push(id);
            i = i + 1;
            proof {
                assert(locals@.take(i as int).drop_last() =~= locals@.take(i - 1));
                let p = PayloadView::EntityCreated { id, kind: orders@[i - 1].entity@, spawn_frame: frame };
                assert(orders@.take(i as int).drop_last() =~= orders@.take(i - 1));
                assert(before + broadcast_of(conns, p) =~= start + creation_announcements(
                    conns,
                    orders@.take(i as int),
                    old(self).identities@.next,
                    frame,
                ));
                let added = broadcast_of(conns, p);
                assert forall|k: int, j: int|
                    0 <= k < i && 0 <= j < conns.len() implies self.sent().contains(
                        OutboundView {
                            to: (#[trigger] conns[j]).id,
                            reliable: true,
                            payload: PayloadView::EntityCreated {
                                id: ids@[k],
                                kind: (#[trigger] orders@[k]).entity@,
                                spawn_frame: frame,
                            },
                        },
                    ) by {
                    if k < i - 1 {
                        lemma_contains_after_append(
                            before,
                            added,
                            OutboundView {
                                to: conns[j].id,
                                reliable: true,
                                payload: PayloadView::EntityCreated {
                                    id: ids@[k],
                                    kind: orders@[k].entity@,
                                    spawn_frame: frame,
                                },
                            },
                        );
                    } else {
                        assert(self.sent()[before.len() + j] == added[j]);
                    }
                }
                assert forall|m: int| 0 <= m < start.len() implies start[m] == self.sent()[m] by {
                    assert(before[m] == start[m]);
                }
            }
        }
        proof {
            assert(locals@.take(orders@.len() as int) =~= locals@);
            assert(orders@.take(orders@.len() as int) =~= orders@);
        }
        ids
    }
}

} // verus!
