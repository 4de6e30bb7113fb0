//! The client side of world synchronization: local mirrors of the server's
//! entities, kept up to date from the messages that arrive.

use std::collections::HashMap;
use vstd::prelude::*;

use crate::components::{EntityNetIdentifier, LocalEntity, Vector2};
use crate::messages::ServerMessagePayload;
use crate::net_identity::NetIdentityRegistry;

verus! {

broadcast use vstd::std_specs::hash::group_hash_axioms;

/// The local copy of one server entity.
pub struct Mirror {
    pub local: LocalEntity,
    /// Kind of a spawned entity; `None` for a player announced at the start
    /// of the game.
    pub kind: Option<String>,
    pub spawn_frame: u64,
    pub position: Vector2,
    pub velocity: Vector2,
    /// Frame of the newest update applied, if any.
    pub last_frame: Option<u64>,
}

/// What a received message did to the local world.
#[derive(Clone, Copy, Debug, PartialEq, Eq, Structural)]
pub enum ClientEffect {
    /// A mirror was created under this local entity.
    Spawned(LocalEntity),
    /// The mirror with this local entity took new state.
    Moved(LocalEntity),
    /// The mirror with this local entity must be deleted.
    Removed(LocalEntity),
    /// The announced players were given mirrors (those not mirrored yet).
    PlayersAdopted,
    /// Nothing changed.
    Ignored,
}

/// Abstract state of a client: mirrors by identifier, and the next local
/// entity handle.
pub struct ClientModel {
    pub mirrors: Map<EntityNetIdentifier, Mirror>,
    pub next_local: nat,
}

/// An update of `frame` is newer than what a mirror last applied.
pub open spec fn newer(last: Option<u64>, frame: u64) -> bool {
    match last {
        None => true,
        Some(f) => frame > f,
    }
}

/// The client state after `id` gets a fresh mirror of `kind`, unless it is
/// mirrored already.
pub open spec fn adopt(m: ClientModel, id: EntityNetIdentifier, kind: Option<String>, spawn_frame: u64) -> ClientModel {
    if m.mirrors.contains_key(id) {
        m
    } else {
        ClientModel {
            mirrors: m.mirrors.insert(
                id,
                Mirror {
                    local: m.next_local as LocalEntity,
                    kind,
                    spawn_frame,
                    position: Vector2 { x: 0, y: 0 },
                    velocity: Vector2 { x: 0, y: 0 },
                    last_frame: None,
                },
            ),
            next_local: m.next_local + 1,
        }
    }
}

/// The client state after adopting each announced player in turn.
pub open spec fn adopt_players(m: ClientModel, ids: Seq<EntityNetIdentifier>) -> ClientModel
    decreases ids.len(),
{
    if ids.len() == 0 {
        m
    } else {
        adopt(adopt_players(m, ids.drop_last()), ids.last(), None, 0)
    }
}

/// The client state after receiving `p`.
pub open spec fn receive(m: ClientModel, p: ServerMessagePayload) -> ClientModel {
    match p {
        ServerMessagePayload::EntityCreated { id, kind, spawn_frame } => adopt(m, id, Some(kind), spawn_frame),
        ServerMessagePayload::StartGame(ids) => adopt_players(m, ids@),
        ServerMessagePayload::EntityUpdated { id, position, velocity, frame } => if m.mirrors.contains_key(id)
            && newer(m.mirrors[id].last_frame, frame) {
            ClientModel {
                mirrors: m.mirrors.insert(
                    id,
                    Mirror { position, velocity, last_frame: Some(frame), ..m.mirrors[id] },
                ),
                next_local: m.next_local,
            }
        } else {
            m
        },
        ServerMessagePayload::EntityDestroyed { id } => ClientModel {
            mirrors: m.mirrors.remove(id),
            next_local: m.next_local,
        },
        _ => m,
    }
}

/// Two state updates, of different entities or of different frames, leave
/// the same mirrors whichever arrives first: the newest frame wins.
pub proof fn lemma_updates_commute(m: ClientModel, a: ServerMessagePayload, b: ServerMessagePayload)
    requires
        a is EntityUpdated,
        b is EntityUpdated,
        a->EntityUpdated_id != b->EntityUpdated_id || a->EntityUpdated_frame != b->EntityUpdated_frame,
    ensures
        receive(receive(m, a), b) == receive(receive(m, b), a),
{
    let ab = receive(receive(m, a), b);
    let ba = receive(receive(m, b), a);
    assert(ab.mirrors =~= ba.mirrors);
}

/// The client state after receiving `msgs`, first to last.
pub open spec fn replay(m: ClientModel, msgs: Seq<ServerMessagePayload>) -> ClientModel
    decreases msgs.len(),
{
    if msgs.len() == 0 {
        m
    } else {
        replay(receive(m, msgs[0]), msgs.drop_first())
    }
}

/// Receiving `x` then `y` is receiving their concatenation.
pub proof fn lemma_replay_concat(m: ClientModel, x: Seq<ServerMessagePayload>, y: Seq<ServerMessagePayload>)
    ensures
        replay(m, x + y) == replay(replay(m, x), y),
    decreases x.len(),
{
    if x.len() == 0 {
        assert(x + y =~= y);
    } else {
        assert((x + y).drop_first() =~= x.drop_first() + y);
        lemma_replay_concat(receive(m, x[0]), x.drop_first(), y);
    }
}

/// Replaying a message stream gives the same mirrors when two neighbouring
/// state updates arrive swapped, provided they concern different entities or
/// different frames: reordering of updates does not change the outcome.
pub proof fn lemma_replay_update_swap(
    m: ClientModel,
    pre: Seq<ServerMessagePayload>,
    a: ServerMessagePayload,
    b: ServerMessagePayload,
    post: Seq<ServerMessagePayload>,
)
    requires
        a is EntityUpdated,
        b is EntityUpdated,
        a->EntityUpdated_id != b->EntityUpdated_id || a->EntityUpdated_frame != b->EntityUpdated_frame,
    ensures
        replay(m, pre + seq![a, b] + post) == replay(m, pre + seq![b, a] + post),
{
    lemma_replay_concat(m, pre + seq![a, b], post);
    lemma_replay_concat(m, pre + seq![b, a], post);
    lemma_replay_concat(m, pre, seq![a, b]);
    lemma_replay_concat(m, pre, seq![b, a]);
    let base = replay(m, pre);
    assert(seq![a, b].drop_first() =~= seq![b]);
    assert(seq![b, a].drop_first() =~= seq![a]);
    assert(seq![b].drop_first() =~= Seq::<ServerMessagePayload>::empty());
    assert(seq![a].drop_first() =~= Seq::<ServerMessagePayload>::empty());
    let e = Seq::<ServerMessagePayload>::empty();
    assert(replay(base, seq![a, b]) == replay(receive(base, a), seq![b]));
    assert(replay(receive(base, a), seq![b]) == replay(receive(receive(base, a), b), e));
    assert(replay(base, seq![b, a]) == replay(receive(base, b), seq![a]));
    assert(replay(receive(base, b), seq![a]) == replay(receive(receive(base, b), a), e));
    lemma_updates_commute(base, a, b);
}

/// Adopting players keeps every mirror, and adds none but theirs.
proof fn lemma_adopt_players_keys(m: ClientModel, ids: Seq<EntityNetIdentifier>, id: EntityNetIdentifier)
    ensures
        m.mirrors.contains_key(id) ==> adopt_players(m, ids).mirrors.contains_key(id),
        !m.mirrors.contains_key(id) && !ids.contains(id) ==> !adopt_players(m, ids).mirrors.contains_key(id),
    decreases ids.len(),
{
    if ids.len() > 0 {
        lemma_adopt_players_keys(m, ids.drop_last(), id);
        if !ids.contains(id) {
            assert(ids.last() == ids[ids.len() - 1]);
            assert forall|k: int| 0 <= k < ids.drop_last().len() implies ids.drop_last()[k] != id by {
                assert(ids[k] == ids.drop_last()[k]);
            }
        }
    }
}

/// An entity that is not mirrored stays absent until a creation of it (or
/// an announcement of it as a player) arrives: late updates of a destroyed
/// entity do not bring it back.
pub proof fn lemma_absent_until_created(
    m: ClientModel,
    msgs: Seq<ServerMessagePayload>,
    id: EntityNetIdentifier,
)
    requires
        !m.mirrors.contains_key(id),
        forall|k: int|
            0 <= k < msgs.len() ==> !(#[trigger] msgs[k] is EntityCreated && msgs[k]->EntityCreated_id == id),
        forall|k: int|
            0 <= k < msgs.len() ==> !(#[trigger] msgs[k] is StartGame && msgs[k]->StartGame_0@.contains(id)),
    ensures
        !replay(m, msgs).mirrors.contains_key(id),
    decreases msgs.len(),
{
    if msgs.len() > 0 {
        assert(!(msgs[0] is EntityCreated && msgs[0]->EntityCreated_id == id));
        assert(!(msgs[0] is StartGame && msgs[0]->StartGame_0@.contains(id)));
        if let ServerMessagePayload::StartGame(ids) = msgs[0] {
            lemma_adopt_players_keys(m, ids@, id);
        }
        assert(forall|k: int| 0 <= k < msgs.drop_first().len() ==> msgs.drop_first()[k] == msgs[k + 1]);
        lemma_absent_until_created(receive(m, msgs[0]), msgs.drop_first(), id);
    }
}

/// A mirrored entity stays mirrored until its destruction arrives.
pub proof fn lemma_present_until_destroyed(
    m: ClientModel,
    msgs: Seq<ServerMessagePayload>,
    id: EntityNetIdentifier,
)
    requires
        m.mirrors.contains_key(id),
        forall|k: int|
            0 <= k < msgs.len() ==> !(#[trigger] msgs[k] is EntityDestroyed && msgs[k]->EntityDestroyed_id == id),
    ensures
        replay(m, msgs).mirrors.contains_key(id),
    decreases msgs.len(),
{
    if msgs.len() > 0 {
        assert(!(msgs[0] is EntityDestroyed && msgs[0]->EntityDestroyed_id == id));
        if let ServerMessagePayload::StartGame(ids) = msgs[0] {
            lemma_adopt_players_keys(m, ids@, id);
        }
        lemma_present_until_destroyed(receive(m, msgs[0]), msgs.drop_first(), id);
    }
}

/// An update never removes a mirror: a newer one sets its state, an older or
/// equally old one leaves it as it was.
pub proof fn lemma_update_keeps_newest(m: ClientModel, p: ServerMessagePayload, id: EntityNetIdentifier)
    requires
        m.mirrors.contains_key(id),
        p is EntityUpdated,
    ensures
        receive(m, p).mirrors.contains_key(id),
        p->EntityUpdated_id == id && newer(m.mirrors[id].last_frame, p->EntityUpdated_frame) ==> {
            &&& receive(m, p).mirrors[id].position == p->EntityUpdated_position
            &&& receive(m, p).mirrors[id].last_frame == Some(p->EntityUpdated_frame)
        },
        p->EntityUpdated_id == id && !newer(m.mirrors[id].last_frame, p->EntityUpdated_frame) ==> receive(
            m,
            p,
        ).mirrors[id] == m.mirrors[id],
{
}

/// Client-side synchronization state.
pub struct ClientSync {
    identities: NetIdentityRegistry,
    mirrors: HashMap<EntityNetIdentifier, Mirror>,
    next_local: LocalEntity,
}

impl View for ClientSync {
    type V = ClientModel;

    closed spec fn view(&self) -> ClientModel {
        ClientModel { mirrors: self.mirrors@, next_local: self.next_local as nat }
    }
}

impl ClientSync {
    /// Each mirror is known to the identity registry under its identifier,
    /// with a local handle below the next one to hand out.
    pub closed spec fn well_formed(&self) -> bool {
        &&& self.identities.well_formed()
        &&& forall|id: EntityNetIdentifier| #[trigger]
            self.identities@.bindings.contains_key(id) ==> self.mirrors@.contains_key(id)
        &&& forall|id: EntityNetIdentifier| #[trigger]
            self.mirrors@.contains_key(id) ==> self.identities@.resolve(id) == Some(
                self.mirrors@[id].local,
            ) && self.mirrors@[id].local < self.next_local
    }

    pub fn new() -> (r: Self)
        ensures
            r.well_formed(),
            r@.mirrors.is_empty(),
            r@.next_local == 0,
    {
        let r = ClientSync { identities: NetIdentityRegistry::new(), mirrors: HashMap::new(), next_local: 0 };
        assert(r.mirrors@ =~= Map::empty());
        r
    }

    /// Local handles remain to be handed out.
    pub fn can_receive(&self) -> (r: bool)
        ensures
            r == (self@.next_local < u64::MAX),
    {
        self.next_local < u64::MAX
    }

    /// How many local handles remain to be handed out.
    pub fn handles_left(&self) -> (r: u64)
        ensures
            r == u64::MAX - self@.next_local,
    {
        u64::MAX - self.next_local
    }

    /// The local entity that mirrors `id`, if any.
    pub fn resolve(&self, id: EntityNetIdentifier) -> (r: Option<LocalEntity>)
        requires
            self.well_formed(),
        ensures
            r == if self@.mirrors.contains_key(id) {
                Some(self@.mirrors[id].local)
            } else {
                None
            },
    {
        self.identities.resolve(id)
    }

    /// Position of the mirror of `id`, if any.
    pub fn position_of(&self, id: EntityNetIdentifier) -> (r: Option<Vector2>)
        ensures
            r == if self@.mirrors.contains_key(id) {
                Some(self@.mirrors[id].position)
            } else {
                None
            },
    {
        match self.mirrors.get(&id) {
            Some(m) => Some(m.position),
            None => None,
        }
    }

    /// Number of live mirrors.
    pub fn len(&self) -> (r: usize)
        ensures
            r == self@.mirrors.len(),
    {
        self.mirrors.len()
    }

    /// Gives `id` a fresh mirror of `kind` unless it is mirrored already.
    fn adopt(&mut self, id: EntityNetIdentifier, kind: Option<String>, spawn_frame: u64)
        requires
            old(self).well_formed(),
            old(self)@.next_local < u64::MAX,
        ensures
            final(self).well_formed(),
            final(self)@ == adopt(old(self)@, id, kind, spawn_frame),
    {
        if self.mirrors.contains_key(&id) {
            return;
        }
        let local = self.next_local;
        self.identities.set_net_id(local, id);
        self.mirrors.insert(
            id,
            Mirror {
                local,
                kind,
                spawn_frame,
                position: Vector2::zero(),
                velocity: Vector2::zero(),
                last_frame: None,
            },
        );
        self.next_local = local + 1;
    }

    /// Applies one message from the server. A creation binds the server's
    /// identifier to a new local entity, as does the start of the game for
    /// each announced player; an update moves the mirror if it
    /// exists and the update is newer than the last one applied; a
    /// destruction removes the mirror and forgets its identifier.
    pub fn receive(&mut self, payload: ServerMessagePayload) -> (r: ClientEffect)
        requires
            old(self).well_formed(),
            payload is EntityCreated ==> old(self)@.next_local < u64::MAX,
            payload is StartGame ==> old(self)@.next_local + payload->StartGame_0@.len() <= u64::MAX,
        ensures
            final(self).well_formed(),
            final(self)@ == receive(old(self)@, payload),
            r == match payload {
                ServerMessagePayload::EntityCreated { id, .. } => if old(self)@.mirrors.contains_key(id) {
                    ClientEffect::Ignored
                } else {
                    ClientEffect::Spawned(old(self)@.next_local as LocalEntity)
                },
                ServerMessagePayload::EntityUpdated { id, frame, .. } => if old(self)@.mirrors.contains_key(id)
                    && newer(old(self)@.mirrors[id].last_frame, frame) {
                    ClientEffect::Moved(old(self)@.mirrors[id].local)
                } else {
                    ClientEffect::Ignored
                },
                ServerMessagePayload::EntityDestroyed { id } => if old(self)@.mirrors.contains_key(id) {
                    ClientEffect::Removed(old(self)@.mirrors[id].local)
                } else {
                    ClientEffect::Ignored
                },
                ServerMessagePayload::StartGame(_) => ClientEffect::PlayersAdopted,
                _ => ClientEffect::Ignored,
            },
    {
        match payload {
            ServerMessagePayload::EntityCreated { id, kind, spawn_frame } => {
                if self.mirrors.contains_key(&id) {
                    return ClientEffect::Ignored;
                }
                let local = self.next_local;
                self.adopt(id, Some(kind), spawn_frame);
                ClientEffect::Spawned(local)
            },
            ServerMessagePayload::StartGame(ids) => {
                let mut i: usize = 0;
                while i < ids.len()
                    invariant
                        0 <= i <= ids@.len(),
                        self.well_formed(),
                        old(self)@.next_local + ids@.len() <= u64::MAX,
                        self@.next_local <= old(self)@.next_local + i,
                        self@ == adopt_players(old(self)@, ids@.take(i as int)),
                    decreases ids@.len() - i,
                {
                    self.adopt(ids[i], None, 0);
                    i = i + 1;
                    proof { assert(ids@.take(i as int).drop_last() =~= ids@.take(i - 1)); }
                }
                proof { assert(ids@.take(ids@.len() as int) =~= ids@); }
                ClientEffect::PlayersAdopted
            },
            ServerMessagePayload::EntityUpdated { id, position, velocity, frame } => {
                let updated = match self.mirrors.get(&id) {
                    Some(m) => {
                        let is_newer = match m.last_frame {
                            None => true,
                            Some(f) => frame > f,
                        };
                        if is_newer {
                            Some(
                                Mirror {
                                    local: m.local,
                                    kind: m.kind.clone(),
                                    spawn_frame: m.spawn_frame,
                                    position,
                                    velocity,
                                    last_frame: Some(frame),
                                },
                            )
                        } else {
                            None
                        }
                    },
                    None => None,
                };
                match updated {
                    Some(m) => {
                        let local = m.local;
                        self.mirrors.insert(id, m);
                        ClientEffect::Moved(local)
                    },
                    None => ClientEffect::Ignored,
                }
            },
            ServerMessagePayload::EntityDestroyed { id } => {
                let removed = self.mirrors.remove(&id);
                match removed {
                    Some(m) => {
                        let _ = self.identities.remove(id);
                        ClientEffect::Removed(m.local)
                    },
                    None => ClientEffect::Ignored,
                }
            },
            _ => ClientEffect::Ignored,
        }
    }
}

} // verus!
