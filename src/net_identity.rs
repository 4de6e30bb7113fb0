//! Allocation and resolution of network-wide entity identifiers.

use std::collections::HashMap;
use vstd::prelude::*;

use crate::components::{EntityNetIdentifier, LocalEntity};

verus! {

broadcast use vstd::std_specs::hash::group_hash_axioms;

/// One more than the largest identifier.
pub open spec fn id_space() -> nat {
    0x1_0000_0000_0000_0000
}

/// Abstract state of an identity registry: which local entity each bound
/// identifier stands for, and the next identifier the counter will mint.
pub struct NetIdModel {
    pub bindings: Map<EntityNetIdentifier, LocalEntity>,
    pub next: nat,
}

/// No local entity is bound to two identifiers.
pub open spec fn injective(b: Map<EntityNetIdentifier, LocalEntity>) -> bool {
    forall|i: EntityNetIdentifier, j: EntityNetIdentifier|
        #![trigger b[i], b[j]]
        b.contains_key(i) && b.contains_key(j) && b[i] == b[j] ==> i == j
}

/// `b` without whatever binding `e` had.
pub open spec fn unbind_local(
    b: Map<EntityNetIdentifier, LocalEntity>,
    e: LocalEntity,
) -> Map<EntityNetIdentifier, LocalEntity> {
    b.restrict(b.dom().filter(|k: EntityNetIdentifier| b[k] != e))
}

impl NetIdModel {
    pub open spec fn wf(self) -> bool {
        &&& injective(self.bindings)
        &&& self.next <= id_space()
        &&& forall|i: EntityNetIdentifier| #[trigger]
            self.bindings.contains_key(i) ==> i < self.next
    }

    /// The local entity an identifier resolves to, if any.
    pub open spec fn resolve(self, id: EntityNetIdentifier) -> Option<LocalEntity> {
        if self.bindings.contains_key(id) {
            Some(self.bindings[id])
        } else {
            None
        }
    }

    /// The counter has identifiers left to mint.
    pub open spec fn can_register(self) -> bool {
        self.next < id_space()
    }

    /// Binds `e` to the next minted identifier, dropping its earlier binding.
    pub open spec fn register(self, e: LocalEntity) -> NetIdModel {
        NetIdModel {
            bindings: unbind_local(self.bindings, e).insert(self.next as EntityNetIdentifier, e),
            next: self.next + 1,
        }
    }

    /// Binds `e` to `id`, dropping the earlier bindings of both.
    pub open spec fn set_net_id(self, e: LocalEntity, id: EntityNetIdentifier) -> NetIdModel {
        NetIdModel {
            bindings: unbind_local(self.bindings, e).remove(id).insert(id, e),
            next: if id < self.next {
                self.next
            } else {
                (id + 1) as nat
            },
        }
    }

    /// Forgets the binding of `id`.
    pub open spec fn remove(self, id: EntityNetIdentifier) -> NetIdModel {
        NetIdModel { bindings: self.bindings.remove(id), next: self.next }
    }
}

/// An operation on an identity registry.
pub enum RegistryOp {
    Register(LocalEntity),
    SetNetId(LocalEntity, EntityNetIdentifier),
    Remove(EntityNetIdentifier),
}

impl RegistryOp {
    /// The operation may be performed on `m`.
    pub open spec fn admissible(self, m: NetIdModel) -> bool {
        match self {
            RegistryOp::Register(_) => m.can_register(),
            _ => true,
        }
    }

    pub open spec fn apply(self, m: NetIdModel) -> NetIdModel {
        match self {
            RegistryOp::Register(e) => m.register(e),
            RegistryOp::SetNetId(e, id) => m.set_net_id(e, id),
            RegistryOp::Remove(id) => m.remove(id),
        }
    }

    /// The operation ends the binding of `id` to `e`.
    pub open spec fn ends_binding(self, id: EntityNetIdentifier, e: LocalEntity) -> bool {
        match self {
            RegistryOp::Register(e2) => e2 == e,
            RegistryOp::SetNetId(e2, id2) => e2 == e || id2 == id,
            RegistryOp::Remove(id2) => id2 == id,
        }
    }
}

/// Every admissible operation keeps the registry well formed: in particular no
/// local entity is ever bound to two identifiers.
pub proof fn lemma_ops_keep_wf(m: NetIdModel, op: RegistryOp)
    requires
        m.wf(),
        op.admissible(m),
    ensures
        op.apply(m).wf(),
{
    let r = op.apply(m);
    match op {
        RegistryOp::Register(e) => {
            assert forall|i: EntityNetIdentifier, j: EntityNetIdentifier|
                r.bindings.contains_key(i) && r.bindings.contains_key(j)
                    && #[trigger] r.bindings[i] == #[trigger] r.bindings[j] implies i == j by {
                if i != j && i != m.next && j != m.next {
                    assert(m.bindings[i] == r.bindings[i] && m.bindings[j] == r.bindings[j]);
                }
            }
        },
        RegistryOp::SetNetId(e, id) => {
            assert forall|i: EntityNetIdentifier, j: EntityNetIdentifier|
                r.bindings.contains_key(i) && r.bindings.contains_key(j)
                    && #[trigger] r.bindings[i] == #[trigger] r.bindings[j] implies i == j by {
                if i != j && i != id && j != id {
                    assert(m.bindings[i] == r.bindings[i] && m.bindings[j] == r.bindings[j]);
                }
            }
        },
        RegistryOp::Remove(id) => {
            assert forall|i: EntityNetIdentifier, j: EntityNetIdentifier|
                r.bindings.contains_key(i) && r.bindings.contains_key(j)
                    && #[trigger] r.bindings[i] == #[trigger] r.bindings[j] implies i == j by {
                assert(m.bindings[i] == r.bindings[i] && m.bindings[j] == r.bindings[j]);
            }
        },
    }
}

/// A freshly registered entity resolves from its new identifier, and from no
/// other one.
pub proof fn lemma_register_resolves(m: NetIdModel, e: LocalEntity)
    requires
        m.wf(),
        m.can_register(),
    ensures
        m.register(e).wf(),
        m.register(e).resolve(m.next as EntityNetIdentifier) == Some(e),
        forall|other: EntityNetIdentifier|
            other != m.next ==> #[trigger] m.register(e).resolve(other) != Some(e),
{
    lemma_ops_keep_wf(m, RegistryOp::Register(e));
}

/// Until an operation ends it (the entity is registered anew or rebound, its
/// identifier is rebound, or the identifier is removed on destruction), a
/// binding keeps resolving to the same entity, and that entity is reachable
/// from no other identifier.
pub proof fn lemma_binding_persists(
    m: NetIdModel,
    op: RegistryOp,
    id: EntityNetIdentifier,
    e: LocalEntity,
)
    requires
        m.wf(),
        op.admissible(m),
        m.resolve(id) == Some(e),
        !op.ends_binding(id, e),
    ensures
        op.apply(m).wf(),
        op.apply(m).resolve(id) == Some(e),
        forall|other: EntityNetIdentifier|
            other != id ==> #[trigger] op.apply(m).resolve(other) != Some(e),
{
    lemma_ops_keep_wf(m, op);
    let r = op.apply(m);
    match op {
        RegistryOp::Register(e2) => {
            assert(r.bindings.contains_key(id));
        },
        RegistryOp::SetNetId(e2, id2) => {
            assert(r.bindings.contains_key(id));
        },
        RegistryOp::Remove(id2) => {},
    }
}

/// The indirection table between network identifiers and local entities.
pub struct NetIdentityRegistry {
    to_local: HashMap<EntityNetIdentifier, LocalEntity>,
    to_net: HashMap<LocalEntity, EntityNetIdentifier>,
    next_id: u128,
}

impl View for NetIdentityRegistry {
    type V = NetIdModel;

    closed spec fn view(&self) -> NetIdModel {
        NetIdModel { bindings: self.to_local@, next: self.next_id as nat }
    }
}

impl NetIdentityRegistry {
    /// Both directions of the table agree, and the model is well formed.
    pub closed spec fn well_formed(&self) -> bool {
        &&& self@.wf()
        &&& forall|i: EntityNetIdentifier| #[trigger]
            self.to_local@.contains_key(i) ==> self.to_net@.contains_key(self.to_local@[i])
                && self.to_net@[self.to_local@[i]] == i
        &&& forall|e: LocalEntity| #[trigger]
            self.to_net@.contains_key(e) ==> self.to_local@.contains_key(self.to_net@[e])
                && self.to_local@[self.to_net@[e]] == e
    }

    /// A well-formed registry has a well-formed model: no entity is bound to
    /// two identifiers, and every bound identifier is below the counter.
    pub proof fn lemma_model_wf(&self)
        requires
            self.well_formed(),
        ensures
            self@.wf(),
    {
    }

    pub fn new() -> (r: Self)
        ensures
            r.well_formed(),
            r@.bindings.is_empty(),
            r@.next == 0,
    {
        let r = NetIdentityRegistry { to_local: HashMap::new(), to_net: HashMap::new(), next_id: 0 };
        assert(r.to_local@ =~= Map::empty());
        r
    }

    /// Whether the counter still has identifiers to mint.
    pub fn can_register(&self) -> (r: bool)
        requires
            self.well_formed(),
        ensures
            r == self@.can_register(),
    {
        self.next_id < 0x1_0000_0000_0000_0000
    }

    /// How many identifiers the counter can still mint.
    pub fn ids_left(&self) -> (r: u128)
        requires
            self.well_formed(),
        ensures
            r == id_space() - self@.next,
    {
        0x1_0000_0000_0000_0000 - self.next_id
    }

    /// Drops the binding that `e` holds, if any.
    fn unbind(&mut self, e: LocalEntity)
        requires
            old(self).well_formed(),
        ensures
            final(self).well_formed(),
            final(self)@.bindings == unbind_local(old(self)@.bindings, e),
            final(self)@.next == old(self)@.next,
            !final(self).to_net@.contains_key(e),
    {
        let removed = self.to_net.remove(&e);
        match removed {
            Some(old_id) => {
                self.to_local.remove(&old_id);
                assert(self.to_local@ =~= unbind_local(old(self)@.bindings, e));
            },
            None => {
                assert(self.to_local@ =~= unbind_local(old(self)@.bindings, e));
            },
        }
    }

    /// Drops the binding that `id` holds, if any.
    fn unbind_id(&mut self, id: EntityNetIdentifier) -> (r: Option<LocalEntity>)
        requires
            old(self).well_formed(),
        ensures
            final(self).well_formed(),
            final(self)@ == old(self)@.remove(id),
            r == old(self)@.resolve(id),
    {
        let removed = self.to_local.remove(&id);
        match removed {
            Some(e) => {
                self.to_net.remove(&e);
            },
            None => {},
        }
        assert(self.to_local@ =~= old(self)@.bindings.remove(id));
        removed
    }

    /// Mints the next identifier and binds it to `e`; an earlier binding of
    /// `e` is dropped.
    pub fn register_new_entity(&mut self, e: LocalEntity) -> (id: EntityNetIdentifier)
        requires
            old(self).well_formed(),
            old(self)@.can_register(),
        ensures
            final(self).well_formed(),
            id == old(self)@.next,
            final(self)@ == old(self)@.register(e),
            final(self)@.resolve(id) == Some(e),
    {
        self.unbind(e);
        let id = self.next_id as u64;
        self.to_local.insert(id, e);
        self.to_net.insert(e, id);
        self.next_id = self.next_id + 1;
        assert(self.to_local@ =~= old(self)@.register(e).bindings);
        id
    }

    /// Binds `e` to an identifier chosen elsewhere (the server's), dropping
    /// any earlier binding of `e` and of `id`.
    pub fn set_net_id(&mut self, e: LocalEntity, id: EntityNetIdentifier)
        requires
            old(self).well_formed(),
        ensures
            final(self).well_formed(),
            final(self)@ == old(self)@.set_net_id(e, id),
            final(self)@.resolve(id) == Some(e),
    {
        self.unbind(e);
        let _ = self.unbind_id(id);
        self.to_local.insert(id, e);
        self.to_net.insert(e, id);
        if id as u128 >= self.next_id {
            self.next_id = id as u128 + 1;
        }
        assert(self.to_local@ =~= old(self)@.set_net_id(e, id).bindings);
    }

    /// The local entity bound to `id`; `None` when it is unknown here.
    pub fn resolve(&self, id: EntityNetIdentifier) -> (r: Option<LocalEntity>)
        requires
            self.well_formed(),
        ensures
            r == self@.resolve(id),
    {
        match self.to_local.get(&id) {
            Some(e) => Some(*e),
            None => None,
        }
    }

    /// The identifier bound to `e`, if any.
    pub fn net_id_of(&self, e: LocalEntity) -> (r: Option<EntityNetIdentifier>)
        requires
            self.well_formed(),
        ensures
            r matches Some(id) ==> self@.resolve(id) == Some(e),
            r is None ==> forall|id: EntityNetIdentifier| self@.resolve(id) != Some(e),
    {
        match self.to_net.get(&e) {
            Some(id) => Some(*id),
            None => None,
        }
    }

    /// Forgets every binding once the whole world is cleared; the counter
    /// keeps its value, so retired identifiers are never minted again.
    pub fn forget_all(&mut self)
        requires
            old(self).well_formed(),
        ensures
            final(self).well_formed(),
            final(self)@.bindings.is_empty(),
            final(self)@.next == old(self)@.next,
    {
        self.to_local = HashMap::new();
        self.to_net = HashMap::new();
        assert(self.to_local@ =~= Map::empty());
    }

    /// Forgets `id` once its entity is destroyed; returns the entity it named.
    pub fn remove(&mut self, id: EntityNetIdentifier) -> (r: Option<LocalEntity>)
        requires
            old(self).well_formed(),
        ensures
            final(self).well_formed(),
            final(self)@ == old(self)@.remove(id),
            r == old(self)@.resolve(id),
    {
        self.unbind_id(id)
    }
}

} // verus!
