//! Per-connection liveness records and timeout detection.

use vstd::prelude::*;

use crate::components::{
    ConnectionIdentifier, ConnectionPhase, EventCursor, Millis, NetConnectionModel,
};

verus! {

/// `c` has been silent for longer than `timeout` at `now`.
pub open spec fn timed_out(c: NetConnectionModel, now: Millis, timeout: Millis) -> bool {
    now - c.last_pinged_at > timeout
}

/// The identifiers of a sequence of records, in order.
pub open spec fn ids(s: Seq<NetConnectionModel>) -> Seq<ConnectionIdentifier> {
    s.map_values(|c: NetConnectionModel| c.id)
}

pub open spec fn unique_ids(s: Seq<NetConnectionModel>) -> bool {
    forall|i: int, j: int|
        0 <= i < s.len() && 0 <= j < s.len() && i != j ==> #[trigger] s[i].id != #[trigger] s[j].id
}

pub open spec fn has_id(s: Seq<NetConnectionModel>, id: ConnectionIdentifier) -> bool {
    exists|i: int| 0 <= i < s.len() && #[trigger] s[i].id == id
}

/// The records that a sweep at `now` keeps.
pub open spec fn still_alive(
    s: Seq<NetConnectionModel>,
    now: Millis,
    timeout: Millis,
) -> Seq<NetConnectionModel> {
    s.filter(|c: NetConnectionModel| !timed_out(c, now, timeout))
}

/// The records that a sweep at `now` removes.
pub open spec fn expired(
    s: Seq<NetConnectionModel>,
    now: Millis,
    timeout: Millis,
) -> Seq<NetConnectionModel> {
    s.filter(|c: NetConnectionModel| timed_out(c, now, timeout))
}

/// The record after a liveness signal for `id` at `now`.
pub open spec fn pinged(c: NetConnectionModel, id: ConnectionIdentifier, now: Millis) -> NetConnectionModel {
    if c.id == id {
        NetConnectionModel { last_pinged_at: now, ..c }
    } else {
        c
    }
}

/// The record after a completed handshake of `id`.
pub open spec fn handshaken(c: NetConnectionModel, id: ConnectionIdentifier) -> NetConnectionModel {
    if c.id == id {
        NetConnectionModel { phase: ConnectionPhase::Established, ..c }
    } else {
        c
    }
}

/// Sweeping twice at the same instant: the second sweep finds nothing.
pub proof fn lemma_sweep_idempotent(s: Seq<NetConnectionModel>, now: Millis, timeout: Millis)
    ensures
        expired(still_alive(s, now, timeout), now, timeout).len() == 0,
        still_alive(still_alive(s, now, timeout), now, timeout) == still_alive(s, now, timeout),
{
    let alive = still_alive(s, now, timeout);
    let p = |c: NetConnectionModel| timed_out(c, now, timeout);
    let q = |c: NetConnectionModel| !timed_out(c, now, timeout);
    let twice = alive.filter(p);
    if twice.len() > 0 {
        alive.lemma_filter_pred(p, 0);
        assert(twice.contains(twice[0]));
        alive.lemma_filter_contains_rev(p, twice[0]);
        let j = choose|j: int| 0 <= j < alive.len() && alive[j] == twice[0];
        s.lemma_filter_pred(q, j);
    }
    assert forall|i: int| 0 <= i < alive.len() implies q(#[trigger] alive[i]) by {
        s.lemma_filter_pred(q, i);
    }
    lemma_filter_all(alive, q);
}

/// Filtering by a predicate that holds everywhere keeps the sequence.
proof fn lemma_filter_all(s: Seq<NetConnectionModel>, q: spec_fn(NetConnectionModel) -> bool)
    requires
        forall|i: int| 0 <= i < s.len() ==> q(#[trigger] s[i]),
    ensures
        s.filter(q) == s,
    decreases s.len(),
{
    reveal(Seq::filter);
    if s.len() > 0 {
        lemma_filter_all(s.drop_last(), q);
        assert(s.drop_last().push(s.last()) =~= s);
    }
}

/// Split of `s.take(i + 1)` into `s.take(i)` and the next record.
pub(crate) proof fn lemma_filter_step<A>(s: Seq<A>, q: spec_fn(A) -> bool, i: int)
    requires
        0 <= i < s.len(),
    ensures
        s.take(i + 1).filter(q) == if q(s[i]) {
            s.take(i).filter(q).push(s[i])
        } else {
            s.take(i).filter(q)
        },
{
    reveal(Seq::filter);
    assert(s.take(i + 1).drop_last() =~= s.take(i));
}

/// Live connections, keyed by identifier.
pub struct ConnectionRegistry {
    connections: Vec<NetConnectionModel>,
}

impl View for ConnectionRegistry {
    type V = Seq<NetConnectionModel>;

    closed spec fn view(&self) -> Seq<NetConnectionModel> {
        self.connections@
    }
}

impl ConnectionRegistry {
    pub open spec fn well_formed(&self) -> bool {
        unique_ids(self@)
    }

    pub fn new() -> (r: Self)
        ensures
            r.well_formed(),
            r@.len() == 0,
    {
        ConnectionRegistry { connections: Vec::new() }
    }

    pub fn len(&self) -> (r: usize)
        ensures
            r == self@.len(),
    {
        self.connections.len()
    }

    /// The identifier of the `i`-th live connection.
    pub fn id_at(&self, i: usize) -> (r: ConnectionIdentifier)
        requires
            i < self@.len(),
        ensures
            r == self@[i as int].id,
    {
        self.connections[i].id
    }

    /// Whether a connection with this identifier is live.
    pub fn contains(&self, id: ConnectionIdentifier) -> (r: bool)
        ensures
            r == has_id(self@, id),
    {
        self.find(id).is_some()
    }

    fn find(&self, id: ConnectionIdentifier) -> (r: Option<usize>)
        ensures
            r matches Some(i) ==> i < self@.len() && self@[i as int].id == id,
            r is None ==> !has_id(self@, id),
    {
        let mut i: usize = 0;
        while i < self.connections.len()
            invariant
                forall|j: int| 0 <= j < i ==> #[trigger] self@[j].id != id,
            decreases self.connections.len() - i,
        {
            if self.connections[i].id == id {
                return Some(i);
            }
            i = i + 1;
        }
        None
    }

    /// The record of a live connection.
    pub fn get(&self, id: ConnectionIdentifier) -> (r: Option<NetConnectionModel>)
        requires
            self.well_formed(),
        ensures
            r matches Some(c) ==> c.id == id && self@.contains(c),
            r is None ==> !has_id(self@, id),
    {
        match self.find(id) {
            Some(i) => Some(self.connections[i]),
            None => None,
        }
    }

    /// Accepts a new connection at `now`: created and last pinged then.
    pub fn on_connect(
        &mut self,
        id: ConnectionIdentifier,
        reader: EventCursor,
        now: Millis,
    ) -> (r: NetConnectionModel)
        requires
            old(self).well_formed(),
            !has_id(old(self)@, id),
        ensures
            final(self).well_formed(),
            r == (NetConnectionModel {
                id,
                reader,
                created_at: now,
                last_pinged_at: now,
                phase: ConnectionPhase::Connecting,
            }),
            final(self)@ == old(self)@.push(r),
    {
        let record = NetConnectionModel::new(id, reader, now);
        self.connections.push(record);
        record
    }

    /// Marks the handshake of `id` as done; `false` when `id` is unknown.
    pub fn on_handshake(&mut self, id: ConnectionIdentifier) -> (r: bool)
        requires
            old(self).well_formed(),
        ensures
            final(self).well_formed(),
            r == has_id(old(self)@, id),
            final(self)@ == old(self)@.map_values(|c: NetConnectionModel| handshaken(c, id)),
    {
        match self.find(id) {
            Some(i) => {
                let mut c = self.connections[i];
                c.phase = ConnectionPhase::Established;
                self.connections.set(i, c);
                assert(self@ =~= old(self)@.map_values(|c: NetConnectionModel| handshaken(c, id)));
                true
            },
            None => {
                assert(self@ =~= old(self)@.map_values(|c: NetConnectionModel| handshaken(c, id)));
                false
            },
        }
    }

    /// Records a liveness signal from `id` at `now`; unknown identifiers are
    /// ignored.
    pub fn on_ping(&mut self, id: ConnectionIdentifier, now: Millis)
        requires
            old(self).well_formed(),
        ensures
            final(self).well_formed(),
            final(self)@ == old(self)@.map_values(|c: NetConnectionModel| pinged(c, id, now)),
    {
        match self.find(id) {
            Some(i) => {
                let mut c = self.connections[i];
                c.last_pinged_at = now;
                self.connections.set(i, c);
            },
            None => {},
        }
        assert(self@ =~= old(self)@.map_values(|c: NetConnectionModel| pinged(c, id, now)));
    }

    /// Removes the connection `id` on an explicit close and hands back its
    /// record.
    pub fn on_close(&mut self, id: ConnectionIdentifier) -> (r: Option<NetConnectionModel>)
        requires
            old(self).well_formed(),
        ensures
            final(self).well_formed(),
            final(self)@ == old(self)@.filter(|c: NetConnectionModel| c.id != id),
            r matches Some(c) ==> c.id == id && old(self)@.contains(c),
            r is None ==> !has_id(old(self)@, id),
    {
        let ghost s = self@;
        let ghost q = |c: NetConnectionModel| c.id != id;
        let mut kept: Vec<NetConnectionModel> = Vec::new();
        let mut found: Option<NetConnectionModel> = None;
        let mut i: usize = 0;
        while i < self.connections.len()
            invariant
                self@ == s,
                unique_ids(s),
                0 <= i <= s.len(),
                q == (|c: NetConnectionModel| c.id != id),
                kept@ == s.take(i as int).filter(q),
                unique_ids(kept@),
                forall|k: int| 0 <= k < kept@.len() ==> exists|j: int| 0 <= j < i && #[trigger] kept@[k] == s[j],
                found matches Some(c) ==> c.id == id && s.contains(c),
                found is None ==> forall|j: int| 0 <= j < i ==> #[trigger] s[j].id != id,
            decreases s.len() - i,
        {
            let c = self.connections[i];
            proof {
                lemma_filter_step(s, q, i as int);
                assert(q(c) == (c.id != id));
            }
            if c.id == id {
                found = Some(c);
            } else {
                proof {
                    assert forall|k: int| 0 <= k < kept@.len() implies #[trigger] kept@[k].id != c.id by {
                        let j = choose|j: int| 0 <= j < i && #[trigger] kept@[k] == s[j];
                    }
                }
                kept.push(c);
            }
            i = i + 1;
        }
        proof { assert(s.take(s.len() as int) =~= s); }
        self.connections = kept;
        found
    }

    /// Removes every connection silent for longer than `timeout` at `now` and
    /// returns their identifiers, in registry order.
    pub fn sweep_timeouts(&mut self, now: Millis, timeout: Millis) -> (r: Vec<ConnectionIdentifier>)
        requires
            old(self).well_formed(),
        ensures
            final(self).well_formed(),
            final(self)@ == still_alive(old(self)@, now, timeout),
            r@ == ids(expired(old(self)@, now, timeout)),
            r@.no_duplicates(),
            forall|i: int| 0 <= i < final(self)@.len() ==> !timed_out(#[trigger] final(self)@[i], now, timeout),
    {
        let ghost s = self@;
        let ghost p = |c: NetConnectionModel| timed_out(c, now, timeout);
        let ghost q = |c: NetConnectionModel| !timed_out(c, now, timeout);
        let mut kept: Vec<NetConnectionModel> = Vec::new();
        let mut dropped: Vec<NetConnectionModel> = Vec::new();
        let mut i: usize = 0;
        while i < self.connections.len()
            invariant
                self@ == s,
                unique_ids(s),
                0 <= i <= s.len(),
                p == (|c: NetConnectionModel| timed_out(c, now, timeout)),
                q == (|c: NetConnectionModel| !timed_out(c, now, timeout)),
                kept@ == s.take(i as int).filter(q),
                dropped@ == s.take(i as int).filter(p),
                unique_ids(dropped@),
                forall|k: int| 0 <= k < dropped@.len() ==> exists|j: int| 0 <= j < i && #[trigger] dropped@[k] == s[j],
                unique_ids(kept@),
                forall|k: int| 0 <= k < kept@.len() ==> exists|j: int| 0 <= j < i && #[trigger] kept@[k] == s[j],
            decreases s.len() - i,
        {
            let c = self.connections[i];
            proof {
                lemma_filter_step(s, q, i as int);
                lemma_filter_step(s, p, i as int);
                assert(q(c) == !timed_out(c, now, timeout));
                assert(p(c) == timed_out(c, now, timeout));
            }
            if now > c.last_pinged_at && now - c.last_pinged_at > timeout {
                proof {
                    assert forall|k: int| 0 <= k < dropped@.len() implies #[trigger] dropped@[k].id != c.id by {
                        let j = choose|j: int| 0 <= j < i && #[trigger] dropped@[k] == s[j];
                    }
                }
                dropped.push(c);
            } else {
                proof {
                    assert forall|k: int| 0 <= k < kept@.len() implies #[trigger] kept@[k].id != c.id by {
                        let j = choose|j: int| 0 <= j < i && #[trigger] kept@[k] == s[j];
                    }
                }
                kept.push(c);
            }
            i = i + 1;
        }
        proof {
            assert(s.take(s.len() as int) =~= s);
            assert forall|j: int| 0 <= j < kept@.len() implies !timed_out(#[trigger] kept@[j], now, timeout) by {
                s.lemma_filter_pred(q, j);
            }
        }
        let mut out: Vec<ConnectionIdentifier> = Vec::new();
        let mut k: usize = 0;
        while k < dropped.len()
            invariant
                0 <= k <= dropped@.len(),
                out@ == ids(dropped@.take(k as int)),
            decreases dropped@.len() - k,
        {
            proof { assert(dropped@.take(k as int + 1) =~= dropped@.take(k as int).push(dropped@[k as int])); }
            out.push(dropped[k].id);
            k = k + 1;
            proof { assert(ids(dropped@.take(k as int)) =~= ids(dropped@.take(k as int - 1)).push(dropped@[k as int - 1].id)); }
        }
        proof {
            assert(dropped@.take(dropped@.len() as int) =~= dropped@);
            assert forall|a: int, b: int| 0 <= a < out@.len() && 0 <= b < out@.len() && a != b implies out@[a] != out@[b] by {
                assert(out@[a] == dropped@[a].id && out@[b] == dropped@[b].id);
            }
        }
        self.connections = kept;
        out
    }
}

} // verus!
