//! Turning declarative spawn policies into concrete spawns, a bounded number
//! per tick.

use vstd::prelude::*;

use crate::components::{dist2, distance_squared, Vector2};

verus! {

/// Where the monsters of a policy appear.
#[derive(Clone, Copy, Debug, PartialEq, Eq, Structural)]
pub enum SpawnType {
    /// At the edge of the playable area, as far from the players as possible.
    Borderline,
    /// At a sampled point of the playable area, away from the players.
    Random,
}

/// How many monsters of which kind are still to spawn.
pub struct Count {
    pub entity: String,
    pub num: u32,
}

/// One spawn policy.
pub struct SpawnAction {
    pub monsters: Count,
    pub spawn_type: SpawnType,
}

/// The ordered worklist of spawn policies.
pub struct SpawnActions(pub Vec<SpawnAction>);

/// The playable area, bounds included.
#[derive(Clone, Copy, Debug, PartialEq, Eq, Structural)]
pub struct Rect {
    pub min: Vector2,
    pub max: Vector2,
}

/// A monster to create now.
pub struct SpawnOrder {
    pub entity: String,
    pub position: Vector2,
    pub spawn_type: SpawnType,
}

/// The worklist without its leading exhausted policies.
pub open spec fn strip(s: Seq<SpawnAction>) -> Seq<SpawnAction>
    decreases s.len(),
{
    if s.len() > 0 && s[0].monsters.num == 0 {
        strip(s.drop_first())
    } else {
        s
    }
}

/// The worklist after one monster of its head policy is spawned.
pub open spec fn take_one(s: Seq<SpawnAction>) -> Seq<SpawnAction> {
    if s.len() == 0 {
        s
    } else if s[0].monsters.num <= 1 {
        s.drop_first()
    } else {
        s.update(
            0,
            SpawnAction {
                monsters: Count { entity: s[0].monsters.entity, num: (s[0].monsters.num - 1) as u32 },
                spawn_type: s[0].spawn_type,
            },
        )
    }
}

/// The worklist after `n` spawns, serviced head first.
pub open spec fn consume(s: Seq<SpawnAction>, n: nat) -> Seq<SpawnAction>
    decreases n,
{
    if n == 0 {
        strip(s)
    } else {
        strip(take_one(consume(s, (n - 1) as nat)))
    }
}

/// Monsters still to spawn over the whole worklist.
pub open spec fn demand(s: Seq<SpawnAction>) -> int
    decreases s.len(),
{
    if s.len() == 0 {
        0
    } else {
        s[0].monsters.num + demand(s.drop_first())
    }
}

pub open spec fn inside(r: Rect, p: Vector2) -> bool {
    r.min.x <= p.x <= r.max.x && r.min.y <= p.y <= r.max.y
}

/// At least `d2` (squared) away from every player.
pub open spec fn far_from_all(players: Seq<Vector2>, p: Vector2, d2: int) -> bool {
    forall|i: int| 0 <= i < players.len() ==> dist2(#[trigger] players[i], p) >= d2
}

/// Squared distance from `p` to the nearest of `players`; 0 without players.
pub open spec fn nearest2(players: Seq<Vector2>, p: Vector2) -> int
    decreases players.len(),
{
    if players.len() == 0 {
        0
    } else if players.len() == 1 {
        dist2(players[0], p)
    } else {
        let rest = nearest2(players.drop_last(), p);
        let d = dist2(players.last(), p);
        if d < rest {
            d
        } else {
            rest
        }
    }
}

/// The candidate points on the edge of the area: corners and midpoints.
pub open spec fn border_points(r: Rect) -> Seq<Vector2> {
    let mx = (r.min.x + r.max.x) / 2;
    let my = (r.min.y + r.max.y) / 2;
    seq![
        Vector2 { x: r.min.x, y: r.min.y },
        Vector2 { x: mx as i32, y: r.min.y },
        Vector2 { x: r.max.x, y: r.min.y },
        Vector2 { x: r.max.x, y: my as i32 },
        Vector2 { x: r.max.x, y: r.max.y },
        Vector2 { x: mx as i32, y: r.max.y },
        Vector2 { x: r.min.x, y: r.max.y },
        Vector2 { x: r.min.x, y: my as i32 },
    ]
}

/// `p` is the edge point farthest from the players (the first such one).
pub open spec fn best_border_point(r: Rect, players: Seq<Vector2>, p: Vector2) -> bool {
    let pts = border_points(r);
    exists|k: int|
        0 <= k < pts.len() && pts[k] == p && (forall|j: int|
            0 <= j < pts.len() ==> nearest2(players, #[trigger] pts[j]) <= nearest2(players, p))
            && (forall|j: int| 0 <= j < k ==> nearest2(players, #[trigger] pts[j]) < nearest2(players, p))
}

proof fn lemma_demand_nonneg(s: Seq<SpawnAction>)
    ensures
        demand(s) >= 0,
        s.len() > 0 ==> demand(s) >= s[0].monsters.num,
    decreases s.len(),
{
    if s.len() > 0 {
        lemma_demand_nonneg(s.drop_first());
    }
}

proof fn lemma_strip(s: Seq<SpawnAction>)
    ensures
        demand(strip(s)) == demand(s),
        strip(s).len() == 0 || strip(s)[0].monsters.num > 0,
        strip(strip(s)) == strip(s),
    decreases s.len(),
{
    if s.len() > 0 && s[0].monsters.num == 0 {
        lemma_strip(s.drop_first());
    }
}

proof fn lemma_take_one(s: Seq<SpawnAction>)
    requires
        s.len() > 0,
        s[0].monsters.num > 0,
    ensures
        demand(take_one(s)) == demand(s) - 1,
{
    if s[0].monsters.num > 1 {
        let t = take_one(s);
        assert(t.drop_first() =~= s.drop_first());
    }
}

/// Spawning `n` monsters out of a worklist that asked for at least that many
/// leaves exactly `n` fewer to spawn.
pub proof fn lemma_consume_demand(s: Seq<SpawnAction>, n: nat)
    requires
        n <= demand(s),
    ensures
        demand(consume(s, n)) == demand(s) - n,
        n < demand(s) ==> consume(s, n).len() > 0,
    decreases n,
{
    lemma_strip(s);
    if n > 0 {
        lemma_consume_demand(s, (n - 1) as nat);
        let c = consume(s, (n - 1) as nat);
        assert(c == strip(c)) by {
            if n - 1 == 0 {
                lemma_strip(s);
            } else {
                lemma_strip(take_one(consume(s, (n - 2) as nat)));
            }
        }
        lemma_strip(c);
        lemma_take_one(c);
        lemma_strip(take_one(c));
    }
    lemma_demand_nonneg(consume(s, n));
}

/// Index of the first point among `pts[..k]` farthest from the players.
pub open spec fn best_index(players: Seq<Vector2>, pts: Seq<Vector2>, k: int) -> int
    decreases k,
{
    if k <= 1 {
        0
    } else {
        let b = best_index(players, pts, k - 1);
        if nearest2(players, pts[k - 1]) > nearest2(players, pts[b]) {
            k - 1
        } else {
            b
        }
    }
}

/// The edge point chosen for a border spawn.
pub open spec fn border_choice(r: Rect, players: Seq<Vector2>) -> Vector2 {
    border_points(r)[best_index(players, border_points(r), 8)]
}

/// Squared distance from `p` to the nearest player.
fn nearest_player_distance(players: &Vec<Vector2>, p: Vector2) -> (r: u128)
    ensures
        r == nearest2(players@, p),
{
    let mut best: u128 = 0;
    let mut i: usize = 0;
    while i < players.len()
        invariant
            0 <= i <= players@.len(),
            best == nearest2(players@.take(i as int), p),
        decreases players@.len() - i,
    {
        let d = distance_squared(players[i], p);
        proof {
            assert(players@.take(i + 1).drop_last() =~= players@.take(i as int));
        }
        if i == 0 || d < best {
            best = d;
        }
        i = i + 1;
    }
    proof { assert(players@.take(players@.len() as int) =~= players@); }
    best
}

fn midpoint(a: i32, b: i32) -> (r: i32)
    ensures
        r == (a + b) / 2,
{
    let s: i64 = a as i64 + b as i64;
    if s >= 0 {
        (s / 2) as i32
    } else {
        ((s - 1) / 2) as i32
    }
}

/// The edge point of `bounds` farthest from every player.
pub fn border_spawn_point(bounds: Rect, players: &Vec<Vector2>) -> (r: Vector2)
    ensures
        r == border_choice(bounds, players@),
        best_border_point(bounds, players@, r),
{
    let mx = midpoint(bounds.min.x, bounds.max.x);
    let my = midpoint(bounds.min.y, bounds.max.y);
    let pts: Vec<Vector2> = vec![
        Vector2 { x: bounds.min.x, y: bounds.min.y },
        Vector2 { x: mx, y: bounds.min.y },
        Vector2 { x: bounds.max.x, y: bounds.min.y },
        Vector2 { x: bounds.max.x, y: my },
        Vector2 { x: bounds.max.x, y: bounds.max.y },
        Vector2 { x: mx, y: bounds.max.y },
        Vector2 { x: bounds.min.x, y: bounds.max.y },
        Vector2 { x: bounds.min.x, y: my },
    ];
    assert(pts@ =~= border_points(bounds));
    let mut best_k: usize = 0;
    let mut best_d: u128 = nearest_player_distance(players, pts[0]);
    let mut k: usize = 1;
    while k < pts.len()
        invariant
            pts@ == border_points(bounds),
            1 <= k <= pts@.len(),
            best_k < k,
            best_k == best_index(players@, pts@, k as int),
            best_d == nearest2(players@, pts@[best_k as int]),
            forall|j: int| 0 <= j < k ==> nearest2(players@, #[trigger] pts@[j]) <= best_d,
            forall|j: int| 0 <= j < best_k ==> nearest2(players@, #[trigger] pts@[j]) < best_d,
        decreases pts@.len() - k,
    {
        let d = nearest_player_distance(players, pts[k]);
        if d > best_d {
            best_d = d;
            best_k = k;
        }
        k = k + 1;
    }
    pts[best_k]
}

/// Where each order puts its monster.
pub open spec fn positions(orders: Seq<SpawnOrder>) -> Seq<Vector2> {
    orders.map_values(|o: SpawnOrder| o.position)
}

/// Parameters of the spawn scheduler.
#[derive(Clone, Copy, Debug, PartialEq, Eq, Structural)]
pub struct SpawnScheduler {
    /// Most monsters created in one tick.
    pub budget: u32,
    /// Most samples tried for one randomly placed monster.
    pub retry_cap: u32,
    /// Least distance between a randomly placed monster and any player.
    pub min_player_distance: u32,
}

impl SpawnScheduler {
    pub fn new(budget: u32, retry_cap: u32, min_player_distance: u32) -> (r: Self)
        ensures
            r.budget == budget,
            r.retry_cap == retry_cap,
            r.min_player_distance == min_player_distance,
    {
        SpawnScheduler { budget, retry_cap, min_player_distance }
    }

    /// A sample is usable: inside the area and far enough from the players.
    pub open spec fn acceptable(self, bounds: Rect, players: Seq<Vector2>, p: Vector2) -> bool {
        inside(bounds, p) && far_from_all(
            players,
            p,
            self.min_player_distance * self.min_player_distance,
        )
    }

    /// The first acceptable sample among at most `tries` of them from `c` on,
    /// and the position after the last sample tried.
    pub open spec fn fit(
        self,
        bounds: Rect,
        players: Seq<Vector2>,
        samples: Seq<Vector2>,
        c: int,
        tries: nat,
    ) -> (Option<Vector2>, int)
        decreases tries,
    {
        if tries == 0 || c < 0 || c >= samples.len() {
            (None, c)
        } else if self.acceptable(bounds, players, samples[c]) {
            (Some(samples[c]), c + 1)
        } else {
            self.fit(bounds, players, samples, c + 1, (tries - 1) as nat)
        }
    }

    /// Where the next `left` monsters of worklist `s` go, head first, when
    /// random samples are drawn from `samples[c..]`; shorter when a random
    /// placement finds no acceptable sample.
    pub open spec fn placements(
        self,
        s: Seq<SpawnAction>,
        bounds: Rect,
        players: Seq<Vector2>,
        samples: Seq<Vector2>,
        c: int,
        left: nat,
    ) -> Seq<Vector2>
        decreases left,
    {
        let w = strip(s);
        if left == 0 || w.len() == 0 {
            Seq::empty()
        } else if w[0].spawn_type == SpawnType::Borderline {
            seq![border_choice(bounds, players)] + self.placements(
                take_one(w),
                bounds,
                players,
                samples,
                c,
                (left - 1) as nat,
            )
        } else {
            let f = self.fit(bounds, players, samples, c, self.retry_cap as nat);
            match f.0 {
                None => Seq::empty(),
                Some(p) => seq![p] + self.placements(
                    take_one(w),
                    bounds,
                    players,
                    samples,
                    f.1,
                    (left - 1) as nat,
                ),
            }
        }
    }

    /// Tries the samples from `*cursor` on, at most `retry_cap` of them, and
    /// returns the first acceptable one.
    fn random_spawn_point(
        &self,
        bounds: Rect,
        players: &Vec<Vector2>,
        samples: &Vec<Vector2>,
        cursor: &mut usize,
    ) -> (r: Option<Vector2>)
        requires
            *old(cursor) <= samples@.len(),
        ensures
            *old(cursor) <= *final(cursor) <= samples@.len(),
            (r, *final(cursor) as int) == self.fit(
                bounds,
                players@,
                samples@,
                *old(cursor) as int,
                self.retry_cap as nat,
            ),
            r matches Some(p) ==> self.acceptable(bounds, players@, p),
    {
        let d: u128 = self.min_player_distance as u128;
        assert(d * d <= 0xffff_ffff * 0xffff_ffff) by (nonlinear_arith)
            requires d <= 0xffff_ffff;
        let min2: u128 = d * d;
        let mut tries: u32 = 0;
        while tries < self.retry_cap && *cursor < samples.len()
            invariant
                *old(cursor) <= *cursor <= samples@.len(),
                tries <= self.retry_cap,
                min2 == self.min_player_distance * self.min_player_distance,
                self.fit(bounds, players@, samples@, *old(cursor) as int, self.retry_cap as nat) == self.fit(
                    bounds,
                    players@,
                    samples@,
                    *cursor as int,
                    (self.retry_cap - tries) as nat,
                ),
            decreases samples@.len() - *cursor,
        {
            let p = samples[*cursor];
            *cursor = *cursor + 1;
            tries = tries + 1;
            if bounds.min.x <= p.x && p.x <= bounds.max.x && bounds.min.y <= p.y && p.y <= bounds.max.y {
                let mut far = true;
                let mut i: usize = 0;
                while i < players.len()
                    invariant
                        0 <= i <= players@.len(),
                        min2 == self.min_player_distance * self.min_player_distance,
                        far == forall|j: int| 0 <= j < i ==> dist2(#[trigger] players@[j], p) >= min2,
                    decreases players@.len() - i,
                {
                    if distance_squared(players[i], p) < min2 {
                        far = false;
                    }
                    i = i + 1;
                }
                if far {
                    return Some(p);
                }
            }
        }
        None
    }

    /// One tick of spawning: services the worklist head first, creating at
    /// most `budget` monsters. Borderline policies always find a place; a
    /// Random one that finds no acceptable sample ends the tick, and the
    /// demand carries over to the next one.
    pub fn tick(
        &self,
        actions: &mut SpawnActions,
        bounds: Rect,
        players: &Vec<Vector2>,
        samples: &Vec<Vector2>,
    ) -> (r: Vec<SpawnOrder>)
        ensures
            r@.len() <= self.budget,
            positions(r@) == self.placements(old(actions).0@, bounds, players@, samples@, 0, self.budget as nat),
            demand(final(actions).0@) == demand(old(actions).0@) - r@.len(),
            final(actions).0@ == consume(old(actions).0@, r@.len() as nat),
            forall|k: int|
                #![trigger r@[k]]
                0 <= k < r@.len() ==> {
                    let head = consume(old(actions).0@, k as nat)[0];
                    &&& consume(old(actions).0@, k as nat).len() > 0
                    &&& r@[k].entity@ == head.monsters.entity@
                    &&& r@[k].spawn_type == head.spawn_type
                    &&& head.spawn_type == SpawnType::Borderline ==> best_border_point(
                        bounds,
                        players@,
                        r@[k].position,
                    )
                    &&& head.spawn_type == SpawnType::Random ==> self.acceptable(
                        bounds,
                        players@,
                        r@[k].position,
                    )
                },
            r@.len() < self.budget ==> final(actions).0@.len() == 0 || final(actions).0@[0].spawn_type
                == SpawnType::Random,
    {
        let ghost start = actions.0@;
        proof { lemma_demand_nonneg(start); }
        let mut orders: Vec<SpawnOrder> = Vec::new();
        let mut cursor: usize = 0;
        proof {
            assert(positions(orders@) + self.placements(start, bounds, players@, samples@, 0, self.budget as nat)
                =~= self.placements(start, bounds, players@, samples@, 0, self.budget as nat));
        }
        loop
            invariant
                orders@.len() <= self.budget,
                positions(orders@) + self.placements(
                    actions.0@,
                    bounds,
                    players@,
                    samples@,
                    cursor as int,
                    (self.budget - orders@.len()) as nat,
                ) == self.placements(start, bounds, players@, samples@, 0, self.budget as nat),
                orders@.len() <= demand(start),
                strip(actions.0@) == consume(start, orders@.len() as nat),
                cursor <= samples@.len(),
                forall|k: int|
                    #![trigger orders@[k]]
                    0 <= k < orders@.len() ==> {
                        let head = consume(start, k as nat)[0];
                        &&& consume(start, k as nat).len() > 0
                        &&& orders@[k].entity@ == head.monsters.entity@
                        &&& orders@[k].spawn_type == head.spawn_type
                        &&& head.spawn_type == SpawnType::Borderline ==> best_border_point(
                            bounds,
                            players@,
                            orders@[k].position,
                        )
                        &&& head.spawn_type == SpawnType::Random ==> self.acceptable(
                            bounds,
                            players@,
                            orders@[k].position,
                        )
                    },
            ensures
                positions(orders@) == self.placements(start, bounds, players@, samples@, 0, self.budget as nat),
                orders@.len() <= demand(start),
                actions.0@ == consume(start, orders@.len() as nat),
                orders@.len() < self.budget ==> actions.0@.len() == 0 || actions.0@[0].spawn_type
                    == SpawnType::Random,
            decreases self.budget - orders@.len(), actions.0@.len(),
        {
            if actions.0.len() > 0 && actions.0[0].monsters.num == 0 {
                let ghost before = actions.0@;
                actions.0.remove(0);
                proof {
                    assert(actions.0@ =~= before.drop_first());
                    assert(strip(before) == strip(before.drop_first()));
                }
                continue;
            }
            proof {
                assert(strip(actions.0@) == actions.0@);
                lemma_strip(actions.0@);
                lemma_consume_demand(start, orders@.len() as nat);
                lemma_demand_nonneg(actions.0@);
            }
            if orders.len() >= self.budget as usize || actions.0.len() == 0 {
                proof {
                    assert(positions(orders@) + Seq::<Vector2>::empty() =~= positions(orders@));
                }
                break;
            }
            let ghost c0 = cursor as int;
            let ghost left = (self.budget - orders@.len()) as nat;
            let spawn_type = actions.0[0].spawn_type;
            let mut next_cursor = cursor;
            let position = match spawn_type {
                SpawnType::Borderline => Some(border_spawn_point(bounds, players)),
                SpawnType::Random => self.random_spawn_point(bounds, players, samples, &mut next_cursor),
            };
            match position {
                None => {
                    proof {
                        assert(spawn_type == SpawnType::Random);
                        assert(self.placements(actions.0@, bounds, players@, samples@, c0, left) == Seq::<
                            Vector2,
                        >::empty());
                        assert(positions(orders@) + Seq::<Vector2>::empty() =~= positions(orders@));
                    }
                    break;
                },
                Some(position) => {
                    let ghost before = actions.0@;
                    let mut head = actions.0.remove(0);
                    let entity = head.monsters.entity.clone();
                    if head.monsters.num > 1 {
                        head.monsters.num = head.monsters.num - 1;
                        actions.0.insert(0, head);
                    }
                    proof {
                        assert(actions.0@ =~= take_one(before));
                    }
                    cursor = next_cursor;
                    let ghost prev = positions(orders@);
                    orders.push(SpawnOrder { entity, position, spawn_type });
                    proof {
                        let rest = self.placements(take_one(before), bounds, players@, samples@, cursor as int, (left - 1) as nat);
                        assert(self.placements(before, bounds, players@, samples@, c0, left) == seq![position] + rest);
                        assert(positions(orders@) =~= prev.push(position));
                        assert(prev.push(position) + rest =~= prev + (seq![position] + rest));
                    }
                },
            }
        }
        proof { lemma_consume_demand(start, orders@.len() as nat); }
        orders
    }
}

} // verus!
