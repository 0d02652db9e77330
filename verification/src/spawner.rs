//! Wave spawner: fixed spawn points pace enemy creation against the shared
//! spawn budget and the live-enemy concurrency cap.  Each tick, every spawn
//! point whose randomized interval has elapsed spawns one enemy, as long as
//! budget and cap allow; the interval is redrawn after each spawn.

use vstd::prelude::*;
use crate::rng::gen_range_u64;
use crate::steering::TAU_URAD;
use crate::vec3::Vec3;
use crate::world::{enemy_count, World};

verus! {

/// Most enemies alive at once.
pub const ENEMY_CAP: usize = 6;

/// Shortest interval between spawns from one point, milliseconds.
pub const SPAWN_INTERVAL_MIN_MS: u64 = 20000;

/// Bound the interval is drawn strictly below, milliseconds.
pub const SPAWN_INTERVAL_MAX_MS: u64 = 40000;

/// A spawn point: its position, when it last spawned, and the randomized
/// interval until it may spawn again.
#[derive(Clone, Copy, Debug, PartialEq, Eq, Structural)]
pub struct Spawner {
    pub position: Vec3,
    pub last_spawned_ms: u64,
    pub until_next_ms: u64,
}

impl Spawner {
    /// The interval never reaches the top of the drawing range (a fresh
    /// spawner holds zero, so it is ready at once).
    pub open spec fn wf(self) -> bool {
        self.until_next_ms < SPAWN_INTERVAL_MAX_MS
    }

    /// A fresh spawn point at `position`: ready as soon as a tick asks.
    pub fn new(position: Vec3) -> (s: Spawner)
        ensures
            s.position == position,
            s.last_spawned_ms == 0,
            s.until_next_ms == 0,
            s.wf(),
    {
        Spawner { position, last_spawned_ms: 0, until_next_ms: 0 }
    }
}

/// A spawn point is ready when strictly more than its drawn interval has
/// passed since it last spawned.
pub open spec fn ready(s: Spawner, now_ms: int) -> bool {
    now_ms - s.last_spawned_ms > s.until_next_ms
}

/// How many of the first `n` spawn points are ready.
pub open spec fn ready_count(spawners: Seq<Spawner>, now_ms: int, n: int) -> int
    decreases n,
{
    if n <= 0 {
        0int
    } else {
        ready_count(spawners, now_ms, n - 1) + if ready(spawners[n - 1], now_ms) {
            1int
        } else {
            0int
        }
    }
}

/// How many spawns budget and cap allow this tick: the remaining budget,
/// but no more than the free room under the concurrency cap.
pub open spec fn spawn_allowance(to_spawn: int, live: int) -> int {
    let cap_room = if live >= ENEMY_CAP {
        0int
    } else {
        ENEMY_CAP - live
    };
    if to_spawn <= cap_room {
        if to_spawn <= 0 {
            0int
        } else {
            to_spawn
        }
    } else {
        cap_room
    }
}

/// How many of the first `n` spawn points actually spawn this tick: the
/// ready ones, until the allowance runs out.
pub open spec fn spawned_count(spawners: Seq<Spawner>, now_ms: int, allowance: int, n: int) -> int {
    let rc = ready_count(spawners, now_ms, n);
    if rc <= allowance {
        rc
    } else {
        allowance
    }
}

/// The ready census over a longer prefix is never smaller, and never grows
/// faster than the prefix.
proof fn lemma_ready_count_bounds(spawners: Seq<Spawner>, now_ms: int, a: int, b: int)
    requires
        0 <= a <= b,
    ensures
        ready_count(spawners, now_ms, a) <= ready_count(spawners, now_ms, b),
        ready_count(spawners, now_ms, b) - ready_count(spawners, now_ms, a) <= b - a,
    decreases b - a,
{
    if a < b {
        lemma_ready_count_bounds(spawners, now_ms, a, b - 1);
    }
}

/// Law: an exhausted budget silences the spawner for good, and the
/// concurrency cap is never broken.  Whatever the tick, the spawn allowance
/// is zero once the budget is spent, never exceeds the remaining budget,
/// and never exceeds the room left under the cap.
pub proof fn lemma_allowance_respects_budget_and_cap(to_spawn: int, live: int)
    ensures
        to_spawn <= 0 ==> spawn_allowance(to_spawn, live) == 0,
        live >= ENEMY_CAP ==> spawn_allowance(to_spawn, live) == 0,
        spawn_allowance(to_spawn, live) <= if to_spawn <= 0 {
            0int
        } else {
            to_spawn
        },
        live + spawn_allowance(to_spawn, live) <= if live >= ENEMY_CAP {
            live
        } else {
            ENEMY_CAP as int
        },
        spawn_allowance(to_spawn, live) >= 0,
{
}

/// Whether the spawn point at `i` spawns this tick: it is ready, and the
/// ready points before it have not used the whole allowance.
pub open spec fn spawns_at(spawners: Seq<Spawner>, now_ms: int, allowance: int, i: int) -> bool {
    ready(spawners[i], now_ms) && ready_count(spawners, now_ms, i) < allowance
}

/// Everything the engine needs to create one enemy: where, and with what
/// initial heading (drawn uniformly over a full turn, microradians).
#[derive(Clone, Copy, Debug, PartialEq, Eq, Structural)]
pub struct SpawnRequest {
    pub position: Vec3,
    pub heading_urad: i64,
}

impl World {
    /// One wave-spawner tick.  Every ready spawn point spawns one enemy,
    /// in table order, while the shared budget and the live-enemy cap
    /// allow; each spawn consumes budget, stamps the point with `now_ms`
    /// and redraws its interval.  The returned requests are what the
    /// engine must create (and then register through `add_ship`).
    pub fn spawn_wave(&mut self, now_ms: u64) -> (reqs: Vec<SpawnRequest>)
        requires
            old(self).wf(),
            forall|i: int|
                0 <= i < old(self).spawners@.len() ==> (
                #[trigger] old(self).spawners@[i]).last_spawned_ms <= now_ms,
        ensures
            final(self).wf(),
            final(self).ships@ == old(self).ships@,
            final(self).balls@ == old(self).balls@,
            final(self).counter.dead == old(self).counter.dead,
            final(self).spawners@.len() == old(self).spawners@.len(),
            ({
                let sp0 = old(self).spawners@;
                let allowance = spawn_allowance(
                    old(self).counter.to_spawn as int,
                    enemy_count(old(self).ships@),
                );
                let n = spawned_count(sp0, now_ms as int, allowance, sp0.len() as int);
                &&& reqs@.len() == n
                &&& final(self).counter.to_spawn == old(self).counter.to_spawn - n
                &&& forall|i: int|
                    0 <= i < sp0.len() && spawns_at(sp0, now_ms as int, allowance, i)
                        ==> (#[trigger] final(self).spawners@[i]).position == sp0[i].position
                        && final(self).spawners@[i].last_spawned_ms == now_ms
                        && SPAWN_INTERVAL_MIN_MS <= final(self).spawners@[i].until_next_ms
                        < SPAWN_INTERVAL_MAX_MS && !ready(final(self).spawners@[i], now_ms as int)
                &&& forall|i: int|
                    0 <= i < sp0.len() && !spawns_at(sp0, now_ms as int, allowance, i)
                        ==> #[trigger] final(self).spawners@[i] == sp0[i]
                &&& forall|i: int|
                    0 <= i < sp0.len() && spawns_at(sp0, now_ms as int, allowance, i)
                        ==> (#[trigger] reqs@[spawned_count(sp0, now_ms as int, allowance, i)]).position
                        == sp0[i].position
                &&& forall|k: int|
                    0 <= k < reqs@.len() ==> 0 <= (#[trigger] reqs@[k]).heading_urad < TAU_URAD
            }),
    {
        let ghost sp0 = self.spawners@;
        let ghost now = now_ms as int;
        let live = self.live_enemies();
        let ghost allowance = spawn_allowance(
            old(self).counter.to_spawn as int,
            enemy_count(old(self).ships@),
        );
        let mut slots: usize = if live >= ENEMY_CAP {
            0
        } else {
            ENEMY_CAP - live
        };
        let ghost cap_room = slots as int;
        let mut reqs: Vec<SpawnRequest> = Vec::new();
        let mut i: usize = 0;
        while i < self.spawners.len()
            invariant
                old(self).wf(),
                forall|j: int|
                    0 <= j < old(self).spawners@.len() ==> (
                    #[trigger] old(self).spawners@[j]).last_spawned_ms <= now_ms,
                sp0 == old(self).spawners@,
                now == now_ms as int,
                allowance == spawn_allowance(
                    old(self).counter.to_spawn as int,
                    enemy_count(old(self).ships@),
                ),
                i <= sp0.len(),
                self.spawners@.len() == sp0.len(),
                self.ships@ == old(self).ships@,
                self.balls@ == old(self).balls@,
                self.counter.dead == old(self).counter.dead,
                reqs@.len() == spawned_count(sp0, now, allowance, i as int),
                self.counter.to_spawn == old(self).counter.to_spawn - reqs@.len(),
                self.counter.to_spawn >= 0,
                cap_room == (if enemy_count(old(self).ships@) >= ENEMY_CAP {
                    0int
                } else {
                    ENEMY_CAP - enemy_count(old(self).ships@)
                }),
                slots as int == cap_room - reqs@.len(),
                allowance <= cap_room,
                allowance <= old(self).counter.to_spawn,
                live as int == enemy_count(old(self).ships@),
                forall|j: int| i <= j < sp0.len() ==> #[trigger] self.spawners@[j] == sp0[j],
                forall|j: int|
                    0 <= j < i && spawns_at(sp0, now, allowance, j) ==> (
                    #[trigger] self.spawners@[j]).position == sp0[j].position
                        && self.spawners@[j].last_spawned_ms == now_ms && SPAWN_INTERVAL_MIN_MS
                        <= self.spawners@[j].until_next_ms < SPAWN_INTERVAL_MAX_MS,
                forall|j: int|
                    0 <= j < i && !spawns_at(sp0, now, allowance, j)
                        ==> #[trigger] self.spawners@[j] == sp0[j],
                forall|j: int|
                    0 <= j < i && spawns_at(sp0, now, allowance, j) ==> (
                    #[trigger] reqs@[spawned_count(sp0, now, allowance, j)]).position
                        == sp0[j].position,
                forall|k: int|
                    0 <= k < reqs@.len() ==> 0 <= (#[trigger] reqs@[k]).heading_urad < TAU_URAD,
            decreases sp0.len() - i,
        {
            let s = self.spawners[i];
            let is_ready = now_ms - s.last_spawned_ms > s.until_next_ms;
            let can_spawn = self.counter.to_spawn > 0 && slots > 0;
            if is_ready && can_spawn {
                let interval = gen_range_u64(SPAWN_INTERVAL_MIN_MS, SPAWN_INTERVAL_MAX_MS);
                let heading = gen_range_u64(0, TAU_URAD as u64) as i64;
                self.spawners.set(
                    i,
                    Spawner {
                        position: s.position,
                        last_spawned_ms: now_ms,
                        until_next_ms: interval,
                    },
                );
                let ghost reqs0 = reqs@;
                let req = SpawnRequest { position: s.position, heading_urad: heading };
                reqs.push(req);
                self.counter.to_spawn = self.counter.to_spawn - 1;
                slots = slots - 1;
                proof {
                    assert(reqs@ == reqs0.push(req));
                    assert forall|j: int|
                        0 <= j < i + 1 && spawns_at(sp0, now, allowance, j) implies (
                    #[trigger] reqs@[spawned_count(sp0, now, allowance, j)]).position
                        == sp0[j].position by {
                        if j < i {
                            lemma_ready_count_bounds(sp0, now, 0, j);
                            lemma_ready_count_bounds(sp0, now, j + 1, i as int);
                            assert(ready_count(sp0, now, 0) == 0);
                            assert(ready_count(sp0, now, j + 1) == ready_count(sp0, now, j) + 1);
                            assert(spawned_count(sp0, now, allowance, j) < reqs0.len());
                            assert(reqs0[spawned_count(sp0, now, allowance, j)].position
                                == sp0[j].position);
                            assert(reqs0.push(req)[spawned_count(sp0, now, allowance, j)]
                                == reqs0[spawned_count(sp0, now, allowance, j)]);
                        } else {
                            assert(spawned_count(sp0, now, allowance, i as int) == reqs0.len());
                            assert(reqs0.push(req)[reqs0.len() as int] == req);
                        }
                    }
                }
            }
            i += 1;
        }
        reqs
    }
}

} // verus!
