//! The simulation's entity state: typed side-tables keyed by the engine's
//! opaque entity identifiers.  Ships carry wheel, health and role; live
//! cannonballs are a bare set of identifiers; the enemy census threads
//! through as an explicit counter.  Contact resolution, dead-enemy culling
//! and laser kills all happen here.

use vstd::prelude::*;
use crate::spawner::Spawner;
use crate::steering::{clamp_angle, SteeringWheel, PI_URAD, STEERING_LIMIT_URAD};

verus! {

/// Health a ship loses on one contact event.
pub const CONTACT_DAMAGE: i32 = 10;

/// The player ship's starting health.
pub const PLAYER_START_HEALTH: i32 = 200;

/// An enemy ship's starting health.
pub const ENEMY_START_HEALTH: i32 = 40;

/// Total enemies the wave spawner may create over a session.
pub const ENEMY_BUDGET: i32 = 10;

/// Whether a ship is the player or one of the wave's enemies.
#[derive(Clone, Copy, Debug, PartialEq, Eq, Structural)]
pub enum Role {
    Player,
    Enemy,
}

/// A ship: its wheel, its (signed) health, and its role.
#[derive(Clone, Copy, Debug, PartialEq, Eq, Structural)]
pub struct Ship {
    pub wheel: SteeringWheel,
    pub health: i32,
    pub role: Role,
}

impl Ship {
    /// A ship is well formed when its wheel is.
    pub open spec fn wf(self) -> bool {
        self.wheel.wf()
    }

    pub open spec fn is_enemy(self) -> bool {
        self.role is Enemy
    }

    /// The player ship as set up at the start of a session.
    pub fn new_player() -> (s: Ship)
        ensures
            s.health == PLAYER_START_HEALTH,
            s.role is Player,
            s.wheel.angle_urad == 0,
            s.wf(),
    {
        Ship { wheel: SteeringWheel::new(), health: PLAYER_START_HEALTH, role: Role::Player }
    }

    /// An enemy ship as the wave spawner creates it.
    pub fn new_enemy() -> (s: Ship)
        ensures
            s.health == ENEMY_START_HEALTH,
            s.role is Enemy,
            s.wheel.angle_urad == 0,
            s.wf(),
    {
        Ship { wheel: SteeringWheel::new(), health: ENEMY_START_HEALTH, role: Role::Enemy }
    }
}

/// A ship side-table entry: engine identifier and the ship it carries.
#[derive(Clone, Copy, Debug, PartialEq, Eq, Structural)]
pub struct ShipEntry {
    pub id: u64,
    pub ship: Ship,
}

/// The enemy census: how many enemies the spawner may still create, and how
/// many have been destroyed.
#[derive(Clone, Copy, Debug, PartialEq, Eq, Structural)]
pub struct EnemyCounter {
    pub to_spawn: i32,
    pub dead: i32,
}

impl EnemyCounter {
    pub open spec fn wf(self) -> bool {
        self.to_spawn >= 0 && self.dead >= 0
    }

    /// A fresh census with the whole budget ahead and no kills.
    pub fn new(budget: i32) -> (c: EnemyCounter)
        requires
            budget >= 0,
        ensures
            c.to_spawn == budget,
            c.dead == 0,
            c.wf(),
    {
        EnemyCounter { to_spawn: budget, dead: 0 }
    }

    /// What the display shows as enemies left: the session total minus the
    /// kills so far.
    pub fn enemies_left(&self, total: i32) -> (n: i32)
        requires
            total >= 0,
            self.dead >= 0,
        ensures
            n == total - self.dead,
    {
        total - self.dead
    }
}

/// One contact-start event from the physics feed: the two entities that
/// touched.
#[derive(Clone, Copy, Debug, PartialEq, Eq, Structural)]
pub struct ContactPair {
    pub a: u64,
    pub b: u64,
}

/// One cannonball's reported altitude this tick, in micro-units.
#[derive(Clone, Copy, Debug, PartialEq, Eq, Structural)]
pub struct BallReport {
    pub id: u64,
    pub y_u: i64,
}

/// Whether the report drives this ball below the water line.
pub open spec fn reported_sunk(report: Seq<BallReport>, id: u64) -> bool {
    exists|i: int| 0 <= i < report.len() && report[i].id == id && report[i].y_u < 0
}

/// Whether some ship entry carries this identifier.
pub open spec fn has_ship_id(ships: Seq<ShipEntry>, id: u64) -> bool {
    exists|i: int| 0 <= i < ships.len() && ships[i].id == id
}

/// Whether some entry is the player.
pub open spec fn has_player(ships: Seq<ShipEntry>) -> bool {
    exists|i: int| 0 <= i < ships.len() && ships[i].ship.role is Player
}

/// Health after one contact: ten less, floored at the type's bottom.
pub open spec fn damaged_health(h: int) -> int {
    if h - CONTACT_DAMAGE >= i32::MIN {
        h - CONTACT_DAMAGE
    } else {
        i32::MIN as int
    }
}

/// The entry, its ship hit once.
pub open spec fn damage_entry(e: ShipEntry) -> ShipEntry {
    ShipEntry {
        id: e.id,
        ship: Ship {
            wheel: e.ship.wheel,
            health: damaged_health(e.ship.health as int) as i32,
            role: e.ship.role,
        },
    }
}

/// Hit every entry carrying `id` (identifiers are unique, so at most one).
pub open spec fn damage_ships(ships: Seq<ShipEntry>, id: u64) -> Seq<ShipEntry> {
    Seq::new(
        ships.len(),
        |i: int|
            if ships[i].id == id {
                damage_entry(ships[i])
            } else {
                ships[i]
            },
    )
}

/// Mid-resolution state of one contact pass: the ships as damaged so far,
/// and the cannonballs marked for the deferred despawn flush.
pub struct ContactState {
    pub ships: Seq<ShipEntry>,
    pub removed: Seq<u64>,
}

/// The state a contact pass starts from: no ball marked yet.
pub open spec fn start_state(ships: Seq<ShipEntry>) -> ContactState {
    ContactState { ships, removed: Seq::empty() }
}

/// Resolve one side of a contact pair.  A cannonball (judged against the
/// tick-start ball set: despawns are deferred to the flush) is marked
/// destroyed; otherwise a ship carrying the identifier takes one hit; an
/// identifier that is neither is ignored.
pub open spec fn resolve_side(balls: Seq<u64>, st: ContactState, h: u64) -> ContactState {
    if balls.contains(h) {
        ContactState { ships: st.ships, removed: st.removed.push(h) }
    } else {
        ContactState { ships: damage_ships(st.ships, h), removed: st.removed }
    }
}

/// Resolve one contact event: first side, then the other.
pub open spec fn resolve_event(balls: Seq<u64>, st: ContactState, e: ContactPair) -> ContactState {
    resolve_side(balls, resolve_side(balls, st, e.a), e.b)
}

/// Resolve a whole tick's event feed, in order.
pub open spec fn resolve_events(
    balls: Seq<u64>,
    st: ContactState,
    events: Seq<ContactPair>,
) -> ContactState
    decreases events.len(),
{
    if events.len() == 0 {
        st
    } else {
        resolve_events(balls, resolve_event(balls, st, events[0]), events.drop_first())
    }
}

/// A ball survives the flush when it neither sank nor contacted anything.
pub open spec fn ball_kept(report: Seq<BallReport>, removed: Seq<u64>, id: u64) -> bool {
    !reported_sunk(report, id) && !removed.contains(id)
}

/// The flush predicate as a function value, so every use names the same
/// function.
pub open spec fn keep_pred(report: Seq<BallReport>, removed: Seq<u64>) -> spec_fn(u64) -> bool {
    |id: u64| ball_kept(report, removed, id)
}

/// The balls left after the deferred despawn flush.
pub open spec fn flush_balls(balls: Seq<u64>, report: Seq<BallReport>, removed: Seq<u64>) -> Seq<
    u64,
> {
    balls.filter(keep_pred(report, removed))
}

/// The complement of the flush predicate, as the same function value
/// everywhere.
pub open spec fn drop_pred(report: Seq<BallReport>, removed: Seq<u64>) -> spec_fn(u64) -> bool {
    |id: u64| !ball_kept(report, removed, id)
}

/// The balls the deferred despawn flush destroys, in order.
pub open spec fn flushed_out(balls: Seq<u64>, report: Seq<BallReport>, removed: Seq<u64>) -> Seq<
    u64,
> {
    balls.filter(drop_pred(report, removed))
}

/// The whole simulation entity state.
pub struct World {
    pub ships: Vec<ShipEntry>,
    pub balls: Vec<u64>,
    pub counter: EnemyCounter,
    pub spawners: Vec<Spawner>,
}

impl World {
    /// Ship identifiers are unique, no cannonball shares an identifier with
    /// a ship, there is at most one player, every ship and spawner is well
    /// formed, and the census is nonnegative.
    pub open spec fn wf(self) -> bool {
        &&& forall|i: int, j: int|
            0 <= i < j < self.ships@.len() ==> self.ships@[i].id != self.ships@[j].id
        &&& forall|i: int, j: int|
            0 <= i < self.ships@.len() && 0 <= j < self.balls@.len() ==> self.ships@[i].id
                != self.balls@[j]
        &&& forall|i: int, j: int|
            0 <= i < j < self.ships@.len() ==> !(self.ships@[i].ship.role is Player
                && self.ships@[j].ship.role is Player)
        &&& forall|i: int| 0 <= i < self.ships@.len() ==> (#[trigger] self.ships@[i]).ship.wf()
        &&& forall|i: int| 0 <= i < self.spawners@.len() ==> (#[trigger] self.spawners@[i]).wf()
        &&& self.counter.wf()
    }

    /// An empty world with the session's spawn budget.
    pub fn new(budget: i32) -> (w: World)
        requires
            budget >= 0,
        ensures
            w.wf(),
            w.ships@.len() == 0,
            w.balls@.len() == 0,
            w.spawners@.len() == 0,
            w.counter.to_spawn == budget,
            w.counter.dead == 0,
    {
        World {
            ships: Vec::new(),
            balls: Vec::new(),
            counter: EnemyCounter::new(budget),
            spawners: Vec::new(),
        }
    }

    /// Register a ship the engine has created.
    pub fn add_ship(&mut self, id: u64, ship: Ship)
        requires
            old(self).wf(),
            ship.wf(),
            !has_ship_id(old(self).ships@, id),
            !old(self).balls@.contains(id),
            ship.role is Player ==> !has_player(old(self).ships@),
        ensures
            final(self).wf(),
            final(self).ships@ == old(self).ships@.push(ShipEntry { id, ship }),
            final(self).balls@ == old(self).balls@,
            final(self).counter == old(self).counter,
            final(self).spawners@ == old(self).spawners@,
    {
        self.ships.push(ShipEntry { id, ship });
    }

    /// Register a cannonball the engine has created.
    pub fn add_ball(&mut self, id: u64)
        requires
            old(self).wf(),
            !has_ship_id(old(self).ships@, id),
        ensures
            final(self).wf(),
            final(self).balls@ == old(self).balls@.push(id),
            final(self).ships@ == old(self).ships@,
            final(self).counter == old(self).counter,
            final(self).spawners@ == old(self).spawners@,
    {
        self.balls.push(id);
    }

    /// Register a spawn point.
    pub fn add_spawner(&mut self, s: Spawner)
        requires
            old(self).wf(),
            s.wf(),
        ensures
            final(self).wf(),
            final(self).spawners@ == old(self).spawners@.push(s),
            final(self).ships@ == old(self).ships@,
            final(self).balls@ == old(self).balls@,
            final(self).counter == old(self).counter,
    {
        self.spawners.push(s);
    }

    /// Look a ship up by identifier.
    pub fn get_ship(&self, id: u64) -> (r: Option<Ship>)
        requires
            self.wf(),
        ensures
            (r is Some) == has_ship_id(self.ships@, id),
            r matches Some(s) ==> exists|i: int|
                0 <= i < self.ships@.len() && self.ships@[i].id == id && self.ships@[i].ship == s,
    {
        let mut i: usize = 0;
        while i < self.ships.len()
            invariant
                i <= self.ships@.len(),
                forall|j: int| 0 <= j < i ==> self.ships@[j].id != id,
            decreases self.ships@.len() - i,
        {
            if self.ships[i].id == id {
                return Some(self.ships[i].ship);
            }
            i += 1;
        }
        None
    }
}

/// Whether a plain vector of identifiers holds `id`.
pub fn ids_contain(v: &Vec<u64>, id: u64) -> (r: bool)
    ensures
        r == v@.contains(id),
{
    let mut i: usize = 0;
    while i < v.len()
        invariant
            i <= v@.len(),
            forall|j: int| 0 <= j < i ==> v@[j] != id,
        decreases v@.len() - i,
    {
        if v[i] == id {
            assert(v@[i as int] == id);
            return true;
        }
        i += 1;
    }
    false
}

/// Whether the altitude report drives `id` below the water line.
pub fn ball_sunk(report: &Vec<BallReport>, id: u64) -> (r: bool)
    ensures
        r == reported_sunk(report@, id),
{
    let mut i: usize = 0;
    while i < report.len()
        invariant
            i <= report@.len(),
            forall|j: int| 0 <= j < i ==> !(report@[j].id == id && report@[j].y_u < 0),
        decreases report@.len() - i,
    {
        if report[i].id == id && report[i].y_u < 0 {
            assert(report@[i as int].id == id && report@[i as int].y_u < 0);
            return true;
        }
        i += 1;
    }
    false
}

/// Hit every ship entry carrying `id` once, in place.
fn damage_one(ships: &mut Vec<ShipEntry>, id: u64)
    ensures
        final(ships)@ == damage_ships(old(ships)@, id),
{
    let ghost s0 = ships@;
    let mut i: usize = 0;
    while i < ships.len()
        invariant
            i <= ships@.len(),
            ships@.len() == s0.len(),
            forall|j: int| i <= j < s0.len() ==> ships@[j] == s0[j],
            forall|j: int| 0 <= j < i ==> ships@[j] == damage_ships(s0, id)[j],
        decreases ships@.len() - i,
    {
        let e = ships[i];
        if e.id == id {
            let nh = if e.ship.health >= i32::MIN + CONTACT_DAMAGE {
                e.ship.health - CONTACT_DAMAGE
            } else {
                i32::MIN
            };
            ships.set(
                i,
                ShipEntry {
                    id: e.id,
                    ship: Ship { wheel: e.ship.wheel, health: nh, role: e.ship.role },
                },
            );
        }
        i += 1;
    }
    assert(ships@ =~= damage_ships(s0, id));
}

/// Folding one more event into a resolution pass appends its effect.
proof fn lemma_resolve_events_push(
    balls: Seq<u64>,
    st: ContactState,
    events: Seq<ContactPair>,
    e: ContactPair,
)
    ensures
        resolve_events(balls, st, events.push(e)) == resolve_event(
            balls,
            resolve_events(balls, st, events),
            e,
        ),
    decreases events.len(),
{
    reveal_with_fuel(resolve_events, 2);
    assert(events.push(e).len() == events.len() + 1);
    if events.len() == 0 {
        assert(events.push(e)[0] == e);
        assert(events.push(e).drop_first() =~= events);
    } else {
        assert(events.push(e)[0] == events[0]);
        assert(events.push(e).drop_first() =~= events.drop_first().push(e));
        lemma_resolve_events_push(balls, resolve_event(balls, st, events[0]), events.drop_first(), e);
    }
}

/// Resolution only rewrites health: identifiers, roles and wheels ride
/// through untouched.
proof fn lemma_resolve_events_preserves(balls: Seq<u64>, st: ContactState, events: Seq<ContactPair>)
    ensures
        ({
            let end = resolve_events(balls, st, events);
            &&& end.ships.len() == st.ships.len()
            &&& forall|j: int|
                0 <= j < st.ships.len() ==> (#[trigger] end.ships[j]).id == st.ships[j].id
                    && end.ships[j].ship.role == st.ships[j].ship.role && end.ships[j].ship.wheel
                    == st.ships[j].ship.wheel
        }),
    decreases events.len(),
{
    if events.len() > 0 {
        lemma_resolve_events_preserves(
            balls,
            resolve_event(balls, st, events[0]),
            events.drop_first(),
        );
    }
}

/// Appending to a ball list steps the flush by one ball, on both sides of
/// the split.
proof fn lemma_flush_push(balls: Seq<u64>, x: u64, report: Seq<BallReport>, removed: Seq<u64>)
    ensures
        flush_balls(balls.push(x), report, removed) == if ball_kept(report, removed, x) {
            flush_balls(balls, report, removed).push(x)
        } else {
            flush_balls(balls, report, removed)
        },
        flushed_out(balls.push(x), report, removed) == if ball_kept(report, removed, x) {
            flushed_out(balls, report, removed)
        } else {
            flushed_out(balls, report, removed).push(x)
        },
{
    reveal(Seq::filter);
    assert(balls.push(x).drop_last() =~= balls);
}

impl World {
    /// One projectile/contact tick.  First every cannonball the altitude
    /// report drives below the water line is marked to sink; then the
    /// contact feed is drained in order, each side of each pair destroying
    /// a cannonball or damaging a ship; finally the deferred despawns
    /// flush.  The returned list holds the identifiers of every ball
    /// despawned this tick, for the engine to destroy.
    pub fn projectile_tick(&mut self, report: &Vec<BallReport>, events: &Vec<ContactPair>) -> (gone:
        Vec<u64>)
        requires
            old(self).wf(),
        ensures
            final(self).wf(),
            final(self).counter == old(self).counter,
            final(self).spawners@ == old(self).spawners@,
            ({
                let end = resolve_events(old(self).balls@, start_state(old(self).ships@), events@);
                &&& final(self).ships@ == end.ships
                &&& final(self).balls@ == flush_balls(old(self).balls@, report@, end.removed)
                &&& gone@ == flushed_out(old(self).balls@, report@, end.removed)
                &&& forall|id: u64|
                    #[trigger] final(self).balls@.contains(id) == (old(self).balls@.contains(id)
                        && ball_kept(report@, end.removed, id))
            }),
            // A ball driven below the water line never survives the tick,
            // whatever the contact feed held.
            forall|id: u64|
                reported_sunk(report@, id) ==> !final(self).balls@.contains(id),
    {
        let ghost b0 = self.balls@;
        let ghost s0 = self.ships@;
        let ghost init = start_state(s0);
        let mut removed: Vec<u64> = Vec::new();
        let mut k: usize = 0;
        while k < events.len()
            invariant
                k <= events@.len(),
                self.balls@ == b0,
                self.counter == old(self).counter,
                self.spawners@ == old(self).spawners@,
                ({
                    let st = resolve_events(b0, init, events@.take(k as int));
                    self.ships@ == st.ships && removed@ == st.removed
                }),
            decreases events@.len() - k,
        {
            proof {
                assert(events@.take(k as int + 1) =~= events@.take(k as int).push(
                    events@[k as int],
                ));
                lemma_resolve_events_push(b0, init, events@.take(k as int), events@[k as int]);
            }
            let e = events[k];
            if ids_contain(&self.balls, e.a) {
                removed.push(e.a);
            } else {
                damage_one(&mut self.ships, e.a);
            }
            if ids_contain(&self.balls, e.b) {
                removed.push(e.b);
            } else {
                damage_one(&mut self.ships, e.b);
            }
            k += 1;
        }
        proof {
            assert(events@.take(events@.len() as int) =~= events@);
        }
        let ghost end = resolve_events(b0, init, events@);
        // Deferred despawn flush: rebuild the live-ball list.
        let mut kept: Vec<u64> = Vec::new();
        let mut gone: Vec<u64> = Vec::new();
        proof {
            assert(b0.take(0) =~= Seq::<u64>::empty());
            assert(flush_balls(Seq::<u64>::empty(), report@, end.removed) =~= Seq::<u64>::empty())
                by {
                reveal(Seq::filter);
            }
            assert(flushed_out(Seq::<u64>::empty(), report@, end.removed) =~= Seq::<u64>::empty())
                by {
                reveal(Seq::filter);
            }
        }
        let mut i: usize = 0;
        while i < self.balls.len()
            invariant
                i <= self.balls@.len(),
                self.balls@ == b0,
                removed@ == end.removed,
                kept@ == flush_balls(b0.take(i as int), report@, end.removed),
                gone@ == flushed_out(b0.take(i as int), report@, end.removed),
                forall|j: int| 0 <= j < kept@.len() ==> b0.contains(#[trigger] kept@[j]),
            decreases self.balls@.len() - i,
        {
            proof {
                assert(b0.take(i as int + 1) =~= b0.take(i as int).push(b0[i as int]));
                lemma_flush_push(b0.take(i as int), b0[i as int], report@, end.removed);
            }
            let id = self.balls[i];
            let keep = !ball_sunk(report, id) && !ids_contain(&removed, id);
            if keep {
                kept.push(id);
            } else {
                gone.push(id);
            }
            i += 1;
        }
        proof {
            assert(b0.take(b0.len() as int) =~= b0);
        }
        self.balls = kept;
        proof {
            lemma_resolve_events_preserves(b0, init, events@);
            let fin = self.balls@;
            assert forall|id: u64|
                fin.contains(id) == (b0.contains(id) && ball_kept(report@, end.removed, id)) by {
                if fin.contains(id) {
                    let j = choose|j: int| 0 <= j < fin.len() && fin[j] == id;
                    assert(b0.contains(fin[j]));
                    assert(ball_kept(report@, end.removed, id)) by {
                        b0.lemma_filter_pred(keep_pred(report@, end.removed), j);
                    }
                }
                if b0.contains(id) && ball_kept(report@, end.removed, id) {
                    let m = choose|m: int| 0 <= m < b0.len() && b0[m] == id;
                    b0.lemma_filter_contains(keep_pred(report@, end.removed), m);
                }
            }
            // Well-formedness survives the tick: identifiers, roles and
            // wheels rode through, and the kept balls all come from the
            // tick-start ball set.
            assert forall|i: int, j: int|
                0 <= i < self.ships@.len() && 0 <= j < fin.len() implies self.ships@[i].id
                != fin[j] by {
                assert(b0.contains(fin[j]));
                let m = choose|m: int| 0 <= m < b0.len() && b0[m] == fin[j];
                assert(old(self).ships@[i].id != b0[m]);
            }
        }
        gone
    }
}

/// Every entry carrying `id`, its wheel turned by `delta` (clamped, as all
/// wheel mutations are); identifiers are unique, so at most one.
pub open spec fn turned_ships(ships: Seq<ShipEntry>, id: u64, delta: int) -> Seq<ShipEntry> {
    Seq::new(
        ships.len(),
        |i: int|
            if ships[i].id == id {
                ShipEntry {
                    id: ships[i].id,
                    ship: Ship {
                        wheel: SteeringWheel {
                            angle_urad: clamp_angle(ships[i].ship.wheel.angle_urad + delta) as i64,
                        },
                        health: ships[i].ship.health,
                        role: ships[i].ship.role,
                    },
                }
            } else {
                ships[i]
            },
    )
}

/// Every entry carrying `id`, its wheel overwritten with `angle` (clamped);
/// identifiers are unique, so at most one.
pub open spec fn steered_ships(ships: Seq<ShipEntry>, id: u64, angle: int) -> Seq<ShipEntry> {
    Seq::new(
        ships.len(),
        |i: int|
            if ships[i].id == id {
                ShipEntry {
                    id: ships[i].id,
                    ship: Ship {
                        wheel: SteeringWheel { angle_urad: clamp_angle(angle) as i64 },
                        health: ships[i].ship.health,
                        role: ships[i].ship.role,
                    },
                }
            } else {
                ships[i]
            },
    )
}

impl World {
    /// Turn the wheel of the ship carrying `id` by `delta_urad` (the
    /// player-input path).  Reports whether such a ship exists.
    pub fn turn_ship(&mut self, id: u64, delta_urad: i64) -> (found: bool)
        requires
            old(self).wf(),
        ensures
            final(self).wf(),
            found == has_ship_id(old(self).ships@, id),
            final(self).ships@ == turned_ships(old(self).ships@, id, delta_urad as int),
            final(self).balls@ == old(self).balls@,
            final(self).counter == old(self).counter,
            final(self).spawners@ == old(self).spawners@,
    {
        let ghost s0 = self.ships@;
        let mut found = false;
        let mut i: usize = 0;
        while i < self.ships.len()
            invariant
                old(self).wf(),
                s0 == old(self).ships@,
                i <= s0.len(),
                self.ships@.len() == s0.len(),
                self.balls@ == old(self).balls@,
                self.counter == old(self).counter,
                self.spawners@ == old(self).spawners@,
                forall|j: int| i <= j < s0.len() ==> self.ships@[j] == s0[j],
                forall|j: int|
                    0 <= j < i ==> self.ships@[j] == turned_ships(s0, id, delta_urad as int)[j],
                found ==> has_ship_id(s0, id),
                !found ==> forall|j: int| 0 <= j < i ==> s0[j].id != id,
            decreases s0.len() - i,
        {
            let e = self.ships[i];
            if e.id == id {
                let sum: i128 = e.ship.wheel.angle_urad as i128 + delta_urad as i128;
                let na: i64 = if sum > STEERING_LIMIT_URAD as i128 {
                    STEERING_LIMIT_URAD
                } else if sum < -STEERING_LIMIT_URAD as i128 {
                    -STEERING_LIMIT_URAD
                } else {
                    sum as i64
                };
                self.ships.set(
                    i,
                    ShipEntry {
                        id: e.id,
                        ship: Ship {
                            wheel: SteeringWheel { angle_urad: na },
                            health: e.ship.health,
                            role: e.ship.role,
                        },
                    },
                );
                found = true;
                proof {
                    assert(s0[i as int].id == id);
                    assert(has_ship_id(s0, id));
                }
            }
            i += 1;
        }
        proof {
            assert(self.ships@ =~= turned_ships(s0, id, delta_urad as int));
            if !found {
                assert(!has_ship_id(s0, id));
            }
        }
        found
    }

    /// Overwrite the wheel of the ship carrying `id` with the AI's
    /// commanded flanking angle (see `crate::ai`).  Reports whether such a
    /// ship exists.
    pub fn ai_steer_ship(&mut self, id: u64, angle_to_player_urad: i64, player_is_left: bool) -> (found:
        bool)
        requires
            old(self).wf(),
            0 <= angle_to_player_urad <= PI_URAD,
        ensures
            final(self).wf(),
            found == has_ship_id(old(self).ships@, id),
            final(self).ships@ == steered_ships(
                old(self).ships@,
                id,
                if player_is_left {
                    6 * angle_to_player_urad as int
                } else {
                    -6 * angle_to_player_urad as int
                },
            ),
            final(self).balls@ == old(self).balls@,
            final(self).counter == old(self).counter,
            final(self).spawners@ == old(self).spawners@,
    {
        let a = crate::ai::ai_steering_angle(angle_to_player_urad, player_is_left);
        let ghost angle = a as int;
        let ghost s0 = self.ships@;
        let mut found = false;
        let mut i: usize = 0;
        while i < self.ships.len()
            invariant
                old(self).wf(),
                s0 == old(self).ships@,
                -STEERING_LIMIT_URAD <= a <= STEERING_LIMIT_URAD,
                angle == a as int,
                i <= s0.len(),
                self.ships@.len() == s0.len(),
                self.balls@ == old(self).balls@,
                self.counter == old(self).counter,
                self.spawners@ == old(self).spawners@,
                forall|j: int| i <= j < s0.len() ==> self.ships@[j] == s0[j],
                forall|j: int| 0 <= j < i ==> self.ships@[j] == steered_ships(s0, id, angle)[j],
                found ==> has_ship_id(s0, id),
                !found ==> forall|j: int| 0 <= j < i ==> s0[j].id != id,
            decreases s0.len() - i,
        {
            let e = self.ships[i];
            if e.id == id {
                self.ships.set(
                    i,
                    ShipEntry {
                        id: e.id,
                        ship: Ship {
                            wheel: SteeringWheel { angle_urad: a },
                            health: e.ship.health,
                            role: e.ship.role,
                        },
                    },
                );
                found = true;
                proof {
                    assert(s0[i as int].id == id);
                    assert(has_ship_id(s0, id));
                }
            }
            i += 1;
        }
        proof {
            assert(self.ships@ =~= steered_ships(s0, id, angle));
            if !found {
                assert(!has_ship_id(s0, id));
            }
        }
        found
    }
}

/// A ship survives the cull when it is the player or still has health.
pub open spec fn keep_ship(e: ShipEntry) -> bool {
    e.ship.role is Player || e.ship.health > 0
}

/// The cull predicate as a single function value.
pub open spec fn keep_ship_pred() -> spec_fn(ShipEntry) -> bool {
    |e: ShipEntry| keep_ship(e)
}

/// The ships left after dead enemies are culled.
pub open spec fn surviving_ships(ships: Seq<ShipEntry>) -> Seq<ShipEntry> {
    ships.filter(keep_ship_pred())
}

/// The identifiers of the dead enemies a cull removes, in table order.
pub open spec fn culled_ids(ships: Seq<ShipEntry>) -> Seq<u64>
    decreases ships.len(),
{
    if ships.len() == 0 {
        Seq::empty()
    } else {
        let rest = culled_ids(ships.drop_last());
        if keep_ship(ships.last()) {
            rest
        } else {
            rest.push(ships.last().id)
        }
    }
}

/// Appending one entry steps both halves of the cull.
proof fn lemma_cull_push(s: Seq<ShipEntry>, x: ShipEntry)
    ensures
        surviving_ships(s.push(x)) == if keep_ship(x) {
            surviving_ships(s).push(x)
        } else {
            surviving_ships(s)
        },
        culled_ids(s.push(x)) == if keep_ship(x) {
            culled_ids(s)
        } else {
            culled_ids(s).push(x.id)
        },
{
    reveal(Seq::filter);
    assert(s.push(x).drop_last() =~= s);
}

/// Whether one of the first `n` entries is exactly `e`.
pub open spec fn entry_in_prefix(ships: Seq<ShipEntry>, n: int, e: ShipEntry) -> bool {
    exists|m: int| 0 <= m < n && ships[m] == e
}

/// Whether some entry carries `id` and an enemy ship.
pub open spec fn is_enemy_id(ships: Seq<ShipEntry>, id: u64) -> bool {
    exists|i: int| 0 <= i < ships.len() && ships[i].id == id && ships[i].ship.role is Enemy
}

/// How many entries carry enemy ships: the live-enemy census.
pub open spec fn enemy_count(ships: Seq<ShipEntry>) -> int
    decreases ships.len(),
{
    if ships.len() == 0 {
        0int
    } else {
        enemy_count(ships.drop_last()) + if ships.last().ship.role is Enemy {
            1int
        } else {
            0int
        }
    }
}

impl World {
    /// Cull the dead: every enemy whose health has reached zero or below is
    /// despawned and counted as a kill, before any steering is computed.
    /// Returns the despawned identifiers for the engine to destroy.
    pub fn cull_dead_enemies(&mut self) -> (culled: Vec<u64>)
        requires
            old(self).wf(),
            old(self).counter.dead + old(self).ships@.len() <= i32::MAX,
        ensures
            final(self).wf(),
            final(self).ships@ == surviving_ships(old(self).ships@),
            culled@ == culled_ids(old(self).ships@),
            final(self).counter.dead == old(self).counter.dead + culled@.len(),
            final(self).counter.to_spawn == old(self).counter.to_spawn,
            final(self).balls@ == old(self).balls@,
            final(self).spawners@ == old(self).spawners@,
    {
        let ghost s0 = self.ships@;
        let mut kept: Vec<ShipEntry> = Vec::new();
        let mut culled: Vec<u64> = Vec::new();
        proof {
            assert(s0.take(0) =~= Seq::<ShipEntry>::empty());
            assert(surviving_ships(Seq::<ShipEntry>::empty()) =~= Seq::<ShipEntry>::empty()) by {
                reveal(Seq::filter);
            }
        }
        let mut i: usize = 0;
        while i < self.ships.len()
            invariant
                i <= self.ships@.len(),
                self.ships@ == s0,
                kept@ == surviving_ships(s0.take(i as int)),
                culled@ == culled_ids(s0.take(i as int)),
                kept@.len() + culled@.len() == i,
                forall|j: int|
                    0 <= j < kept@.len() ==> entry_in_prefix(s0, i as int, #[trigger] kept@[j]),
            decreases self.ships@.len() - i,
        {
            proof {
                assert(s0.take(i as int + 1) =~= s0.take(i as int).push(s0[i as int]));
                lemma_cull_push(s0.take(i as int), s0[i as int]);
            }
            let ghost kept0 = kept@;
            let e = self.ships[i];
            let keep = match e.ship.role {
                Role::Player => true,
                Role::Enemy => e.ship.health > 0,
            };
            if keep {
                kept.push(e);
            } else {
                culled.push(e.id);
            }
            proof {
                assert forall|j: int|
                    0 <= j < kept@.len() implies entry_in_prefix(
                    s0,
                    i as int + 1,
                    #[trigger] kept@[j],
                ) by {
                    if j < kept0.len() {
                        assert(entry_in_prefix(s0, i as int, kept0[j]));
                        let m = choose|m: int| 0 <= m < i && s0[m] == kept0[j];
                        assert(0 <= m < i + 1 && s0[m] == kept@[j]);
                    } else {
                        assert(s0[i as int] == kept@[j]);
                    }
                }
            }
            i += 1;
        }
        proof {
            assert(s0.take(s0.len() as int) =~= s0);
        }
        // The survivors inherit well-formedness from their source entries.
        proof {
            assert forall|p: int, q: int| 0 <= p < q < kept@.len() implies kept@[p].id
                != kept@[q].id && !(kept@[p].ship.role is Player
                && kept@[q].ship.role is Player) by {
                lemma_surviving_distinct_sources(s0, p, q);
            }
            assert forall|j: int| 0 <= j < kept@.len() implies (#[trigger] kept@[j]).ship.wf() by {
                assert(entry_in_prefix(s0, s0.len() as int, kept@[j]));
                let m = choose|m: int| 0 <= m < s0.len() && s0[m] == kept@[j];
            }
            assert forall|j: int, b: int|
                0 <= j < kept@.len() && 0 <= b < self.balls@.len() implies #[trigger] kept@[j].id
                != #[trigger] self.balls@[b] by {
                assert(entry_in_prefix(s0, s0.len() as int, kept@[j]));
                let m = choose|m: int| 0 <= m < s0.len() && s0[m] == kept@[j];
            }
        }
        self.ships = kept;
        let n = culled.len();
        self.counter.dead = self.counter.dead + (n as i32);
        culled
    }
}

impl World {
    /// Resolve what the laser's hitscan reported.  A hit on a live enemy
    /// ship destroys it outright and counts the kill; the player, a
    /// cannonball, terrain or a miss change nothing.
    pub fn resolve_laser_hit(&mut self, hit: Option<u64>) -> (killed: bool)
        requires
            old(self).wf(),
            old(self).counter.dead < i32::MAX,
        ensures
            final(self).wf(),
            killed == (hit matches Some(id) && is_enemy_id(old(self).ships@, id)),
            final(self).balls@ == old(self).balls@,
            final(self).spawners@ == old(self).spawners@,
            final(self).counter.to_spawn == old(self).counter.to_spawn,
            final(self).counter.dead == old(self).counter.dead + if killed {
                1int
            } else {
                0int
            },
            !killed ==> final(self).ships@ == old(self).ships@,
            killed ==> (hit matches Some(id) && exists|i: int|
                0 <= i < old(self).ships@.len() && old(self).ships@[i].id == id && old(
                    self,
                ).ships@[i].ship.role is Enemy && final(self).ships@ == old(self).ships@.remove(i)),
    {
        let id = match hit {
            None => {
                return false;
            },
            Some(id) => id,
        };
        let ghost s0 = self.ships@;
        let mut i: usize = 0;
        while i < self.ships.len()
            invariant
                *self == *old(self),
                old(self).wf(),
                s0 == old(self).ships@,
                old(self).counter.dead < i32::MAX,
                hit == Some(id),
                i <= self.ships@.len(),
                forall|j: int| 0 <= j < i ==> s0[j].id != id,
            decreases self.ships@.len() - i,
        {
            let e = self.ships[i];
            if e.id == id {
                match e.ship.role {
                    Role::Enemy => {
                        self.ships.remove(i);
                        self.counter.dead = self.counter.dead + 1;
                        proof {
                            assert(s0[i as int].id == id && s0[i as int].ship.role is Enemy);
                            assert(is_enemy_id(s0, id));
                            lemma_remove_keeps_wf(s0, i as int, old(self).balls@);
                        }
                        return true;
                    },
                    Role::Player => {
                        proof {
                            assert forall|j: int|
                                0 <= j < s0.len() && #[trigger] s0[j].id == id implies !(
                            s0[j].ship.role is Enemy) by {
                                if j != i {
                                    assert(s0[j].id != s0[i as int].id);
                                }
                            }
                            assert(!is_enemy_id(s0, id));
                        }
                        return false;
                    },
                }
            }
            i += 1;
        }
        false
    }

    /// The live-enemy census: how many enemy ships the world holds.
    pub fn live_enemies(&self) -> (n: usize)
        ensures
            n == enemy_count(self.ships@),
            n <= self.ships@.len(),
    {
        let ghost s0 = self.ships@;
        let mut n: usize = 0;
        let mut i: usize = 0;
        while i < self.ships.len()
            invariant
                i <= s0.len(),
                self.ships@ == s0,
                n <= i,
                n == enemy_count(s0.take(i as int)),
            decreases s0.len() - i,
        {
            proof {
                assert(s0.take(i as int + 1).drop_last() =~= s0.take(i as int));
                assert(s0.take(i as int + 1).last() == s0[i as int]);
            }
            let e = self.ships[i];
            if match e.ship.role {
                Role::Enemy => true,
                Role::Player => false,
            } {
                n += 1;
            }
            i += 1;
        }
        proof {
            assert(s0.take(s0.len() as int) =~= s0);
        }
        n
    }

    /// The player ship's health, if a player is present.
    pub fn player_health(&self) -> (h: Option<i32>)
        requires
            self.wf(),
        ensures
            (h is Some) == has_player(self.ships@),
            h matches Some(v) ==> exists|i: int|
                0 <= i < self.ships@.len() && self.ships@[i].ship.role is Player
                    && self.ships@[i].ship.health == v,
    {
        let mut i: usize = 0;
        while i < self.ships.len()
            invariant
                i <= self.ships@.len(),
                forall|j: int| 0 <= j < i ==> !((#[trigger] self.ships@[j]).ship.role is Player),
            decreases self.ships@.len() - i,
        {
            let e = self.ships[i];
            match e.ship.role {
                Role::Player => {
                    assert(self.ships@[i as int].ship.role is Player);
                    return Some(e.ship.health);
                },
                Role::Enemy => {},
            }
            i += 1;
        }
        None
    }
}

/// Removing one entry keeps the table well formed.
proof fn lemma_remove_keeps_wf(s: Seq<ShipEntry>, i: int, balls: Seq<u64>)
    requires
        0 <= i < s.len(),
        forall|p: int, q: int| 0 <= p < q < s.len() ==> s[p].id != s[q].id,
        forall|p: int, q: int|
            0 <= p < q < s.len() ==> !(s[p].ship.role is Player && s[q].ship.role is Player),
        forall|p: int| 0 <= p < s.len() ==> (#[trigger] s[p]).ship.wf(),
        forall|p: int, b: int| 0 <= p < s.len() && 0 <= b < balls.len() ==> s[p].id != balls[b],
    ensures
        forall|p: int, q: int| 0 <= p < q < s.remove(i).len() ==> s.remove(i)[p].id != s.remove(
            i,
        )[q].id,
        forall|p: int, q: int|
            0 <= p < q < s.remove(i).len() ==> !(s.remove(i)[p].ship.role is Player && s.remove(
                i,
            )[q].ship.role is Player),
        forall|p: int| 0 <= p < s.remove(i).len() ==> (#[trigger] s.remove(i)[p]).ship.wf(),
        forall|p: int, b: int|
            0 <= p < s.remove(i).len() && 0 <= b < balls.len() ==> s.remove(i)[p].id != balls[b],
{
    assert forall|p: int| 0 <= p < s.remove(i).len() implies (#[trigger] s.remove(i)[p]).ship.wf()
        && (exists|m: int| 0 <= m < s.len() && s[m] == s.remove(i)[p]) by {
        if p < i {
            assert(s.remove(i)[p] == s[p]);
        } else {
            assert(s.remove(i)[p] == s[p + 1]);
        }
    }
    assert forall|p: int, q: int| 0 <= p < q < s.remove(i).len() implies s.remove(i)[p].id
        != s.remove(i)[q].id && !(s.remove(i)[p].ship.role is Player && s.remove(
        i,
    )[q].ship.role is Player) by {
        let sp = if p < i {
            p
        } else {
            p + 1
        };
        let sq = if q < i {
            q
        } else {
            q + 1
        };
        assert(s.remove(i)[p] == s[sp]);
        assert(s.remove(i)[q] == s[sq]);
    }
    assert forall|p: int, b: int|
        0 <= p < s.remove(i).len() && 0 <= b < balls.len() implies s.remove(i)[p].id
        != balls[b] by {
        let sp = if p < i {
            p
        } else {
            p + 1
        };
        assert(s.remove(i)[p] == s[sp]);
    }
}

/// Law: one contact event between a live cannonball and a live ship
/// destroys exactly the cannonball and reduces exactly that ship's health
/// by the contact damage, once - never twice, and never another ship's.
pub proof fn lemma_contact_event_single_resolution(
    balls: Seq<u64>,
    st: ContactState,
    e: ContactPair,
    ball_id: u64,
    ship_idx: int,
)
    requires
        balls.contains(ball_id),
        0 <= ship_idx < st.ships.len(),
        (e.a == ball_id && e.b == st.ships[ship_idx].id) || (e.b == ball_id && e.a
            == st.ships[ship_idx].id),
        !balls.contains(st.ships[ship_idx].id),
        forall|j: int|
            0 <= j < st.ships.len() && j != ship_idx ==> (#[trigger] st.ships[j]).id
                != st.ships[ship_idx].id,
        st.ships[ship_idx].ship.health - CONTACT_DAMAGE >= i32::MIN,
    ensures
        ({
            let end = resolve_event(balls, st, e);
            &&& end.removed == st.removed.push(ball_id)
            &&& end.ships.len() == st.ships.len()
            &&& end.ships[ship_idx].ship.health == st.ships[ship_idx].ship.health - CONTACT_DAMAGE
            &&& end.ships[ship_idx].ship.wheel == st.ships[ship_idx].ship.wheel
            &&& end.ships[ship_idx].ship.role == st.ships[ship_idx].ship.role
            &&& end.ships[ship_idx].id == st.ships[ship_idx].id
            &&& forall|j: int|
                0 <= j < st.ships.len() && j != ship_idx ==> resolve_event(balls, st, e).ships[j]
                    == st.ships[j]
        }),
{
    let ship_id = st.ships[ship_idx].id;
    let end = resolve_event(balls, st, e);
    if e.a == ball_id && e.b == ship_id {
        assert(end.ships =~= damage_ships(st.ships, ship_id));
    } else {
        assert(end.ships =~= damage_ships(st.ships, ship_id));
    }
}

/// Two distinct positions of the cull's survivor table come from two
/// distinct source entries.
proof fn lemma_surviving_distinct_sources(s: Seq<ShipEntry>, p: int, q: int)
    requires
        0 <= p < q < surviving_ships(s).len(),
        forall|i: int, j: int| 0 <= i < j < s.len() ==> s[i].id != s[j].id,
        forall|i: int, j: int|
            0 <= i < j < s.len() ==> !(s[i].ship.role is Player && s[j].ship.role is Player),
    ensures
        surviving_ships(s)[p].id != surviving_ships(s)[q].id,
        !(surviving_ships(s)[p].ship.role is Player && surviving_ships(s)[q].ship.role is Player),
    decreases s.len(),
{
    reveal(Seq::filter);
    if s.len() > 0 {
        let prefix = s.drop_last();
        let sp = surviving_ships(prefix);
        if keep_ship(s.last()) {
            if q < sp.len() {
                lemma_surviving_distinct_sources(prefix, p, q);
            } else {
                // `q` is the appended last entry; `p` comes from the prefix.
                lemma_surviving_element_has_source(prefix, p);
                let m = choose|m: int| 0 <= m < prefix.len() && prefix[m] == sp[p];
                assert(s[m] == prefix[m]);
                assert(s[s.len() - 1] == s.last());
            }
        } else {
            lemma_surviving_distinct_sources(prefix, p, q);
        }
    }
}

/// Every survivor is one of the source entries.
proof fn lemma_surviving_element_has_source(s: Seq<ShipEntry>, p: int)
    requires
        0 <= p < surviving_ships(s).len(),
    ensures
        exists|m: int| 0 <= m < s.len() && s[m] == surviving_ships(s)[p],
    decreases s.len(),
{
    reveal(Seq::filter);
    if s.len() > 0 {
        let prefix = s.drop_last();
        let sp = surviving_ships(prefix);
        if p < sp.len() {
            lemma_surviving_element_has_source(prefix, p);
            let m = choose|m: int| 0 <= m < prefix.len() && prefix[m] == sp[p];
            assert(s[m] == surviving_ships(s)[p]);
        } else {
            assert(s[s.len() - 1] == surviving_ships(s)[p]);
        }
    }
}

} // verus!
