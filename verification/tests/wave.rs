use broadside::spawner::{Spawner, ENEMY_CAP, SPAWN_INTERVAL_MAX_MS, SPAWN_INTERVAL_MIN_MS};
use broadside::vec3::Vec3;
use broadside::world::{ContactPair, Ship, World, ENEMY_BUDGET};

const PLAYER_ID: u64 = 1;

fn corner(x: i64, z: i64) -> Spawner {
    Spawner::new(Vec3::new(x, 0, z))
}

fn world_with_grid() -> World {
    // Four spawn points on a square, as the scene sets them up.
    let mut w = World::new(ENEMY_BUDGET);
    w.add_ship(PLAYER_ID, Ship::new_player());
    for x in [-40_000_000, 40_000_000] {
        for z in [-40_000_000, 40_000_000] {
            w.add_spawner(corner(x, z));
        }
    }
    w
}

#[test]
fn fresh_spawners_fire_once_and_redraw() {
    let mut w = world_with_grid();
    let reqs = w.spawn_wave(1);
    // All four points were ready and within budget and cap.
    assert_eq!(reqs.len(), 4);
    assert_eq!(w.counter.to_spawn, ENEMY_BUDGET - 4);
    assert_eq!(reqs[0].position, Vec3::new(-40_000_000, 0, -40_000_000));
    for (i, r) in reqs.iter().enumerate() {
        assert_eq!(r.position, w.spawners[i].position);
        assert!(0 <= r.heading_urad && r.heading_urad < 6_283_184);
        // The redraw lands in [20 s, 40 s) - this exercises the random
        // draw: a spawner handed back unchanged would stay at zero.
        assert!(SPAWN_INTERVAL_MIN_MS <= w.spawners[i].until_next_ms);
        assert!(w.spawners[i].until_next_ms < SPAWN_INTERVAL_MAX_MS);
        assert_eq!(w.spawners[i].last_spawned_ms, 1);
    }
    // Asked again in the same tick, no point is ready: nothing spawns.
    let again = w.spawn_wave(1);
    assert!(again.is_empty());
    assert_eq!(w.counter.to_spawn, ENEMY_BUDGET - 4);
}

#[test]
fn cap_limits_concurrent_enemies() {
    let mut w = world_with_grid();
    // Five enemies already afloat: only one slot is free under the cap.
    for id in 10..15 {
        w.add_ship(id, Ship::new_enemy());
    }
    let reqs = w.spawn_wave(1);
    assert_eq!(reqs.len(), 1);
    assert_eq!(w.counter.to_spawn, ENEMY_BUDGET - 1);
    // At the cap: nothing spawns, however ready the points are.
    let mut w2 = world_with_grid();
    for id in 10..(10 + ENEMY_CAP as u64) {
        w2.add_ship(id, Ship::new_enemy());
    }
    let reqs2 = w2.spawn_wave(1);
    assert!(reqs2.is_empty());
    assert_eq!(w2.counter.to_spawn, ENEMY_BUDGET);
}

#[test]
fn cap_holds_as_survivors_accumulate() {
    // One spawn point, nobody dies: the fleet grows by one per ripe tick
    // until six enemies float, then the spawner idles with budget to spare.
    let mut w = World::new(ENEMY_BUDGET);
    w.add_ship(PLAYER_ID, Ship::new_player());
    w.add_spawner(corner(0, 0));
    let mut now: u64 = 1;
    let mut next_id: u64 = 100;
    for round in 1..=8 {
        let reqs = w.spawn_wave(now);
        if round <= 6 {
            assert_eq!(reqs.len(), 1);
            w.add_ship(next_id, Ship::new_enemy());
            next_id += 1;
            assert_eq!(w.live_enemies(), round);
        } else {
            assert!(reqs.is_empty());
            assert_eq!(w.live_enemies(), 6);
        }
        now += SPAWN_INTERVAL_MAX_MS + 1;
    }
    assert_eq!(w.counter.to_spawn, ENEMY_BUDGET - 6);
    // A kill frees a slot: the next ripe tick spawns exactly one.
    assert!(w.resolve_laser_hit(Some(100)));
    assert_eq!(w.spawn_wave(now).len(), 1);
}

#[test]
fn budget_limits_total_spawns() {
    let mut w = World::new(3);
    w.add_ship(PLAYER_ID, Ship::new_player());
    for x in [-40_000_000, 40_000_000] {
        for z in [-40_000_000, 40_000_000] {
            w.add_spawner(corner(x, z));
        }
    }
    // Four ready points compete for a budget of three.
    let reqs = w.spawn_wave(1);
    assert_eq!(reqs.len(), 3);
    assert_eq!(w.counter.to_spawn, 0);
    // The budget is spent: the spawner never produces again, even with
    // every point ready and the sea empty.
    let later = w.spawn_wave(100_000);
    assert!(later.is_empty());
    assert_eq!(w.counter.to_spawn, 0);
}

#[test]
fn wave_exhaustion_end_to_end() {
    // Start with a budget of ten and no kills; destroy ten enemies by a
    // mix of laser kills and cannonball contacts; the counter reads ten
    // dead and the spawner has stopped for good.
    let mut w = World::new(ENEMY_BUDGET);
    w.add_ship(PLAYER_ID, Ship::new_player());
    w.add_spawner(corner(0, 0));
    let mut now: u64 = 1;
    let mut next_id: u64 = 100;
    let mut next_ball: u64 = 1_000;
    let mut spawned_total = 0;
    while w.counter.to_spawn > 0 {
        let reqs = w.spawn_wave(now);
        for _r in reqs.iter() {
            w.add_ship(next_id, Ship::new_enemy());
            spawned_total += 1;
            // Kill odd arrivals outright with the laser; batter even ones
            // with four cannonballs and let the cull collect them.
            if spawned_total % 2 == 1 {
                assert!(w.resolve_laser_hit(Some(next_id)));
            } else {
                for _hit in 0..4 {
                    let ball = next_ball;
                    next_ball += 1;
                    w.add_ball(ball);
                    w.projectile_tick(&vec![], &vec![ContactPair { a: ball, b: next_id }]);
                }
                assert_eq!(w.get_ship(next_id).unwrap().health, 0);
                let culled = w.cull_dead_enemies();
                assert_eq!(culled, vec![next_id]);
            }
            next_id += 1;
        }
        // Strictly past any drawn interval.
        now += SPAWN_INTERVAL_MAX_MS + 1;
    }
    assert_eq!(spawned_total, 10);
    assert_eq!(w.counter.dead, 10);
    assert_eq!(w.counter.to_spawn, 0);
    assert_eq!(w.counter.enemies_left(ENEMY_BUDGET), 0);
    assert_eq!(w.live_enemies(), 0);
    // Permanently silent from here on.
    for _round in 0..3 {
        now += SPAWN_INTERVAL_MAX_MS + 1;
        assert!(w.spawn_wave(now).is_empty());
    }
}
