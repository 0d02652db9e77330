use broadside::world::{
    BallReport, ContactPair, Role, Ship, World, CONTACT_DAMAGE, ENEMY_BUDGET, ENEMY_START_HEALTH,
    PLAYER_START_HEALTH,
};

const PLAYER_ID: u64 = 1;
const ENEMY_ID: u64 = 2;
const BALL_A: u64 = 100;
const BALL_B: u64 = 101;
const BALL_C: u64 = 102;
const TERRAIN_ID: u64 = 900;

fn world_with_player() -> World {
    let mut w = World::new(ENEMY_BUDGET);
    w.add_ship(PLAYER_ID, Ship::new_player());
    w
}

fn health_of(w: &World, id: u64) -> i32 {
    w.get_ship(id).expect("ship present").health
}

#[test]
fn ball_ship_contact_one_destroy_one_damage() {
    let mut w = world_with_player();
    w.add_ball(BALL_A);
    let gone = w.projectile_tick(&vec![], &vec![ContactPair { a: BALL_A, b: PLAYER_ID }]);
    // Exactly one destroy: the cannonball.
    assert_eq!(gone, vec![BALL_A]);
    assert!(w.balls.is_empty());
    // Exactly one health reduction of 10, and the ship survives.
    assert_eq!(health_of(&w, PLAYER_ID), PLAYER_START_HEALTH - CONTACT_DAMAGE);
    assert_eq!(w.ships.len(), 1);
}

#[test]
fn ball_ship_contact_order_does_not_matter() {
    let mut w = world_with_player();
    w.add_ball(BALL_A);
    let gone = w.projectile_tick(&vec![], &vec![ContactPair { a: PLAYER_ID, b: BALL_A }]);
    assert_eq!(gone, vec![BALL_A]);
    assert_eq!(health_of(&w, PLAYER_ID), PLAYER_START_HEALTH - CONTACT_DAMAGE);
}

#[test]
fn three_cannonball_contacts_cost_thirty() {
    let mut w = world_with_player();
    assert_eq!(health_of(&w, PLAYER_ID), 200);
    for ball in [BALL_A, BALL_B, BALL_C] {
        w.add_ball(ball);
        w.projectile_tick(&vec![], &vec![ContactPair { a: ball, b: PLAYER_ID }]);
    }
    assert_eq!(health_of(&w, PLAYER_ID), 170);
}

#[test]
fn sunk_ball_is_removed_regardless_of_contacts() {
    let mut w = world_with_player();
    w.add_ball(BALL_A);
    w.add_ball(BALL_B);
    // BALL_A sinks; no contact mentions it.  BALL_B flies on.
    let report = vec![
        BallReport { id: BALL_A, y_u: -1 },
        BallReport { id: BALL_B, y_u: 3_000_000 },
    ];
    let gone = w.projectile_tick(&report, &vec![]);
    assert_eq!(gone, vec![BALL_A]);
    assert_eq!(w.balls, vec![BALL_B]);
}

#[test]
fn sinking_and_contact_in_one_tick() {
    // The despawn is deferred to the flush, so a ball that sinks in the
    // same tick still resolves its contact: the ship is damaged once and
    // the ball is destroyed once.
    let mut w = world_with_player();
    w.add_ball(BALL_A);
    let report = vec![BallReport { id: BALL_A, y_u: -5 }];
    let gone = w.projectile_tick(&report, &vec![ContactPair { a: BALL_A, b: PLAYER_ID }]);
    assert_eq!(gone, vec![BALL_A]);
    assert_eq!(health_of(&w, PLAYER_ID), PLAYER_START_HEALTH - CONTACT_DAMAGE);
}

#[test]
fn ball_ball_contact_destroys_both_without_damage() {
    let mut w = world_with_player();
    w.add_ball(BALL_A);
    w.add_ball(BALL_B);
    let gone = w.projectile_tick(&vec![], &vec![ContactPair { a: BALL_A, b: BALL_B }]);
    assert_eq!(gone, vec![BALL_A, BALL_B]);
    assert!(w.balls.is_empty());
    assert_eq!(health_of(&w, PLAYER_ID), PLAYER_START_HEALTH);
}

#[test]
fn ball_terrain_contact_destroys_the_ball() {
    let mut w = world_with_player();
    w.add_ball(BALL_A);
    let gone = w.projectile_tick(&vec![], &vec![ContactPair { a: BALL_A, b: TERRAIN_ID }]);
    assert_eq!(gone, vec![BALL_A]);
    assert_eq!(health_of(&w, PLAYER_ID), PLAYER_START_HEALTH);
}

#[test]
fn unknown_contact_changes_nothing() {
    let mut w = world_with_player();
    w.add_ball(BALL_A);
    let gone = w.projectile_tick(&vec![], &vec![ContactPair { a: TERRAIN_ID, b: 901 }]);
    assert!(gone.is_empty());
    assert_eq!(w.balls, vec![BALL_A]);
    assert_eq!(health_of(&w, PLAYER_ID), PLAYER_START_HEALTH);
}

#[test]
fn enemy_ships_take_contact_damage_too() {
    let mut w = world_with_player();
    w.add_ship(ENEMY_ID, Ship::new_enemy());
    w.add_ball(BALL_A);
    w.projectile_tick(&vec![], &vec![ContactPair { a: BALL_A, b: ENEMY_ID }]);
    assert_eq!(health_of(&w, ENEMY_ID), ENEMY_START_HEALTH - CONTACT_DAMAGE);
    assert_eq!(health_of(&w, PLAYER_ID), PLAYER_START_HEALTH);
}

#[test]
fn cull_removes_dead_enemies_and_counts_kills() {
    let mut w = world_with_player();
    w.add_ship(ENEMY_ID, Ship::new_enemy());
    w.add_ship(3, Ship { health: 0, ..Ship::new_enemy() });
    w.add_ship(4, Ship { health: -7, ..Ship::new_enemy() });
    let culled = w.cull_dead_enemies();
    assert_eq!(culled, vec![3, 4]);
    assert_eq!(w.counter.dead, 2);
    assert_eq!(w.ships.len(), 2);
    assert!(w.get_ship(ENEMY_ID).is_some());
    assert!(w.get_ship(3).is_none());
}

#[test]
fn cull_never_removes_the_player() {
    let mut w = World::new(ENEMY_BUDGET);
    w.add_ship(PLAYER_ID, Ship { health: -50, ..Ship::new_player() });
    let culled = w.cull_dead_enemies();
    assert!(culled.is_empty());
    assert_eq!(w.counter.dead, 0);
    assert_eq!(health_of(&w, PLAYER_ID), -50);
}

#[test]
fn laser_hit_kills_only_live_enemies() {
    let mut w = world_with_player();
    w.add_ship(ENEMY_ID, Ship::new_enemy());
    w.add_ball(BALL_A);
    // A miss and non-enemy hits change nothing.
    assert!(!w.resolve_laser_hit(None));
    assert!(!w.resolve_laser_hit(Some(PLAYER_ID)));
    assert!(!w.resolve_laser_hit(Some(BALL_A)));
    assert!(!w.resolve_laser_hit(Some(TERRAIN_ID)));
    assert_eq!(w.counter.dead, 0);
    assert_eq!(w.ships.len(), 2);
    // An enemy hit destroys it and counts the kill.
    assert!(w.resolve_laser_hit(Some(ENEMY_ID)));
    assert_eq!(w.counter.dead, 1);
    assert!(w.get_ship(ENEMY_ID).is_none());
    // The same hit again is already resolved.
    assert!(!w.resolve_laser_hit(Some(ENEMY_ID)));
    assert_eq!(w.counter.dead, 1);
}

#[test]
fn hud_projection() {
    let mut w = world_with_player();
    w.add_ship(ENEMY_ID, Ship::new_enemy());
    assert_eq!(w.player_health(), Some(PLAYER_START_HEALTH));
    assert_eq!(w.live_enemies(), 1);
    assert_eq!(w.counter.enemies_left(ENEMY_BUDGET), 10);
    assert!(w.resolve_laser_hit(Some(ENEMY_ID)));
    assert_eq!(w.counter.enemies_left(ENEMY_BUDGET), 9);
    assert_eq!(w.live_enemies(), 0);
    let empty = World::new(ENEMY_BUDGET);
    assert_eq!(empty.player_health(), None);
}

#[test]
fn wheel_mutation_through_the_table() {
    let mut w = world_with_player();
    assert!(w.turn_ship(PLAYER_ID, 100_000));
    assert!(!w.turn_ship(TERRAIN_ID, 100_000));
    assert_eq!(w.get_ship(PLAYER_ID).unwrap().wheel.angle_urad, 100_000);
    w.add_ship(ENEMY_ID, Ship::new_enemy());
    assert!(w.ai_steer_ship(ENEMY_ID, 1_000, false));
    assert_eq!(w.get_ship(ENEMY_ID).unwrap().wheel.angle_urad, -6_000);
    // The player's wheel is untouched by the enemy's steering.
    assert_eq!(w.get_ship(PLAYER_ID).unwrap().wheel.angle_urad, 100_000);
}

#[test]
fn role_tags() {
    assert_eq!(Ship::new_player().role, Role::Player);
    assert_eq!(Ship::new_enemy().role, Role::Enemy);
    assert_eq!(Ship::new_enemy().health, 40);
    assert_eq!(Ship::new_player().health, 200);
}
