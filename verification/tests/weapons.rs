use broadside::vec3::Vec3;
use broadside::weapons::{
    cannon_tick, check_gate, fire_authorized, laser_cast, laser_visual_tick, recoil_impulse,
    Cannon, CannonGate, LaserGun, LaserVisual, CANNON_COOLDOWN_MS, LASER_TIMEOUT_MS,
};

#[test]
fn cooldown_gate_rejects_within_and_accepts_after() {
    // Fired at t=0 with a 3.0 s cooldown: 2.9 s later is rejected,
    // 3.1 s later is accepted, and exactly 3.0 s is still rejected.
    assert!(!fire_authorized(0, 2_900, 3_000));
    assert!(fire_authorized(0, 3_100, 3_000));
    assert!(!fire_authorized(0, 3_000, 3_000));
}

fn flat_sea() -> (Vec3, Vec3, Vec3, Vec3, Vec3) {
    let ship_pos = Vec3::new(0, 0, 0);
    let ship_left = Vec3::new(-1_000_000, 0, 0);
    let ship_right = Vec3::new(1_000_000, 0, 0);
    let ship_up = Vec3::new(0, 1_000_000, 0);
    let player_pos = Vec3::new(-5_000_000, 0, 0);
    (ship_pos, ship_left, ship_right, ship_up, player_pos)
}

#[test]
fn cannon_fires_broadside_off_cooldown() {
    let (ship_pos, ship_left, ship_right, ship_up, player_pos) = flat_sea();
    let mut cannon = Cannon::new();
    // Not yet off cooldown (5 s since t=0).
    let held = cannon_tick(
        &mut cannon, 4_000, &player_pos, &ship_pos, &ship_left, &ship_right, &ship_up, 1_000_000,
        None,
    );
    assert!(held.is_none());
    assert_eq!(cannon.last_fired_ms, 0);
    // Off cooldown: fires to the left, where the player is.
    let shot = cannon_tick(
        &mut cannon, 6_000, &player_pos, &ship_pos, &ship_left, &ship_right, &ship_up, 1_000_000,
        None,
    )
    .expect("cooldown elapsed");
    assert_eq!(shot.position, Vec3::new(-2_000_000, 2_000_000, 0));
    assert_eq!(shot.velocity, Vec3::new(-5_000_000, 0, 0));
    assert_eq!(cannon.last_fired_ms, 6_000);
    // 2.9 s later: still cooling down; well past the cooldown: fires again.
    assert!(cannon_tick(
        &mut cannon, 8_900, &player_pos, &ship_pos, &ship_left, &ship_right, &ship_up, 1_000_000,
        None,
    )
    .is_none());
    assert!(cannon_tick(
        &mut cannon,
        6_000 + CANNON_COOLDOWN_MS + 1,
        &player_pos,
        &ship_pos,
        &ship_left,
        &ship_right,
        &ship_up,
        1_000_000,
        None,
    )
    .is_some());
}

#[test]
fn cannon_fires_starboard_when_player_is_right() {
    let (ship_pos, ship_left, ship_right, ship_up, _) = flat_sea();
    let player_pos = Vec3::new(5_000_000, 0, 0);
    let mut cannon = Cannon::new();
    let shot = cannon_tick(
        &mut cannon, 6_000, &player_pos, &ship_pos, &ship_left, &ship_right, &ship_up, 1_000_000,
        None,
    )
    .expect("cooldown elapsed");
    assert_eq!(shot.position, Vec3::new(2_000_000, 2_000_000, 0));
    assert_eq!(shot.velocity, Vec3::new(5_000_000, 0, 0));
}

#[test]
fn cannon_gate_checks_range_and_broadside() {
    let gate = CannonGate { max_range_u: 20_000_000, broadside_tol_urad: 300_000 };
    let ship = Vec3::new(0, 0, 0);
    let near = Vec3::new(10_000_000, 0, 0);
    let far = Vec3::new(30_000_000, 0, 0);
    let quarter_turn = 1_570_796;
    assert!(check_gate(&gate, &near, &ship, quarter_turn));
    assert!(!check_gate(&gate, &far, &ship, quarter_turn));
    assert!(!check_gate(&gate, &near, &ship, quarter_turn + 300_001));
    assert!(check_gate(&gate, &near, &ship, quarter_turn - 300_000));
    // A gated cannon holds fire out of range even off cooldown.
    let (ship_pos, ship_left, ship_right, ship_up, _) = flat_sea();
    let mut cannon = Cannon::new();
    let held = cannon_tick(
        &mut cannon,
        6_000,
        &far,
        &ship_pos,
        &ship_left,
        &ship_right,
        &ship_up,
        quarter_turn,
        Some(&gate),
    );
    assert!(held.is_none());
    assert_eq!(cannon.last_fired_ms, 0);
}

#[test]
fn laser_rejects_at_one_second_accepts_after() {
    let mut gun = LaserGun::new();
    // Exactly 1.0 s since the (zero) firing stamp: rejected.
    assert!(!gun.try_fire(1_000, 500));
    // Strictly after: accepted, and the stamp advances.
    assert!(gun.try_fire(1_001, 500));
    assert_eq!(gun.last_fired_ms, 1_001);
    // Within the next second: rejected again.
    assert!(!gun.try_fire(2_001, 500));
    assert!(gun.try_fire(2_002, -500));
}

#[test]
fn laser_trigger_deadzone() {
    let mut gun = LaserGun::new();
    assert!(!gun.try_fire(5_000, 10));
    assert!(!gun.try_fire(5_000, -10));
    assert!(!gun.try_fire(5_000, 0));
    assert!(gun.try_fire(5_000, 11));
}

#[test]
fn laser_visual_grows_then_despawns() {
    // Past the timeout the beam is destroyed, whatever its width.
    assert_eq!(laser_visual_tick(1_301, 1_000, 600), LaserVisual::Despawn);
    // At and under the timeout the width scales with age.
    assert_eq!(
        laser_visual_tick(1_300, 1_000, 600),
        LaserVisual::Width { width_u: 600 }
    );
    assert_eq!(
        laser_visual_tick(1_150, 1_000, 600),
        LaserVisual::Width { width_u: 300 }
    );
    assert_eq!(
        laser_visual_tick(1_000, 1_000, 600),
        LaserVisual::Width { width_u: 0 }
    );
    assert_eq!(LASER_TIMEOUT_MS, 300);
}

#[test]
fn laser_cast_and_recoil_geometry() {
    let gun_pos = Vec3::new(1_000_000, 2_000_000, 0);
    let gun_forward = Vec3::new(0, 0, 1_000_000);
    let cast = laser_cast(&gun_pos, &gun_forward);
    // The sweep starts two units behind the muzzle and runs against the
    // mount's forward axis.
    assert_eq!(cast.origin, Vec3::new(1_000_000, 2_000_000, -2_000_000));
    assert_eq!(cast.direction, Vec3::new(0, 0, -1_000_000));
    let recoil = recoil_impulse(&gun_forward);
    assert_eq!(recoil, Vec3::new(0, 0, 10_000_000_000));
}
