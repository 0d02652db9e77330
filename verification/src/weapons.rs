//! Weapon state machines.  Both weapons are cooldown-gated: a shot is
//! authorized only when strictly more than the cooldown has elapsed since
//! the last one.  The cannon lobs a ballistic cannonball broadside; the
//! laser is a hitscan beam with recoil and a short-lived visual.

use vstd::prelude::*;
use crate::ai::left_of;
use crate::steering::{HALF_PI_URAD, PI_URAD};
use crate::vec3::{ivdot, ivscale, ivsub, lemma_mul_bound, IVec3, Vec3, COORD_LIMIT};

verus! {

/// Cooldown between enemy cannon shots, in milliseconds.
pub const CANNON_COOLDOWN_MS: u64 = 5000;

/// Cooldown between player laser shots, in milliseconds.
pub const LASER_COOLDOWN_MS: u64 = 1000;

/// Lifetime of the laser's visual beam, in milliseconds.
pub const LASER_TIMEOUT_MS: u64 = 300;

/// How far the hitscan sweep reaches, in micro-units.
pub const LASER_RANGE_U: i64 = 50_000_000;

/// Radius of the swept sphere of the hitscan, in micro-units.
pub const LASER_BALL_RADIUS_U: i64 = 1_000_000;

/// The trigger scalar, in milli-units, past which the laser trigger counts
/// as pulled.
pub const TRIGGER_DEADZONE_MILLI: i64 = 10;

/// A weapon may fire again only strictly after its cooldown has elapsed.
pub open spec fn cooldown_elapsed(last_fired: int, now: int, cooldown: int) -> bool {
    now - last_fired > cooldown
}

/// Law: a weapon that fired at `t0` is never authorized again at any `t1`
/// within the cooldown after `t0`.
pub proof fn lemma_no_double_fire(t0: u64, t1: u64, cooldown: u64)
    requires
        t0 <= t1,
        t1 - t0 <= cooldown,
    ensures
        !cooldown_elapsed(t0 as int, t1 as int, cooldown as int),
{
}

/// The shared firing gate of both weapons, executable: a shot at `now_ms`
/// is authorized exactly when strictly more than `cooldown_ms` has passed
/// since `last_fired_ms`.
pub fn fire_authorized(last_fired_ms: u64, now_ms: u64, cooldown_ms: u64) -> (r: bool)
    requires
        last_fired_ms <= now_ms,
    ensures
        r == cooldown_elapsed(last_fired_ms as int, now_ms as int, cooldown_ms as int),
{
    now_ms - last_fired_ms > cooldown_ms
}

/// A ship's cannon: remembers when it last fired.
#[derive(Clone, Copy, Debug, PartialEq, Eq, Structural)]
pub struct Cannon {
    pub last_fired_ms: u64,
}

impl Cannon {
    /// A fresh cannon has never fired.
    pub fn new() -> (c: Cannon)
        ensures
            c.last_fired_ms == 0,
    {
        Cannon { last_fired_ms: 0 }
    }
}

/// The player's laser gun: remembers when it last fired.
#[derive(Clone, Copy, Debug, PartialEq, Eq, Structural)]
pub struct LaserGun {
    pub last_fired_ms: u64,
}

impl LaserGun {
    /// A fresh gun has never fired.
    pub fn new() -> (g: LaserGun)
        ensures
            g.last_fired_ms == 0,
    {
        LaserGun { last_fired_ms: 0 }
    }

    /// Authorize a laser shot: the trigger must be pulled past its deadzone
    /// and the cooldown must have elapsed.  On authorization the firing
    /// timestamp advances to `now_ms`.
    pub fn try_fire(&mut self, now_ms: u64, trigger_milli: i64) -> (fired: bool)
        requires
            old(self).last_fired_ms <= now_ms,
        ensures
            fired == ((trigger_milli > TRIGGER_DEADZONE_MILLI || trigger_milli
                < -TRIGGER_DEADZONE_MILLI) && cooldown_elapsed(
                old(self).last_fired_ms as int,
                now_ms as int,
                LASER_COOLDOWN_MS as int,
            )),
            final(self).last_fired_ms == if fired {
                now_ms
            } else {
                old(self).last_fired_ms
            },
            final(self).last_fired_ms <= now_ms,
    {
        let pulled = trigger_milli > TRIGGER_DEADZONE_MILLI || trigger_milli
            < -TRIGGER_DEADZONE_MILLI;
        if pulled && fire_authorized(self.last_fired_ms, now_ms, LASER_COOLDOWN_MS) {
            self.last_fired_ms = now_ms;
            true
        } else {
            false
        }
    }
}

/// Where a cannon shot leaves from: offset two units along the firing
/// direction and two along the ship's up axis, clear of the hull.
pub open spec fn cannonball_position(ship_pos: IVec3, dir: IVec3, up: IVec3) -> IVec3 {
    IVec3 {
        x: ship_pos.x + 2 * dir.x + 2 * up.x,
        y: ship_pos.y + 2 * dir.y + 2 * up.y,
        z: ship_pos.z + 2 * dir.z + 2 * up.z,
    }
}

/// A cannon shot's initial velocity: five units per second along the firing
/// direction.
pub open spec fn cannonball_velocity(dir: IVec3) -> IVec3 {
    ivscale(5, dir)
}

/// The cannon fires broadside: to the ship's left when the player is to its
/// left, else to its right.
pub open spec fn cannon_direction(
    player_pos: IVec3,
    ship_pos: IVec3,
    ship_left: IVec3,
    ship_right: IVec3,
) -> IVec3 {
    if left_of(player_pos, ship_pos, ship_right) {
        ship_left
    } else {
        ship_right
    }
}

/// Everything the physics collaborator needs to create a cannonball body.
#[derive(Clone, Copy, Debug, PartialEq, Eq, Structural)]
pub struct CannonballSpawn {
    pub position: Vec3,
    pub velocity: Vec3,
}

/// An optional firing gate.  A cannon may be tuned to hold fire unless the
/// player is in range and roughly broadside; left unset, the cannon fires
/// whenever its cooldown allows.
pub struct CannonGate {
    /// Largest distance to the player at which the cannon fires, micro-units.
    pub max_range_u: i64,
    /// How far from a quarter turn the angle to the player may stray,
    /// microradians.
    pub broadside_tol_urad: i64,
}

/// Both conditions of the optional gate: a bound on the squared distance
/// to the player, and a broadside-alignment band around a quarter turn.
pub open spec fn gate_allows(
    gate: CannonGate,
    player_pos: IVec3,
    ship_pos: IVec3,
    angle_to_player_urad: int,
) -> bool {
    let d = ivsub(player_pos, ship_pos);
    ivdot(d, d) <= gate.max_range_u * gate.max_range_u && HALF_PI_URAD - gate.broadside_tol_urad
        <= angle_to_player_urad <= HALF_PI_URAD + gate.broadside_tol_urad
}

/// Evaluate the optional firing gate.
pub fn check_gate(
    gate: &CannonGate,
    player_pos: &Vec3,
    ship_pos: &Vec3,
    angle_to_player_urad: i64,
) -> (allowed: bool)
    requires
        player_pos.in_range(),
        ship_pos.in_range(),
        0 <= gate.max_range_u <= COORD_LIMIT,
        0 <= gate.broadside_tol_urad <= PI_URAD,
    ensures
        allowed == gate_allows(*gate, player_pos@, ship_pos@, angle_to_player_urad as int),
{
    let d = crate::vec3::sub(player_pos, ship_pos);
    let dist_sq = crate::vec3::dot_wide(&d, &d);
    proof {
        lemma_mul_bound(
            gate.max_range_u as int,
            gate.max_range_u as int,
            1_000_000_000_000,
            1_000_000_000_000,
        );
    }
    let range_sq = (gate.max_range_u as i128) * (gate.max_range_u as i128);
    dist_sq <= range_sq && HALF_PI_URAD - gate.broadside_tol_urad <= angle_to_player_urad
        && angle_to_player_urad <= HALF_PI_URAD + gate.broadside_tol_urad
}

/// One cannon decision tick for an enemy ship with the player in sight.
/// The shot is authorized exactly when the cooldown has elapsed and the
/// gate, if one is configured, allows it; the ball then leaves broadside
/// toward the player's side.
pub fn cannon_tick(
    cannon: &mut Cannon,
    now_ms: u64,
    player_pos: &Vec3,
    ship_pos: &Vec3,
    ship_left: &Vec3,
    ship_right: &Vec3,
    ship_up: &Vec3,
    angle_to_player_urad: i64,
    gate: Option<&CannonGate>,
) -> (shot: Option<CannonballSpawn>)
    requires
        old(cannon).last_fired_ms <= now_ms,
        player_pos.in_range(),
        ship_pos.in_range(),
        ship_left.in_range(),
        ship_right.in_range(),
        ship_up.in_range(),
        0 <= angle_to_player_urad <= PI_URAD,
        gate matches Some(g) ==> 0 <= g.max_range_u <= COORD_LIMIT && 0 <= g.broadside_tol_urad
            <= PI_URAD,
    ensures
        shot.is_some() == (cooldown_elapsed(
            old(cannon).last_fired_ms as int,
            now_ms as int,
            CANNON_COOLDOWN_MS as int,
        ) && (gate matches Some(g) ==> gate_allows(
            *g,
            player_pos@,
            ship_pos@,
            angle_to_player_urad as int,
        ))),
        final(cannon).last_fired_ms == if shot.is_some() {
            now_ms
        } else {
            old(cannon).last_fired_ms
        },
        final(cannon).last_fired_ms <= now_ms,
        shot matches Some(s) ==> {
            let dir = cannon_direction(player_pos@, ship_pos@, ship_left@, ship_right@);
            s.position@ == cannonball_position(ship_pos@, dir, ship_up@) && s.velocity@
                == cannonball_velocity(dir)
        },
{
    let gate_open = match gate {
        None => true,
        Some(g) => check_gate(g, player_pos, ship_pos, angle_to_player_urad),
    };
    if gate_open && fire_authorized(cannon.last_fired_ms, now_ms, CANNON_COOLDOWN_MS) {
        cannon.last_fired_ms = now_ms;
        let dir = if crate::ai::is_to_left_of_player(player_pos, ship_pos, ship_right) {
            *ship_left
        } else {
            *ship_right
        };
        let position = Vec3 {
            x: ship_pos.x + 2 * dir.x + 2 * ship_up.x,
            y: ship_pos.y + 2 * dir.y + 2 * ship_up.y,
            z: ship_pos.z + 2 * dir.z + 2 * ship_up.z,
        };
        let velocity = Vec3 { x: 5 * dir.x, y: 5 * dir.y, z: 5 * dir.z };
        Some(CannonballSpawn { position, velocity })
    } else {
        None
    }
}

/// What the laser's visual does on a tick: despawn past its timeout, else
/// widen in proportion to its age.
#[derive(Clone, Copy, Debug, PartialEq, Eq, Structural)]
pub enum LaserVisual {
    /// The beam has outlived its timeout and is destroyed.
    Despawn,
    /// The beam stays, its lateral extent scaled to `width_u`.
    Width { width_u: u64 },
}

/// One visual-decay tick for an active laser beam fired at `fired_ms`,
/// whose full lateral extent is `base_width_u` micro-units.
pub fn laser_visual_tick(now_ms: u64, fired_ms: u64, base_width_u: u64) -> (v: LaserVisual)
    requires
        fired_ms <= now_ms,
        base_width_u <= 1_000_000_000_000,
    ensures
        now_ms - fired_ms > LASER_TIMEOUT_MS ==> v == LaserVisual::Despawn,
        now_ms - fired_ms <= LASER_TIMEOUT_MS ==> v == (LaserVisual::Width {
            width_u: ((base_width_u * (now_ms - fired_ms)) / (LASER_TIMEOUT_MS as int)) as u64,
        }),
{
    let age = now_ms - fired_ms;
    if age > LASER_TIMEOUT_MS {
        LaserVisual::Despawn
    } else {
        assert(base_width_u * age <= 300_000_000_000_000) by (nonlinear_arith)
            requires
                base_width_u <= 1_000_000_000_000,
                age <= 300,
        ;
        LaserVisual::Width { width_u: base_width_u * age / LASER_TIMEOUT_MS }
    }
}

/// The hitscan sweep the physics collaborator performs when the laser
/// fires: a sphere cast from just behind the muzzle, along the firing
/// direction (the gun mount's negative forward axis).
#[derive(Clone, Copy, Debug, PartialEq, Eq, Structural)]
pub struct LaserCast {
    pub origin: Vec3,
    pub direction: Vec3,
}

/// Build the sweep for a gun mounted at `gun_pos` whose forward axis is
/// `gun_forward`.
pub fn laser_cast(gun_pos: &Vec3, gun_forward: &Vec3) -> (c: LaserCast)
    requires
        gun_pos.in_range(),
        gun_forward.in_range(),
    ensures
        c.origin@ == ivsub(gun_pos@, ivscale(2, gun_forward@)),
        c.direction@ == ivscale(-1, gun_forward@),
{
    LaserCast {
        origin: Vec3 {
            x: gun_pos.x - 2 * gun_forward.x,
            y: gun_pos.y - 2 * gun_forward.y,
            z: gun_pos.z - 2 * gun_forward.z,
        },
        direction: Vec3 { x: -gun_forward.x, y: -gun_forward.y, z: -gun_forward.z },
    }
}

/// The recoil impulse the laser applies to the player's ship: a large kick
/// along the gun mount's forward axis (away from the shot).
pub fn recoil_impulse(gun_forward: &Vec3) -> (r: Vec3)
    requires
        gun_forward.in_range(),
    ensures
        r@ == ivscale(10000, gun_forward@),
{
    Vec3 { x: 10000 * gun_forward.x, y: 10000 * gun_forward.y, z: 10000 * gun_forward.z }
}

} // verus!
