//! Locomotion: ships are always under engine power.  Each tick every ship
//! gets a constant forward force, and a turning torque computed from a
//! virtual pivot point offset from the centroid along the ship's lateral
//! axis by a quarter of the wheel angle.  The physics collaborator
//! integrates the resulting pose.

use vstd::prelude::*;
use crate::steering::STEERING_LIMIT_URAD;
use crate::vec3::{ivcross, ivscale, lemma_mul_bound, IVec3, Vec3};

verus! {

/// Tuning constant: forward engine force per tick.
pub const FORWARD_FORCE_SCALE: i64 = 3000;

/// Tuning constant: torque per unit lever arm.
pub const TORQUE_SCALE: i64 = 1000;

/// A vector with headroom for products of micro-unit coordinates.
#[derive(Clone, Copy, Debug, PartialEq, Eq, Structural)]
pub struct WideVec3 {
    pub x: i128,
    pub y: i128,
    pub z: i128,
}

impl WideVec3 {
    /// The mathematical value of this vector.
    pub open spec fn view(self) -> IVec3 {
        IVec3 { x: self.x as int, y: self.y as int, z: self.z as int }
    }
}

/// The turning torque of a ship: the lever arm from the centroid to the
/// virtual pivot (a quarter wheel angle along the lateral axis, against the
/// left axis) crossed with the forward axis, scaled by the torque tuning
/// constant.  Algebraically that is the forward-cross-left axis scaled by a
/// quarter of the tuning constant times the wheel angle.
pub open spec fn ship_torque(left: IVec3, forward: IVec3, angle_urad: int) -> IVec3 {
    ivscale((TORQUE_SCALE / 4) * angle_urad, ivcross(forward, left))
}

/// What locomotion hands the physics collaborator for one ship: a forward
/// force, a turning torque, and the stern-shifted local center of mass that
/// makes the hull pivot from the back.
pub struct ShipForces {
    pub force: Vec3,
    pub torque: WideVec3,
    pub local_com: Vec3,
}

/// Compute one ship's forces for this tick from its local axes and its
/// wheel angle.
pub fn ship_forces(left: &Vec3, forward: &Vec3, steering_angle_urad: i64) -> (f: ShipForces)
    requires
        left.in_range(),
        forward.in_range(),
        -STEERING_LIMIT_URAD <= steering_angle_urad <= STEERING_LIMIT_URAD,
    ensures
        f.force@ == ivscale(FORWARD_FORCE_SCALE as int, forward@),
        f.torque@ == ship_torque(left@, forward@, steering_angle_urad as int),
        f.local_com@ == (IVec3 { x: 0, y: 0, z: 1_000_000 }),
{
    proof {
        lemma_mul_bound(forward.y as int, left.z as int, 1_000_000_000_000, 1_000_000_000_000);
        lemma_mul_bound(forward.z as int, left.y as int, 1_000_000_000_000, 1_000_000_000_000);
        lemma_mul_bound(forward.z as int, left.x as int, 1_000_000_000_000, 1_000_000_000_000);
        lemma_mul_bound(forward.x as int, left.z as int, 1_000_000_000_000, 1_000_000_000_000);
        lemma_mul_bound(forward.x as int, left.y as int, 1_000_000_000_000, 1_000_000_000_000);
        lemma_mul_bound(forward.y as int, left.x as int, 1_000_000_000_000, 1_000_000_000_000);
        assert(1_000_000_000_000int * 1_000_000_000_000int
            == 1_000_000_000_000_000_000_000_000int) by (nonlinear_arith);
    }
    let cx: i128 = (forward.y as i128) * (left.z as i128) - (forward.z as i128) * (left.y
        as i128);
    let cy: i128 = (forward.z as i128) * (left.x as i128) - (forward.x as i128) * (left.z
        as i128);
    let cz: i128 = (forward.x as i128) * (left.y as i128) - (forward.y as i128) * (left.x
        as i128);
    let k: i128 = (TORQUE_SCALE / 4) as i128 * (steering_angle_urad as i128);
    proof {
        lemma_mul_bound(k as int, cx as int, 5_000_000_000, 2_000_000_000_000_000_000_000_000);
        lemma_mul_bound(k as int, cy as int, 5_000_000_000, 2_000_000_000_000_000_000_000_000);
        lemma_mul_bound(k as int, cz as int, 5_000_000_000, 2_000_000_000_000_000_000_000_000);
        assert(5_000_000_000int * 2_000_000_000_000_000_000_000_000int
            == 10_000_000_000_000_000_000_000_000_000_000_000int) by (nonlinear_arith);
    }
    ShipForces {
        force: Vec3 {
            x: FORWARD_FORCE_SCALE * forward.x,
            y: FORWARD_FORCE_SCALE * forward.y,
            z: FORWARD_FORCE_SCALE * forward.z,
        },
        torque: WideVec3 { x: k * cx, y: k * cy, z: k * cz },
        local_com: Vec3 { x: 0, y: 0, z: 1_000_000 },
    }
}

} // verus!
