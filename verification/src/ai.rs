//! Enemy maneuvering: each tick an enemy ship classifies which side of it
//! the player lies on and snaps its wheel toward a flanking heading, six
//! times the unsigned angle to the player, signed by that side.

use vstd::prelude::*;
use crate::steering::{PI_URAD, STEERING_LIMIT_URAD};
use crate::vec3::{ivdot, ivsub, IVec3, Vec3};

verus! {

/// The player is "to the left" of a ship when the vector from the ship to
/// the player points against the ship's right axis.
pub open spec fn left_of(player_pos: IVec3, ship_pos: IVec3, ship_right: IVec3) -> bool {
    ivdot(ivsub(player_pos, ship_pos), ship_right) < 0
}

/// Classify which side of a ship the player lies on.
pub fn is_to_left_of_player(player_pos: &Vec3, ship_pos: &Vec3, ship_right: &Vec3) -> (r: bool)
    requires
        player_pos.in_range(),
        ship_pos.in_range(),
        ship_right.in_range(),
    ensures
        r == left_of(player_pos@, ship_pos@, ship_right@),
{
    let to_player = crate::vec3::sub(player_pos, ship_pos);
    let d = crate::vec3::dot_wide(&to_player, ship_right);
    d < 0
}

/// The wheel angle the AI commands: six times the unsigned angle to the
/// player (which lies in `[0, pi]`), steered toward the side the player is
/// on.  The result always lands inside the wheel's clamp bound.
pub fn ai_steering_angle(angle_to_player_urad: i64, player_is_left: bool) -> (a: i64)
    requires
        0 <= angle_to_player_urad <= PI_URAD,
    ensures
        a == if player_is_left {
            6 * angle_to_player_urad
        } else {
            -6 * angle_to_player_urad
        },
        -STEERING_LIMIT_URAD <= a <= STEERING_LIMIT_URAD,
{
    if player_is_left {
        6 * angle_to_player_urad
    } else {
        -6 * angle_to_player_urad
    }
}

/// Law: the side test is antisymmetric.  Swapping the two positions while
/// the orientation stays fixed negates the dot product, so whenever the
/// product is nonzero the "left of" classification flips.
pub proof fn lemma_side_test_antisymmetric(a: IVec3, b: IVec3, right: IVec3)
    ensures
        ivdot(ivsub(a, b), right) == -ivdot(ivsub(b, a), right),
        ivdot(ivsub(a, b), right) != 0 ==> left_of(a, b, right) != left_of(b, a, right),
{
    assert((a.x - b.x) * right.x == -((b.x - a.x) * right.x)) by (nonlinear_arith);
    assert((a.y - b.y) * right.y == -((b.y - a.y) * right.y)) by (nonlinear_arith);
    assert((a.z - b.z) * right.z == -((b.z - a.z) * right.z)) by (nonlinear_arith);
}

} // verus!
