//! What a hit does to the ball's velocity: which face was struck, the
//! reflection off it, and the speed-up that a broken brick gives.

use vstd::prelude::*;
use crate::geometry::{AxisAlignedBox, Vector2, COORD_LIMIT};

verus! {

/// The face of a collider that the ball struck.
#[derive(Clone, Copy, Debug, PartialEq, Eq, Structural)]
pub enum Side {
    Left,
    Right,
    Top,
    Bottom,
}

/// Speed after breaking a brick, in hundredths of the speed before.
pub const SPEED_UP_PERCENT: i64 = 105;

/// The face through which a ball that overlaps `other` has entered it: the
/// axis on which the two boxes share the shorter stretch, vertical where the
/// stretches are equal; on that axis, the low face where the ball's centre is
/// below the collider's, otherwise the high face.
pub open spec fn impact_side(ball: AxisAlignedBox, other: AxisAlignedBox) -> Side {
    if ball.depth_x(other) < ball.depth_y(other) {
        if ball.center.x < other.center.x {
            Side::Left
        } else {
            Side::Right
        }
    } else {
        if ball.center.y < other.center.y {
            Side::Bottom
        } else {
            Side::Top
        }
    }
}

/// The ball is moving into the face: only then does a hit turn it round.
pub open spec fn opposes(velocity: Vector2, side: Side) -> bool {
    match side {
        Side::Left => velocity.x > 0,
        Side::Right => velocity.x < 0,
        Side::Top => velocity.y < 0,
        Side::Bottom => velocity.y > 0,
    }
}

/// The velocity after a hit on `side`: the component across the face changes
/// sign where the ball was moving into the face; nothing else changes.
pub open spec fn reflected(velocity: Vector2, side: Side) -> Vector2 {
    if !opposes(velocity, side) {
        velocity
    } else {
        match side {
            Side::Left | Side::Right => Vector2 { x: (-velocity.x) as i64, y: velocity.y },
            Side::Top | Side::Bottom => Vector2 { x: velocity.x, y: (-velocity.y) as i64 },
        }
    }
}

/// A velocity component times `SPEED_UP_PERCENT` over a hundred, rounded
/// towards zero and held within `COORD_LIMIT`.
pub open spec fn sped_up_axis(component: int) -> int {
    let scaled: int = if component >= 0 {
        component * SPEED_UP_PERCENT / 100
    } else {
        -((-component) * SPEED_UP_PERCENT / 100)
    };
    if scaled > COORD_LIMIT {
        COORD_LIMIT as int
    } else if scaled < -COORD_LIMIT {
        -COORD_LIMIT
    } else {
        scaled
    }
}

/// The velocity after a speed-up: both components scaled alike, so the
/// direction stays.
pub open spec fn sped_up(velocity: Vector2) -> Vector2 {
    Vector2 {
        x: sped_up_axis(velocity.x as int) as i64,
        y: sped_up_axis(velocity.y as int) as i64,
    }
}

/// The square of a velocity's magnitude.
pub open spec fn speed_squared(velocity: Vector2) -> int {
    velocity.x * velocity.x + velocity.y * velocity.y
}

/// Names the face through which a ball that overlaps `other` has entered.
pub fn classify_impact(ball: &AxisAlignedBox, other: &AxisAlignedBox) -> (side: Side)
    requires
        ball.well_formed(),
        other.well_formed(),
    ensures
        side == impact_side(*ball, *other),
{
    let depth: Vector2 = ball.penetration(other);
    if depth.x < depth.y {
        if ball.center.x < other.center.x {
            Side::Left
        } else {
            Side::Right
        }
    } else {
        if ball.center.y < other.center.y {
            Side::Bottom
        } else {
            Side::Top
        }
    }
}

/// Turns the velocity round off the struck face, unless the ball is already
/// moving away from it.
pub fn reflect(velocity: Vector2, side: Side) -> (turned: Vector2)
    requires
        velocity.in_range(),
    ensures
        turned == reflected(velocity, side),
        turned.in_range(),
        speed_squared(turned) == speed_squared(velocity),
{
    let mut turned: Vector2 = velocity;
    match side {
        Side::Left => {
            if velocity.x > 0 {
                turned.negate_x();
            }
        },
        Side::Right => {
            if velocity.x < 0 {
                turned.negate_x();
            }
        },
        Side::Top => {
            if velocity.y < 0 {
                turned.negate_y();
            }
        },
        Side::Bottom => {
            if velocity.y > 0 {
                turned.negate_y();
            }
        },
    }
    proof {
        lemma_square_of_negation(velocity.x as int);
        lemma_square_of_negation(velocity.y as int);
    }
    turned
}

fn speed_up_axis(component: i64) -> (faster: i64)
    requires
        -COORD_LIMIT <= component <= COORD_LIMIT,
    ensures
        faster == sped_up_axis(component as int),
        -COORD_LIMIT <= faster <= COORD_LIMIT,
{
    let scaled: i64 = if component >= 0 {
        component * SPEED_UP_PERCENT / 100
    } else {
        -((-component) * SPEED_UP_PERCENT / 100)
    };
    if scaled > COORD_LIMIT {
        COORD_LIMIT
    } else if scaled < -COORD_LIMIT {
        -COORD_LIMIT
    } else {
        scaled
    }
}

/// Scales the velocity by `SPEED_UP_PERCENT` over a hundred.
pub fn speed_up(velocity: Vector2) -> (faster: Vector2)
    requires
        velocity.in_range(),
    ensures
        faster == sped_up(velocity),
        faster.in_range(),
{
    Vector2 { x: speed_up_axis(velocity.x), y: speed_up_axis(velocity.y) }
}

proof fn lemma_square_of_negation(a: int)
    ensures
        (-a) * (-a) == a * a,
{
    assert((-a) * (-a) == a * a) by (nonlinear_arith);
}

/// A reflection changes no component's magnitude, so the speed stays.
pub proof fn lemma_reflection_keeps_speed(velocity: Vector2, side: Side)
    requires
        velocity.in_range(),
    ensures
        reflected(velocity, side).x == velocity.x || reflected(velocity, side).x == -velocity.x,
        reflected(velocity, side).y == velocity.y || reflected(velocity, side).y == -velocity.y,
        speed_squared(reflected(velocity, side)) == speed_squared(velocity),
{
    lemma_square_of_negation(velocity.x as int);
    lemma_square_of_negation(velocity.y as int);
}

/// A ball that is moving away from the struck face keeps its velocity.
pub proof fn lemma_no_turn_when_leaving(velocity: Vector2, side: Side)
    requires
        !opposes(velocity, side),
    ensures
        reflected(velocity, side) == velocity,
{
}

/// After a reflection the ball no longer moves into the struck face.
pub proof fn lemma_reflection_leaves(velocity: Vector2, side: Side)
    requires
        velocity.in_range(),
    ensures
        !opposes(reflected(velocity, side), side),
{
}

/// A speed-up multiplies a component by exactly `SPEED_UP_PERCENT` over a
/// hundred where that is a whole number within range.
pub proof fn lemma_speed_up_is_exact(component: int)
    requires
        -COORD_LIMIT <= component * SPEED_UP_PERCENT / 100 <= COORD_LIMIT,
        (component * SPEED_UP_PERCENT) % 100 == 0,
    ensures
        sped_up_axis(component) * 100 == component * SPEED_UP_PERCENT,
{
}

/// A speed-up and a reflection can be taken in either order.
pub proof fn lemma_speed_up_keeps_direction(velocity: Vector2, side: Side)
    requires
        velocity.in_range(),
    ensures
        opposes(sped_up(velocity), side) == opposes(velocity, side),
        reflected(sped_up(velocity), side) == sped_up(reflected(velocity, side)),
{
}

} // verus!
