//! The swept test: whether the ball's centre, on its straight way from where
//! it was before the step to where it is after, runs into a collider, and
//! where it first touches it.
//!
//! The collider is widened by the ball's half-extent on every side, so that
//! the ball touches the collider exactly where its centre meets the widened
//! box. Times along the way are fractions of the step and are compared by
//! cross-multiplying, so nothing is rounded but the point of contact.

use vstd::prelude::*;
use crate::geometry::{AxisAlignedBox, Vector2, COORD_LIMIT};
use crate::response::Side;

verus! {

/// Lower edge of the widened collider on the horizontal axis.
pub open spec fn low_x(half_extent: Vector2, other: AxisAlignedBox) -> int {
    other.min_x() - half_extent.x
}

/// Upper edge of the widened collider on the horizontal axis.
pub open spec fn high_x(half_extent: Vector2, other: AxisAlignedBox) -> int {
    other.max_x() + half_extent.x
}

/// Lower edge of the widened collider on the vertical axis.
pub open spec fn low_y(half_extent: Vector2, other: AxisAlignedBox) -> int {
    other.min_y() - half_extent.y
}

/// Upper edge of the widened collider on the vertical axis.
pub open spec fn high_y(half_extent: Vector2, other: AxisAlignedBox) -> int {
    other.max_y() + half_extent.y
}

/// The distance covered along one axis.
pub open spec fn travel(start: int, end: int) -> int {
    if end > start { end - start } else { start - end }
}

/// The distance, in the direction of travel, from the start to the edge
/// through which the stretch between `low` and `high` is entered. It is
/// negative where that edge lies behind the start.
pub open spec fn entry_distance(start: int, end: int, low: int, high: int) -> int {
    if end > start { low - start } else { start - high }
}

/// The distance, in the direction of travel, from the start to the edge
/// through which the stretch between `low` and `high` is left.
pub open spec fn exit_distance(start: int, end: int, low: int, high: int) -> int {
    if end > start { high - start } else { start - low }
}

/// The centre, moving in a straight line from `start` to `end`, comes from
/// outside the widened collider, or from its edge, and is inside it at some
/// time before the end of the step.
///
/// On an axis along which the centre moves, it is between the edges from the
/// time `entry_distance / travel` to the time `exit_distance / travel`; on an
/// axis along which it rests, always or never. The centre is inside while it
/// is between the edges on both axes: from the later of the two entries to
/// the earlier of the two exits. That entry must not lie before the start,
/// and must lie before the end and before that exit.
pub open spec fn crosses(
    start: Vector2,
    end: Vector2,
    half_extent: Vector2,
    other: AxisAlignedBox,
) -> bool {
    let lx: int = low_x(half_extent, other);
    let hx: int = high_x(half_extent, other);
    let ly: int = low_y(half_extent, other);
    let hy: int = high_y(half_extent, other);
    let tx: int = travel(start.x as int, end.x as int);
    let ty: int = travel(start.y as int, end.y as int);
    let in_x: int = entry_distance(start.x as int, end.x as int, lx, hx);
    let in_y: int = entry_distance(start.y as int, end.y as int, ly, hy);
    let out_x: int = exit_distance(start.x as int, end.x as int, lx, hx);
    let out_y: int = exit_distance(start.y as int, end.y as int, ly, hy);
    &&& lx < hx
    &&& ly < hy
    &&& if tx == 0 && ty == 0 {
        false
    } else if ty == 0 {
        ly < start.y < hy && 0 <= in_x < tx
    } else if tx == 0 {
        lx < start.x < hx && 0 <= in_y < ty
    } else {
        &&& in_x >= 0 || in_y >= 0
        &&& in_x < tx
        &&& in_y < ty
        &&& in_x * ty < out_y * tx
        &&& in_y * tx < out_x * ty
    }
}

/// The widened collider is entered through a vertical face, left or right:
/// the centre comes between the horizontal edges strictly later than between
/// the vertical ones. Where both happen at once, at a corner, the entry
/// counts as one through a horizontal face.
pub open spec fn enters_sideways(
    start: Vector2,
    end: Vector2,
    half_extent: Vector2,
    other: AxisAlignedBox,
) -> bool {
    let tx: int = travel(start.x as int, end.x as int);
    let ty: int = travel(start.y as int, end.y as int);
    let in_x: int = entry_distance(
        start.x as int,
        end.x as int,
        low_x(half_extent, other),
        high_x(half_extent, other),
    );
    let in_y: int = entry_distance(
        start.y as int,
        end.y as int,
        low_y(half_extent, other),
        high_y(half_extent, other),
    );
    ty == 0 || (tx != 0 && in_x * ty > in_y * tx)
}

/// The face through which a crossing centre enters.
pub open spec fn entry_side(
    start: Vector2,
    end: Vector2,
    half_extent: Vector2,
    other: AxisAlignedBox,
) -> Side {
    if enters_sideways(start, end, half_extent, other) {
        if end.x > start.x {
            Side::Left
        } else {
            Side::Right
        }
    } else {
        if end.y > start.y {
            Side::Bottom
        } else {
            Side::Top
        }
    }
}

/// The share `part / whole` of the displacement `delta`, rounded towards
/// zero.
pub open spec fn carried(delta: int, part: int, whole: int) -> int {
    if delta >= 0 {
        delta * part / whole
    } else {
        -((-delta) * part / whole)
    }
}

/// Where the centre of a crossing ball is when the ball first touches the
/// collider. Across the struck face the coordinate is exactly the widened
/// collider's edge; along it, the coordinate at the time of entry, rounded
/// towards the start.
pub open spec fn entry_point(
    start: Vector2,
    end: Vector2,
    half_extent: Vector2,
    other: AxisAlignedBox,
) -> Vector2 {
    let lx: int = low_x(half_extent, other);
    let hx: int = high_x(half_extent, other);
    let ly: int = low_y(half_extent, other);
    let hy: int = high_y(half_extent, other);
    if enters_sideways(start, end, half_extent, other) {
        Vector2 {
            x: (if end.x > start.x { lx } else { hx }) as i64,
            y: (start.y + carried(
                end.y - start.y,
                entry_distance(start.x as int, end.x as int, lx, hx),
                travel(start.x as int, end.x as int),
            )) as i64,
        }
    } else {
        Vector2 {
            x: (start.x + carried(
                end.x - start.x,
                entry_distance(start.y as int, end.y as int, ly, hy),
                travel(start.y as int, end.y as int),
            )) as i64,
            y: (if end.y > start.y { ly } else { hy }) as i64,
        }
    }
}

/// A coordinate lies between two others, in either order.
pub open spec fn between(a: int, b: int, c: int) -> bool {
    (a <= c <= b) || (b <= c <= a)
}

/// The first touch of a swept ball: the face it strikes and where its centre
/// is at that time.
#[derive(Clone, Copy, Debug, PartialEq, Eq, Structural)]
pub struct Entry {
    pub side: Side,
    pub point: Vector2,
}

/// The first touch of a ball whose centre moves from `start` to `end`, if
/// it runs into `other` on the way.
pub open spec fn swept_entry(
    start: Vector2,
    end: Vector2,
    half_extent: Vector2,
    other: AxisAlignedBox,
) -> Option<Entry> {
    if crosses(start, end, half_extent, other) {
        Some(
            Entry {
                side: entry_side(start, end, half_extent, other),
                point: entry_point(start, end, half_extent, other),
            },
        )
    } else {
        None
    }
}

proof fn lemma_product_bound(a: int, b: int)
    requires
        -4 * COORD_LIMIT <= a <= 4 * COORD_LIMIT,
        -4 * COORD_LIMIT <= b <= 4 * COORD_LIMIT,
    ensures
        -0x10_0000_0000_0000_0000_0000 <= a * b <= 0x10_0000_0000_0000_0000_0000,
{
    assert(-0x10_0000_0000_0000_0000_0000 <= a * b <= 0x10_0000_0000_0000_0000_0000)
        by (nonlinear_arith)
        requires
            -0x400_0000_0000 <= a <= 0x400_0000_0000,
            -0x400_0000_0000 <= b <= 0x400_0000_0000,
    ;
}

/// A share of a displacement is no longer than the displacement and points
/// the same way.
proof fn lemma_carried_is_between(delta: int, part: int, whole: int)
    requires
        0 <= part <= whole,
        0 < whole,
    ensures
        between(0, delta, carried(delta, part, whole)),
{
    let size: int = if delta >= 0 { delta } else { -delta };
    assert(0 <= size * part / whole <= size) by (nonlinear_arith)
        requires
            0 <= size,
            0 <= part <= whole,
            0 < whole,
    ;
}

fn carry(delta: i64, part: i64, whole: i64) -> (share: i64)
    requires
        -2 * COORD_LIMIT <= delta <= 2 * COORD_LIMIT,
        0 <= part <= whole <= 2 * COORD_LIMIT,
        0 < whole,
    ensures
        share == carried(delta as int, part as int, whole as int),
        between(0, delta as int, share as int),
{
    let size: i128 = if delta >= 0 { delta as i128 } else { -(delta as i128) };
    proof {
        lemma_product_bound(size as int, part as int);
        lemma_carried_is_between(delta as int, part as int, whole as int);
    }
    let quotient: i128 = size * (part as i128) / (whole as i128);
    if delta >= 0 {
        quotient as i64
    } else {
        -(quotient as i64)
    }
}

/// In a crossing with movement on both axes, the entry that comes later is
/// not before the start.
proof fn lemma_later_entry_is_ahead(in_x: int, in_y: int, tx: int, ty: int)
    requires
        tx > 0,
        ty > 0,
    ensures
        (in_x >= 0 || in_y >= 0) && in_x * ty > in_y * tx ==> in_x >= 0,
        (in_x >= 0 || in_y >= 0) && in_x * ty <= in_y * tx ==> in_y >= 0,
{
    assert((in_x >= 0 || in_y >= 0) && in_x * ty > in_y * tx ==> in_x >= 0) by (nonlinear_arith)
        requires
            tx > 0,
            ty > 0,
    ;
    assert((in_x >= 0 || in_y >= 0) && in_x * ty <= in_y * tx ==> in_y >= 0) by (nonlinear_arith)
        requires
            tx > 0,
            ty > 0,
    ;
}

/// Finds the first touch of a ball of the given half-extent whose centre
/// moves in a straight line from `start` to `end`, if it runs into `other`
/// before the end.
pub fn sweep(start: Vector2, end: Vector2, half_extent: Vector2, other: &AxisAlignedBox) -> (entry:
    Option<Entry>)
    requires
        start.in_range(),
        end.in_range(),
        half_extent.in_range(),
        half_extent.x >= 0,
        half_extent.y >= 0,
        other.well_formed(),
    ensures
        entry == swept_entry(start, end, half_extent, *other),
        entry matches Some(e) ==> between(start.x as int, end.x as int, e.point.x as int)
            && between(start.y as int, end.y as int, e.point.y as int) && e.point.in_range(),
{
    let lx: i64 = other.center.x - other.half_extent.x - half_extent.x;
    let hx: i64 = other.center.x + other.half_extent.x + half_extent.x;
    let ly: i64 = other.center.y - other.half_extent.y - half_extent.y;
    let hy: i64 = other.center.y + other.half_extent.y + half_extent.y;
    if lx >= hx || ly >= hy {
        return None;
    }
    let rightwards: bool = end.x > start.x;
    let upwards: bool = end.y > start.y;
    let tx: i64 = if rightwards { end.x - start.x } else { start.x - end.x };
    let ty: i64 = if upwards { end.y - start.y } else { start.y - end.y };
    let in_x: i64 = if rightwards { lx - start.x } else { start.x - hx };
    let in_y: i64 = if upwards { ly - start.y } else { start.y - hy };
    let out_x: i64 = if rightwards { hx - start.x } else { start.x - lx };
    let out_y: i64 = if upwards { hy - start.y } else { start.y - ly };
    if tx == 0 && ty == 0 {
        return None;
    }
    let sideways: bool;
    if ty == 0 {
        if !(ly < start.y && start.y < hy && 0 <= in_x && in_x < tx) {
            return None;
        }
        sideways = true;
    } else if tx == 0 {
        if !(lx < start.x && start.x < hx && 0 <= in_y && in_y < ty) {
            return None;
        }
        sideways = false;
    } else {
        proof {
            lemma_product_bound(in_x as int, ty as int);
            lemma_product_bound(out_y as int, tx as int);
            lemma_product_bound(in_y as int, tx as int);
            lemma_product_bound(out_x as int, ty as int);
            lemma_later_entry_is_ahead(in_x as int, in_y as int, tx as int, ty as int);
        }
        let x_entry: i128 = (in_x as i128) * (ty as i128);
        let y_entry: i128 = (in_y as i128) * (tx as i128);
        let x_exit: i128 = (out_x as i128) * (ty as i128);
        let y_exit: i128 = (out_y as i128) * (tx as i128);
        if !((in_x >= 0 || in_y >= 0) && in_x < tx && in_y < ty && x_entry < y_exit && y_entry
            < x_exit) {
            return None;
        }
        sideways = x_entry > y_entry;
    }
    if sideways {
        let along: i64 = carry(end.y - start.y, in_x, tx);
        Some(
            Entry {
                side: if rightwards { Side::Left } else { Side::Right },
                point: Vector2 { x: if rightwards { lx } else { hx }, y: start.y + along },
            },
        )
    } else {
        let along: i64 = carry(end.x - start.x, in_y, ty);
        Some(
            Entry {
                side: if upwards { Side::Bottom } else { Side::Top },
                point: Vector2 { x: start.x + along, y: if upwards { ly } else { hy } },
            },
        )
    }
}

/// A share of the travel along one axis, taken at the time of entry on the
/// other axis, lies between the two edges of that axis, rounding included.
proof fn lemma_share_is_inside(span: int, part: int, whole: int, near: int, far: int)
    requires
        whole > 0,
        span >= 0,
        part >= 0,
        near * whole <= part * span,
        part * span < far * whole,
    ensures
        near <= span * part / whole <= far,
{
    let product: int = span * part;
    let share: int = product / whole;
    assert(product == part * span) by (nonlinear_arith)
        requires
            product == span * part,
    ;
    vstd::arithmetic::div_mod::lemma_fundamental_div_mod(product, whole);
    vstd::arithmetic::div_mod::lemma_mod_bound(product, whole);
    assert(near <= share) by (nonlinear_arith)
        requires
            whole > 0,
            near * whole <= product,
            product < whole * share + whole,
    ;
    assert(share <= far) by (nonlinear_arith)
        requires
            whole > 0,
            product < far * whole,
            whole * share <= product,
    ;
}

/// At the point of first touch the ball lies against the face it struck and
/// reaches nowhere into the collider: across the face its edge is exactly on
/// the collider's, and along the face it is level with the collider or
/// touches its corner. The point lies on the way from `start` to `end`.
pub proof fn lemma_entry_point_touches(
    start: Vector2,
    end: Vector2,
    half_extent: Vector2,
    other: AxisAlignedBox,
)
    requires
        start.in_range(),
        end.in_range(),
        half_extent.in_range(),
        half_extent.x >= 0,
        half_extent.y >= 0,
        other.well_formed(),
        crosses(start, end, half_extent, other),
    ensures
        ({
            let point: Vector2 = entry_point(start, end, half_extent, other);
            let ball: AxisAlignedBox = AxisAlignedBox { center: point, half_extent };
            &&& between(start.x as int, end.x as int, point.x as int)
            &&& between(start.y as int, end.y as int, point.y as int)
            &&& !ball.overlaps(other)
            &&& match entry_side(start, end, half_extent, other) {
                Side::Left => ball.max_x() == other.min_x() && end.x > start.x,
                Side::Right => ball.min_x() == other.max_x() && end.x < start.x,
                Side::Bottom => ball.max_y() == other.min_y() && end.y > start.y,
                Side::Top => ball.min_y() == other.max_y() && end.y < start.y,
            }
            &&& match entry_side(start, end, half_extent, other) {
                Side::Left | Side::Right => ball.max_y() >= other.min_y() && ball.min_y()
                    <= other.max_y(),
                Side::Bottom | Side::Top => ball.max_x() >= other.min_x() && ball.min_x()
                    <= other.max_x(),
            }
        }),
{
    let lx: int = low_x(half_extent, other);
    let hx: int = high_x(half_extent, other);
    let ly: int = low_y(half_extent, other);
    let hy: int = high_y(half_extent, other);
    let tx: int = travel(start.x as int, end.x as int);
    let ty: int = travel(start.y as int, end.y as int);
    let in_x: int = entry_distance(start.x as int, end.x as int, lx, hx);
    let in_y: int = entry_distance(start.y as int, end.y as int, ly, hy);
    let out_x: int = exit_distance(start.x as int, end.x as int, lx, hx);
    let out_y: int = exit_distance(start.y as int, end.y as int, ly, hy);
    if tx > 0 && ty > 0 {
        lemma_later_entry_is_ahead(in_x, in_y, tx, ty);
    }
    if enters_sideways(start, end, half_extent, other) {
        lemma_carried_is_between(end.y - start.y, in_x, tx);
        if ty == 0 {
            assert(0 * in_x / tx == 0) by (nonlinear_arith)
                requires
                    tx > 0,
            ;
        } else {
            lemma_share_is_inside(ty, in_x, tx, in_y, out_y);
        }
    } else {
        lemma_carried_is_between(end.x - start.x, in_y, ty);
        if tx == 0 {
            assert(0 * in_y / ty == 0) by (nonlinear_arith)
                requires
                    ty > 0,
            ;
        } else {
            lemma_share_is_inside(tx, in_y, ty, in_x, out_x);
        }
    }
}

} // verus!
