//! Vectors and axis-aligned boxes on integer coordinates.

use vstd::prelude::*;

verus! {

/// Largest magnitude of any coordinate, extent or velocity component: 2^40.
pub const COORD_LIMIT: i64 = 1_099_511_627_776;

/// A pair of integer components: a position, a velocity or a half-extent.
#[derive(Clone, Copy, Debug, PartialEq, Eq, Structural)]
pub struct Vector2 {
    pub x: i64,
    pub y: i64,
}

impl Vector2 {
    /// Both components lie within `COORD_LIMIT` of zero.
    pub open spec fn in_range(self) -> bool {
        &&& -COORD_LIMIT <= self.x <= COORD_LIMIT
        &&& -COORD_LIMIT <= self.y <= COORD_LIMIT
    }

    pub fn new(x: i64, y: i64) -> (v: Vector2)
        ensures
            v.x == x,
            v.y == y,
    {
        Vector2 { x, y }
    }

    /// Whether both components lie within `COORD_LIMIT` of zero.
    pub fn is_in_range(&self) -> (ok: bool)
        ensures
            ok == self.in_range(),
    {
        -COORD_LIMIT <= self.x && self.x <= COORD_LIMIT && -COORD_LIMIT <= self.y && self.y
            <= COORD_LIMIT
    }

    /// Flips the sign of the horizontal component.
    pub fn negate_x(&mut self)
        requires
            old(self).x > i64::MIN,
        ensures
            final(self).x == -old(self).x,
            final(self).y == old(self).y,
    {
        self.x = -self.x;
    }

    /// Flips the sign of the vertical component.
    pub fn negate_y(&mut self)
        requires
            old(self).y > i64::MIN,
        ensures
            final(self).x == old(self).x,
            final(self).y == -old(self).y,
    {
        self.y = -self.y;
    }
}

/// A rectangle with edges parallel to the axes, held as its centre and the
/// distance from the centre to each edge.
#[derive(Clone, Copy, Debug, PartialEq, Eq, Structural)]
pub struct AxisAlignedBox {
    pub center: Vector2,
    pub half_extent: Vector2,
}

/// The smaller of two integers.
pub open spec fn lesser(a: int, b: int) -> int {
    if a <= b { a } else { b }
}

/// The larger of two integers.
pub open spec fn greater(a: int, b: int) -> int {
    if a >= b { a } else { b }
}

impl AxisAlignedBox {
    /// The centre and the half-extent are in range and the half-extent is not
    /// negative.
    pub open spec fn well_formed(self) -> bool {
        &&& self.center.in_range()
        &&& self.half_extent.in_range()
        &&& self.half_extent.x >= 0
        &&& self.half_extent.y >= 0
    }

    pub open spec fn min_x(self) -> int {
        self.center.x - self.half_extent.x
    }

    pub open spec fn max_x(self) -> int {
        self.center.x + self.half_extent.x
    }

    pub open spec fn min_y(self) -> int {
        self.center.y - self.half_extent.y
    }

    pub open spec fn max_y(self) -> int {
        self.center.y + self.half_extent.y
    }

    /// The box has a positive extent on both axes.
    pub open spec fn has_area(self) -> bool {
        self.half_extent.x > 0 && self.half_extent.y > 0
    }

    /// The two boxes share interior points: both have area, and on both axes
    /// each one starts strictly before the other ends. Boxes that only touch
    /// do not overlap, and a box without area overlaps nothing.
    pub open spec fn overlaps(self, other: AxisAlignedBox) -> bool {
        &&& self.has_area()
        &&& other.has_area()
        &&& self.min_x() < other.max_x()
        &&& self.max_x() > other.min_x()
        &&& self.min_y() < other.max_y()
        &&& self.max_y() > other.min_y()
    }

    /// Length of the stretch that the two boxes share on the horizontal axis.
    pub open spec fn depth_x(self, other: AxisAlignedBox) -> int {
        lesser(self.max_x(), other.max_x()) - greater(self.min_x(), other.min_x())
    }

    /// Length of the stretch that the two boxes share on the vertical axis.
    pub open spec fn depth_y(self, other: AxisAlignedBox) -> int {
        lesser(self.max_y(), other.max_y()) - greater(self.min_y(), other.min_y())
    }

    /// The same box around another centre.
    pub open spec fn moved_to(self, center: Vector2) -> AxisAlignedBox {
        AxisAlignedBox { center, half_extent: self.half_extent }
    }

    pub fn new(center: Vector2, half_extent: Vector2) -> (b: AxisAlignedBox)
        ensures
            b.center == center,
            b.half_extent == half_extent,
    {
        AxisAlignedBox { center, half_extent }
    }

    /// Whether the box is well formed.
    pub fn is_well_formed(&self) -> (ok: bool)
        ensures
            ok == self.well_formed(),
    {
        self.center.is_in_range() && self.half_extent.is_in_range() && self.half_extent.x >= 0
            && self.half_extent.y >= 0
    }

    /// The corner with the smallest coordinates.
    pub fn min(&self) -> (corner: Vector2)
        requires
            self.well_formed(),
        ensures
            corner.x == self.min_x(),
            corner.y == self.min_y(),
    {
        Vector2 { x: self.center.x - self.half_extent.x, y: self.center.y - self.half_extent.y }
    }

    /// The corner with the largest coordinates.
    pub fn max(&self) -> (corner: Vector2)
        requires
            self.well_formed(),
        ensures
            corner.x == self.max_x(),
            corner.y == self.max_y(),
    {
        Vector2 { x: self.center.x + self.half_extent.x, y: self.center.y + self.half_extent.y }
    }

    /// Whether the two boxes overlap.
    pub fn intersects(&self, other: &AxisAlignedBox) -> (hit: bool)
        requires
            self.well_formed(),
            other.well_formed(),
        ensures
            hit == self.overlaps(*other),
    {
        let a_min: Vector2 = self.min();
        let a_max: Vector2 = self.max();
        let b_min: Vector2 = other.min();
        let b_max: Vector2 = other.max();
        self.half_extent.x > 0 && self.half_extent.y > 0 && other.half_extent.x > 0
            && other.half_extent.y > 0 && a_min.x < b_max.x && a_max.x > b_min.x && a_min.y
            < b_max.y && a_max.y > b_min.y
    }

    /// How far the two boxes reach into each other on each axis: the
    /// horizontal depth in `x`, the vertical one in `y`. A component is
    /// negative where the boxes are apart on that axis.
    pub fn penetration(&self, other: &AxisAlignedBox) -> (depth: Vector2)
        requires
            self.well_formed(),
            other.well_formed(),
        ensures
            depth.x == self.depth_x(*other),
            depth.y == self.depth_y(*other),
    {
        let a_min: Vector2 = self.min();
        let a_max: Vector2 = self.max();
        let b_min: Vector2 = other.min();
        let b_max: Vector2 = other.max();
        let right: i64 = if a_max.x <= b_max.x { a_max.x } else { b_max.x };
        let left: i64 = if a_min.x >= b_min.x { a_min.x } else { b_min.x };
        let top: i64 = if a_max.y <= b_max.y { a_max.y } else { b_max.y };
        let bottom: i64 = if a_min.y >= b_min.y { a_min.y } else { b_min.y };
        Vector2 { x: right - left, y: top - bottom }
    }
}

/// Boxes that overlap reach into each other by a positive depth on both
/// axes, and boxes with positive depth on both axes overlap.
pub proof fn lemma_overlap_is_positive_depth(a: AxisAlignedBox, b: AxisAlignedBox)
    requires
        a.well_formed(),
        b.well_formed(),
    ensures
        a.overlaps(b) <==> (a.depth_x(b) > 0 && a.depth_y(b) > 0),
        a.overlaps(b) <==> b.overlaps(a),
{
}

} // verus!
