//! The things on the play field: the paddle, the ball, and what the ball can
//! run into.

use vstd::prelude::*;
use crate::geometry::{AxisAlignedBox, Vector2, COORD_LIMIT};

verus! {

/// What happens to a collider when the ball hits it.
#[derive(Clone, Copy, Debug, PartialEq, Eq, Structural)]
pub enum ColliderKind {
    /// Stays where it is: a wall or the paddle.
    Solid,
    /// Is destroyed by the hit and scores a point: a brick.
    Scorable,
}

/// A box that the ball bounces off, with the identity under which the host
/// knows it.
#[derive(Clone, Copy, Debug, PartialEq, Eq, Structural)]
pub struct Collider {
    pub id: u64,
    pub kind: ColliderKind,
    pub body: AxisAlignedBox,
}

impl Collider {
    pub open spec fn well_formed(self) -> bool {
        self.body.well_formed()
    }

    pub fn new(id: u64, kind: ColliderKind, body: AxisAlignedBox) -> (c: Collider)
        ensures
            c.id == id,
            c.kind == kind,
            c.body == body,
    {
        Collider { id, kind, body }
    }

    /// Whether the collider is well formed.
    pub fn is_well_formed(&self) -> (ok: bool)
        ensures
            ok == self.well_formed(),
    {
        self.body.is_well_formed()
    }
}

/// Whether every collider of the list is well formed.
pub fn are_well_formed(colliders: &Vec<Collider>) -> (ok: bool)
    ensures
        ok == all_well_formed(colliders@),
{
    let mut i: usize = 0;
    while i < colliders.len()
        invariant
            i <= colliders.len(),
            forall|j: int| 0 <= j < i ==> (#[trigger] colliders@[j]).well_formed(),
        decreases colliders.len() - i,
    {
        if !colliders[i].is_well_formed() {
            return false;
        }
        i = i + 1;
    }
    true
}

/// Every collider of the sequence is well formed.
pub open spec fn all_well_formed(colliders: Seq<Collider>) -> bool {
    forall|i: int| 0 <= i < colliders.len() ==> (#[trigger] colliders[i]).well_formed()
}

/// The moving box. Its velocity is the distance covered per unit of time.
#[derive(Clone, Copy, Debug, PartialEq, Eq, Structural)]
pub struct Ball {
    pub body: AxisAlignedBox,
    pub velocity: Vector2,
}

impl Ball {
    pub open spec fn well_formed(self) -> bool {
        self.body.well_formed() && self.velocity.in_range()
    }

    pub fn new(body: AxisAlignedBox, velocity: Vector2) -> (b: Ball)
        ensures
            b.body == body,
            b.velocity == velocity,
    {
        Ball { body, velocity }
    }

    /// Whether the ball is well formed.
    pub fn is_well_formed(&self) -> (ok: bool)
        ensures
            ok == self.well_formed(),
    {
        self.body.is_well_formed() && self.velocity.is_in_range()
    }
}

/// The box that the player steers sideways, at a fixed speed. To the ball
/// it is a solid collider.
#[derive(Clone, Copy, Debug, PartialEq, Eq, Structural)]
pub struct Paddle {
    pub id: u64,
    pub body: AxisAlignedBox,
    pub speed: i64,
}

impl Paddle {
    pub open spec fn well_formed(self) -> bool {
        self.body.well_formed() && 0 <= self.speed <= COORD_LIMIT
    }

    /// The paddle as the ball meets it.
    pub open spec fn as_collider(self) -> Collider {
        Collider { id: self.id, kind: ColliderKind::Solid, body: self.body }
    }

    pub fn new(id: u64, body: AxisAlignedBox, speed: i64) -> (p: Paddle)
        ensures
            p.id == id,
            p.body == body,
            p.speed == speed,
    {
        Paddle { id, body, speed }
    }

    /// Whether the paddle is well formed.
    pub fn is_well_formed(&self) -> (ok: bool)
        ensures
            ok == self.well_formed(),
    {
        self.body.is_well_formed() && 0 <= self.speed && self.speed <= COORD_LIMIT
    }

    /// The paddle as the ball meets it: a solid collider of its size, where
    /// it stands.
    pub fn collider(&self) -> (c: Collider)
        ensures
            c == self.as_collider(),
    {
        Collider { id: self.id, kind: ColliderKind::Solid, body: self.body }
    }
}

/// The count of bricks broken in a session.
#[derive(Clone, Copy, Debug, PartialEq, Eq, Structural)]
pub struct Scoreboard {
    pub score: u64,
}

/// The rectangle that bodies are kept in, centred on the origin.
#[derive(Clone, Copy, Debug, PartialEq, Eq, Structural)]
pub struct PlayField {
    pub half_width: i64,
    pub half_height: i64,
}

impl PlayField {
    pub open spec fn well_formed(self) -> bool {
        &&& 0 <= self.half_width <= COORD_LIMIT
        &&& 0 <= self.half_height <= COORD_LIMIT
    }

    /// A box of this half-extent is no wider and no higher than the field.
    pub open spec fn has_room_for(self, half_extent: Vector2) -> bool {
        half_extent.x <= self.half_width && half_extent.y <= self.half_height
    }

    /// The box lies inside the field: no edge of it is beyond the field's.
    pub open spec fn contains(self, body: AxisAlignedBox) -> bool {
        &&& -self.half_width <= body.min_x()
        &&& body.max_x() <= self.half_width
        &&& -self.half_height <= body.min_y()
        &&& body.max_y() <= self.half_height
    }

    pub fn new(half_width: i64, half_height: i64) -> (f: PlayField)
        ensures
            f.half_width == half_width,
            f.half_height == half_height,
    {
        PlayField { half_width, half_height }
    }

    /// Whether the field is well formed.
    pub fn is_well_formed(&self) -> (ok: bool)
        ensures
            ok == self.well_formed(),
    {
        0 <= self.half_width && self.half_width <= COORD_LIMIT && 0 <= self.half_height
            && self.half_height <= COORD_LIMIT
    }

    /// Whether the box lies inside the field.
    pub fn holds(&self, body: &AxisAlignedBox) -> (inside: bool)
        requires
            self.well_formed(),
            body.well_formed(),
        ensures
            inside == self.contains(*body),
    {
        -self.half_width <= body.center.x - body.half_extent.x && body.center.x
            + body.half_extent.x <= self.half_width && -self.half_height <= body.center.y
            - body.half_extent.y && body.center.y + body.half_extent.y <= self.half_height
    }
}

} // verus!
