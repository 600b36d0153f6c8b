//! The obstacles that a session starts with: four walls round the field and
//! a grid of bricks.

use vstd::prelude::*;
use crate::bodies::{Collider, ColliderKind, PlayField};
use crate::geometry::{AxisAlignedBox, Vector2, COORD_LIMIT};

verus! {

/// The wall at place `k` of the four: left, right, bottom, top. Each is
/// centred on an edge of the field and reaches `half_thickness` to either
/// side of it and beyond both of its ends.
pub open spec fn wall_at(field: PlayField, half_thickness: i64, first_id: u64, k: int) -> Collider {
    let upright: Vector2 = Vector2 {
        x: half_thickness,
        y: (field.half_height + half_thickness) as i64,
    };
    let level: Vector2 = Vector2 { x: (field.half_width + half_thickness) as i64, y: half_thickness };
    let body: AxisAlignedBox = if k == 0 {
        AxisAlignedBox { center: Vector2 { x: (-field.half_width) as i64, y: 0 }, half_extent: upright }
    } else if k == 1 {
        AxisAlignedBox { center: Vector2 { x: field.half_width, y: 0 }, half_extent: upright }
    } else if k == 2 {
        AxisAlignedBox { center: Vector2 { x: 0, y: (-field.half_height) as i64 }, half_extent: level }
    } else {
        AxisAlignedBox { center: Vector2 { x: 0, y: field.half_height }, half_extent: level }
    };
    Collider { id: (first_id + k) as u64, kind: ColliderKind::Solid, body }
}

/// The four walls round the field, numbered from `first_id` on.
pub fn walls(field: &PlayField, half_thickness: i64, first_id: u64) -> (walls: Vec<Collider>)
    requires
        field.well_formed(),
        0 <= half_thickness,
        field.half_width + half_thickness <= COORD_LIMIT,
        field.half_height + half_thickness <= COORD_LIMIT,
        first_id + 3 <= u64::MAX,
    ensures
        walls@ == Seq::new(4, |k: int| wall_at(*field, half_thickness, first_id, k)),
        forall|k: int| 0 <= k < 4 ==> (#[trigger] walls@[k]).well_formed(),
{
    let upright: Vector2 = Vector2 { x: half_thickness, y: field.half_height + half_thickness };
    let level: Vector2 = Vector2 { x: field.half_width + half_thickness, y: half_thickness };
    let mut walls: Vec<Collider> = Vec::new();
    walls.push(
        Collider {
            id: first_id,
            kind: ColliderKind::Solid,
            body: AxisAlignedBox { center: Vector2 { x: -field.half_width, y: 0 }, half_extent: upright },
        },
    );
    walls.push(
        Collider {
            id: first_id + 1,
            kind: ColliderKind::Solid,
            body: AxisAlignedBox { center: Vector2 { x: field.half_width, y: 0 }, half_extent: upright },
        },
    );
    walls.push(
        Collider {
            id: first_id + 2,
            kind: ColliderKind::Solid,
            body: AxisAlignedBox { center: Vector2 { x: 0, y: -field.half_height }, half_extent: level },
        },
    );
    walls.push(
        Collider {
            id: first_id + 3,
            kind: ColliderKind::Solid,
            body: AxisAlignedBox { center: Vector2 { x: 0, y: field.half_height }, half_extent: level },
        },
    );
    proof {
        assert(walls@ =~= Seq::new(4, |k: int| wall_at(*field, half_thickness, first_id, k)));
    }
    walls
}

/// A grid of equal bricks, centred on the vertical axis, its rows stacked
/// upwards from `bottom`.
#[derive(Clone, Copy, Debug, PartialEq, Eq, Structural)]
pub struct BrickGrid {
    pub rows: u32,
    pub columns: u32,
    pub brick_half_extent: Vector2,
    /// The gap between neighbouring bricks, sideways and upwards.
    pub spacing: i64,
    /// Height of the centres of the lowest row.
    pub bottom: i64,
}

impl BrickGrid {
    /// Distance between the centres of neighbouring columns.
    pub open spec fn pitch_x(self) -> int {
        2 * self.brick_half_extent.x + self.spacing
    }

    /// Distance between the centres of neighbouring rows.
    pub open spec fn pitch_y(self) -> int {
        2 * self.brick_half_extent.y + self.spacing
    }

    /// The number of bricks.
    pub open spec fn count(self) -> int {
        self.rows * self.columns
    }

    /// The brick size and the spacing are not negative, and neither the
    /// width of a full row of pitches nor the height of the bottom plus a
    /// pitch for every row exceeds `COORD_LIMIT`.
    pub open spec fn well_formed(self) -> bool {
        &&& 0 <= self.brick_half_extent.x <= COORD_LIMIT
        &&& 0 <= self.brick_half_extent.y <= COORD_LIMIT
        &&& 0 <= self.spacing <= COORD_LIMIT
        &&& -COORD_LIMIT <= self.bottom <= COORD_LIMIT
        &&& self.columns * self.pitch_x() <= COORD_LIMIT
        &&& self.bottom + self.rows * self.pitch_y() <= COORD_LIMIT
    }

    /// Whether the grid is well formed.
    pub fn is_well_formed(&self) -> (ok: bool)
        ensures
            ok == self.well_formed(),
    {
        if !(0 <= self.brick_half_extent.x && self.brick_half_extent.x <= COORD_LIMIT && 0
            <= self.brick_half_extent.y && self.brick_half_extent.y <= COORD_LIMIT && 0
            <= self.spacing && self.spacing <= COORD_LIMIT && -COORD_LIMIT <= self.bottom
            && self.bottom <= COORD_LIMIT) {
            return false;
        }
        let pitch_x: i128 = 2 * (self.brick_half_extent.x as i128) + (self.spacing as i128);
        let pitch_y: i128 = 2 * (self.brick_half_extent.y as i128) + (self.spacing as i128);
        proof {
            lemma_extent_fits(self.columns as int, pitch_x as int);
            lemma_extent_fits(self.rows as int, pitch_y as int);
        }
        (self.columns as i128) * pitch_x <= COORD_LIMIT as i128 && (self.bottom as i128) + (
        self.rows as i128) * pitch_y <= COORD_LIMIT as i128
    }

    /// Centre of the bricks of a column: the columns are spread evenly about
    /// the vertical axis, the half of an odd width rounded down.
    pub open spec fn center_x(self, column: int) -> int {
        column * self.pitch_x() - ((self.columns - 1) * self.pitch_x()) / 2
    }

    /// Centre of the bricks of a row.
    pub open spec fn center_y(self, row: int) -> int {
        self.bottom + row * self.pitch_y()
    }

    /// The brick at place `k`, counting along the rows from the lowest one
    /// up.
    pub open spec fn brick_at(self, first_id: u64, k: int) -> Collider {
        Collider {
            id: (first_id + k) as u64,
            kind: ColliderKind::Scorable,
            body: AxisAlignedBox {
                center: Vector2 {
                    x: self.center_x(k % (self.columns as int)) as i64,
                    y: self.center_y(k / (self.columns as int)) as i64,
                },
                half_extent: self.brick_half_extent,
            },
        }
    }

    /// All bricks of the grid, row by row from the lowest one up, numbered
    /// from `first_id` on.
    pub fn bricks(&self, first_id: u64) -> (bricks: Vec<Collider>)
        requires
            self.well_formed(),
            first_id + self.count() <= u64::MAX,
        ensures
            bricks@ == Seq::new(self.count() as nat, |k: int| self.brick_at(first_id, k)),
            forall|k: int| 0 <= k < bricks@.len() ==> (#[trigger] bricks@[k]).well_formed(),
    {
        let pitch_x: i64 = 2 * self.brick_half_extent.x + self.spacing;
        let pitch_y: i64 = 2 * self.brick_half_extent.y + self.spacing;
        proof {
            lemma_grid_extent(self.columns as int, self.pitch_x(), self.columns as int - 1);
        }
        let centring: i64 = if self.columns == 0 {
            0
        } else {
            ((self.columns - 1) as i64 * pitch_x) / 2
        };
        let mut bricks: Vec<Collider> = Vec::new();
        let mut id: u64 = first_id;
        let mut row: u32 = 0;
        while row < self.rows
            invariant
                self.well_formed(),
                first_id + self.count() <= u64::MAX,
                row <= self.rows,
                pitch_x == self.pitch_x(),
                pitch_y == self.pitch_y(),
                self.columns > 0 ==> centring == ((self.columns - 1) * self.pitch_x()) / 2,
                id == first_id + row * self.columns,
                bricks@ == Seq::new(
                    (row * self.columns) as nat,
                    |k: int| self.brick_at(first_id, k),
                ),
                forall|k: int| 0 <= k < bricks@.len() ==> (#[trigger] bricks@[k]).well_formed(),
            decreases self.rows - row,
        {
            proof {
                lemma_grid_extent(self.rows as int, self.pitch_y(), row as int);
            }
            let y: i64 = self.bottom + (row as i64) * pitch_y;
            let mut column: u32 = 0;
            while column < self.columns
                invariant
                    self.well_formed(),
                    first_id + self.count() <= u64::MAX,
                    row < self.rows,
                    column <= self.columns,
                    pitch_x == self.pitch_x(),
                    self.columns > 0 ==> centring == ((self.columns - 1) * self.pitch_x()) / 2,
                    y == self.center_y(row as int),
                    -COORD_LIMIT <= y <= COORD_LIMIT,
                    id == first_id + row * self.columns + column,
                    bricks@ == Seq::new(
                        (row * self.columns + column) as nat,
                        |k: int| self.brick_at(first_id, k),
                    ),
                    forall|k: int| 0 <= k < bricks@.len() ==> (#[trigger] bricks@[k]).well_formed(),
                decreases self.columns - column,
            {
                proof {
                    lemma_grid_extent(self.columns as int, self.pitch_x(), column as int);
                    lemma_grid_extent(self.columns as int, self.pitch_x(), self.columns as int - 1);
                    lemma_place_in_bounds(
                        self.rows as int,
                        self.columns as int,
                        row as int,
                        column as int,
                    );
                }
                let x: i64 = (column as i64) * pitch_x - centring;
                let brick: Collider = Collider {
                    id,
                    kind: ColliderKind::Scorable,
                    body: AxisAlignedBox {
                        center: Vector2 { x, y },
                        half_extent: self.brick_half_extent,
                    },
                };
                proof {
                    let k: int = row * self.columns + column;
                    assert(brick == self.brick_at(first_id, k));
                    assert(bricks@.push(brick) =~= Seq::new(
                        (k + 1) as nat,
                        |j: int| self.brick_at(first_id, j),
                    ));
                }
                bricks.push(brick);
                id = id + 1;
                column = column + 1;
            }
            proof {
                assert(row * self.columns + self.columns == (row + 1) * self.columns)
                    by (nonlinear_arith);
            }
            row = row + 1;
        }
        bricks
    }
}

proof fn lemma_extent_fits(count: int, pitch: int)
    requires
        0 <= count <= u32::MAX,
        0 <= pitch <= 3 * COORD_LIMIT,
    ensures
        0 <= count * pitch <= 0x1_0000_0000 * (3 * COORD_LIMIT),
{
    assert(0 <= count * pitch <= 0x1_0000_0000 * (3 * 1_099_511_627_776)) by (nonlinear_arith)
        requires
            0 <= count <= 0xffff_ffff,
            0 <= pitch <= 3 * 1_099_511_627_776,
    ;
}

/// A place within the grid lies within the grid's extent along an axis.
proof fn lemma_grid_extent(count: int, pitch: int, place: int)
    requires
        0 <= pitch,
        -1 <= place < count,
        0 <= count,
    ensures
        place >= 0 ==> 0 <= place * pitch <= count * pitch,
        place == -1 ==> place * pitch == -pitch,
        0 <= (place + 1) * pitch <= count * pitch,
{
    assert(place >= 0 ==> 0 <= place * pitch <= count * pitch) by (nonlinear_arith)
        requires
            0 <= pitch,
            place < count,
    ;
    assert(place == -1 ==> place * pitch == -pitch) by (nonlinear_arith);
    assert(0 <= (place + 1) * pitch <= count * pitch) by (nonlinear_arith)
        requires
            0 <= pitch,
            -1 <= place < count,
    ;
}

/// Counting along the rows, the brick of a row and a column stands at the
/// place `row * columns + column`, and that place tells the row and the
/// column again.
proof fn lemma_place_in_bounds(rows: int, columns: int, row: int, column: int)
    requires
        0 <= row < rows,
        0 <= column < columns,
    ensures
        0 <= row * columns + column < rows * columns,
        0 <= row * columns,
        (row * columns + column) / columns == row,
        (row * columns + column) % columns == column,
{
    assert(0 <= row * columns + column < rows * columns && 0 <= row * columns) by (nonlinear_arith)
        requires
            0 <= row < rows,
            0 <= column < columns,
    ;
    vstd::arithmetic::div_mod::lemma_fundamental_div_mod_converse(
        row * columns + column,
        columns,
        row,
        column,
    );
}

} // verus!
