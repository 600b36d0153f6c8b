//! Motion: a body's centre moves by its velocity times the time step, the
//! step being capped, and is then held inside the play field.

use vstd::prelude::*;
use crate::bodies::{Ball, Paddle, PlayField};
use crate::geometry::{greater, lesser, AxisAlignedBox, Vector2, COORD_LIMIT};

verus! {

/// The longest time step that is integrated at once, in microseconds: a
/// fifth of a second. It keeps a hitch in the frame rate from throwing a
/// body across the field.
pub const MAX_STEP: u64 = 200_000;

/// The time step that is used for an elapsed time of `dt`.
pub open spec fn clamped_step(dt: u64) -> int {
    if dt > MAX_STEP { MAX_STEP as int } else { dt as int }
}

/// Where a coordinate is after `dt`, before the field holds it back.
pub open spec fn advanced_axis(position: int, velocity: int, dt: u64) -> int {
    position + velocity * clamped_step(dt)
}

/// The coordinate nearest to `center` at which a body of half-extent
/// `half_extent` lies inside a field of half-size `half_field`. A body wider
/// than the field is put with its lower edge on the field's lower edge.
pub open spec fn clamped_axis(half_field: int, half_extent: int, center: int) -> int {
    greater(-half_field + half_extent, lesser(half_field - half_extent, center))
}

/// The sign of the paddle's movement: right minus left.
pub open spec fn steering(left_pressed: bool, right_pressed: bool) -> int {
    (if right_pressed { 1int } else { 0int }) - (if left_pressed { 1int } else { 0int })
}

/// Caps an elapsed time at `MAX_STEP`.
pub fn clamp_step(dt: u64) -> (step: u64)
    ensures
        step == clamped_step(dt),
        step <= MAX_STEP,
{
    if dt > MAX_STEP { MAX_STEP } else { dt }
}

/// The position after moving from `position` at `velocity` for `dt`, the
/// step capped at `MAX_STEP`.
pub fn advance(position: Vector2, velocity: Vector2, dt: u64) -> (moved: Vector2)
    requires
        position.in_range(),
        velocity.in_range(),
    ensures
        moved.x == advanced_axis(position.x as int, velocity.x as int, dt),
        moved.y == advanced_axis(position.y as int, velocity.y as int, dt),
{
    let step: i64 = clamp_step(dt) as i64;
    proof {
        lemma_travel_bound(velocity.x as int, step as int);
        lemma_travel_bound(velocity.y as int, step as int);
    }
    Vector2 { x: position.x + velocity.x * step, y: position.y + velocity.y * step }
}

/// Moves `center` by the least amount that puts a body of the given
/// half-extent inside the field.
pub fn clamp_movement_within_bounds(half_extent: &Vector2, center: &mut Vector2, field: &PlayField)
    requires
        half_extent.in_range(),
        half_extent.x >= 0,
        half_extent.y >= 0,
        field.well_formed(),
    ensures
        final(center).x == clamped_axis(
            field.half_width as int,
            half_extent.x as int,
            old(center).x as int,
        ),
        final(center).y == clamped_axis(
            field.half_height as int,
            half_extent.y as int,
            old(center).y as int,
        ),
        final(center).in_range(),
        field.has_room_for(*half_extent) ==> field.contains(
            AxisAlignedBox { center: *final(center), half_extent: *half_extent },
        ),
{
    center.x = clamp_axis(field.half_width, half_extent.x, center.x);
    center.y = clamp_axis(field.half_height, half_extent.y, center.y);
}

fn clamp_axis(half_field: i64, half_extent: i64, center: i64) -> (held: i64)
    requires
        0 <= half_field <= COORD_LIMIT,
        0 <= half_extent <= COORD_LIMIT,
    ensures
        held == clamped_axis(half_field as int, half_extent as int, center as int),
{
    let low: i64 = -half_field + half_extent;
    let high: i64 = half_field - half_extent;
    let capped: i64 = if high <= center { high } else { center };
    if low >= capped { low } else { capped }
}

/// Where the centre of `body` is after one step of motion at `velocity`:
/// advanced for `dt` and then held inside the field.
pub open spec fn held_center(body: AxisAlignedBox, velocity: Vector2, dt: u64, field: PlayField) -> Vector2 {
    Vector2 {
        x: clamped_axis(
            field.half_width as int,
            body.half_extent.x as int,
            advanced_axis(body.center.x as int, velocity.x as int, dt),
        ) as i64,
        y: clamped_axis(
            field.half_height as int,
            body.half_extent.y as int,
            advanced_axis(body.center.y as int, velocity.y as int, dt),
        ) as i64,
    }
}

/// The velocity that the held keys give the paddle.
pub open spec fn steering_velocity(paddle: Paddle, left_pressed: bool, right_pressed: bool) -> Vector2 {
    Vector2 { x: (steering(left_pressed, right_pressed) * paddle.speed) as i64, y: 0 }
}

/// The paddle after one step of motion.
pub open spec fn steered(
    paddle: Paddle,
    field: PlayField,
    left_pressed: bool,
    right_pressed: bool,
    dt: u64,
) -> Paddle {
    Paddle {
        body: paddle.body.moved_to(
            held_center(
                paddle.body,
                steering_velocity(paddle, left_pressed, right_pressed),
                dt,
                field,
            ),
        ),
        ..paddle
    }
}

/// The ball after one step of motion.
pub open spec fn moved(ball: Ball, field: PlayField, dt: u64) -> Ball {
    Ball { body: ball.body.moved_to(held_center(ball.body, ball.velocity, dt, field)), ..ball }
}

/// One step of motion for a body: its centre advances by `velocity` for
/// `dt` and is then held inside the field. A body that the field has room
/// for ends inside it.
pub fn integrate(body: &mut AxisAlignedBox, velocity: Vector2, dt: u64, field: &PlayField)
    requires
        old(body).well_formed(),
        velocity.in_range(),
        field.well_formed(),
    ensures
        *final(body) == old(body).moved_to(held_center(*old(body), velocity, dt, *field)),
        final(body).well_formed(),
        field.has_room_for(old(body).half_extent) ==> field.contains(*final(body)),
{
    let mut center: Vector2 = advance(body.center, velocity, dt);
    let half_extent: Vector2 = body.half_extent;
    clamp_movement_within_bounds(&half_extent, &mut center, field);
    body.center = center;
}

/// The paddle's velocity for the keys that are held: its speed to the right,
/// to the left, or none where both or neither are pressed.
pub fn paddle_velocity(paddle: &Paddle, left_pressed: bool, right_pressed: bool) -> (velocity:
    Vector2)
    requires
        paddle.well_formed(),
    ensures
        velocity == steering_velocity(*paddle, left_pressed, right_pressed),
        velocity.x == steering(left_pressed, right_pressed) * paddle.speed,
        velocity.in_range(),
{
    let mut x: i64 = 0;
    if left_pressed {
        x = x - paddle.speed;
    }
    if right_pressed {
        x = x + paddle.speed;
    }
    proof {
        let sign: int = steering(left_pressed, right_pressed);
        let speed: int = paddle.speed as int;
        assert(sign * speed == x) by (nonlinear_arith)
            requires
                (sign == 1 && x == speed) || (sign == 0 && x == 0) || (sign == -1 && x == -speed),
        ;
    }
    Vector2 { x, y: 0 }
}

/// One step of motion for the paddle, steered by the keys that are held.
pub fn move_paddle(
    paddle: &mut Paddle,
    left_pressed: bool,
    right_pressed: bool,
    dt: u64,
    field: &PlayField,
)
    requires
        old(paddle).well_formed(),
        field.well_formed(),
    ensures
        *final(paddle) == steered(*old(paddle), *field, left_pressed, right_pressed, dt),
        final(paddle).well_formed(),
        field.has_room_for(old(paddle).body.half_extent) ==> field.contains(final(paddle).body),
{
    let velocity: Vector2 = paddle_velocity(paddle, left_pressed, right_pressed);
    let mut body: AxisAlignedBox = paddle.body;
    integrate(&mut body, velocity, dt, field);
    paddle.body = body;
}

/// One step of motion for the ball, at its own velocity.
pub fn move_ball(ball: &mut Ball, dt: u64, field: &PlayField)
    requires
        old(ball).well_formed(),
        field.well_formed(),
    ensures
        *final(ball) == moved(*old(ball), *field, dt),
        final(ball).well_formed(),
        field.has_room_for(old(ball).body.half_extent) ==> field.contains(final(ball).body),
{
    let mut body: AxisAlignedBox = ball.body;
    integrate(&mut body, ball.velocity, dt, field);
    ball.body = body;
}

/// The distance covered in one step at an admissible velocity fits well
/// inside the machine's integers.
proof fn lemma_travel_bound(velocity: int, step: int)
    requires
        -COORD_LIMIT <= velocity <= COORD_LIMIT,
        0 <= step <= MAX_STEP,
    ensures
        -COORD_LIMIT * MAX_STEP <= velocity * step <= COORD_LIMIT
            * MAX_STEP,
{
    assert(-1_099_511_627_776 * 200_000 <= velocity * step <= 1_099_511_627_776 * 200_000)
        by (nonlinear_arith)
        requires
            -1_099_511_627_776 <= velocity <= 1_099_511_627_776,
            0 <= step <= 200_000,
    ;
}

/// Any elapsed time beyond `MAX_STEP` moves a body exactly as `MAX_STEP`
/// does.
pub proof fn lemma_long_steps_are_capped(position: int, velocity: int, dt: u64)
    requires
        dt > MAX_STEP,
    ensures
        clamped_step(dt) == clamped_step(MAX_STEP),
        advanced_axis(position, velocity, dt) == advanced_axis(position, velocity, MAX_STEP),
{
}

/// Any elapsed time beyond `MAX_STEP` leaves a body exactly where `MAX_STEP`
/// leaves it.
pub proof fn lemma_long_steps_move_alike(
    body: AxisAlignedBox,
    velocity: Vector2,
    dt: u64,
    field: PlayField,
)
    requires
        dt > MAX_STEP,
    ensures
        held_center(body, velocity, dt, field) == held_center(body, velocity, MAX_STEP, field),
{
}

/// After a step of motion every body that the field has room for lies
/// inside the field, wherever it was and however fast it moves.
pub proof fn lemma_motion_ends_inside(
    body: AxisAlignedBox,
    velocity: Vector2,
    dt: u64,
    field: PlayField,
)
    requires
        body.well_formed(),
        field.well_formed(),
        field.has_room_for(body.half_extent),
    ensures
        field.contains(body.moved_to(held_center(body, velocity, dt, field))),
{
}

/// A body that would end its step inside the field anyway is not held back.
pub proof fn lemma_field_holds_only_at_the_edge(
    body: AxisAlignedBox,
    velocity: Vector2,
    dt: u64,
    field: PlayField,
)
    requires
        body.well_formed(),
        field.well_formed(),
        -field.half_width <= advanced_axis(body.min_x(), velocity.x as int, dt),
        advanced_axis(body.max_x(), velocity.x as int, dt) <= field.half_width,
        -field.half_height <= advanced_axis(body.min_y(), velocity.y as int, dt),
        advanced_axis(body.max_y(), velocity.y as int, dt) <= field.half_height,
    ensures
        held_center(body, velocity, dt, field).x == advanced_axis(
            body.center.x as int,
            velocity.x as int,
            dt,
        ),
        held_center(body, velocity, dt, field).y == advanced_axis(
            body.center.y as int,
            velocity.y as int,
            dt,
        ),
{
}

} // verus!
