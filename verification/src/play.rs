//! One step for the ball, motion and then collision handling, and what a run
//! of such steps adds up to.

use vstd::prelude::*;
use crate::bodies::{all_well_formed, Ball, Collider, PlayField};
use crate::geometry::Vector2;
use crate::integrator::{clamped_step, move_ball, moved, MAX_STEP};
use crate::resolver::{
    all_solid,
    lemma_no_hit_changes_nothing,
    lemma_solid_colliders_keep_speed,
    resolve,
    resolved,
    Resolution,
};
use crate::response::speed_squared;
use crate::sweep::between;

verus! {

/// The ball after one whole step: moved, and then placed and turned as the
/// collision handling says.
pub open spec fn stepped(ball: Ball, field: PlayField, colliders: Seq<Collider>, dt: u64) -> Ball {
    let after: Ball = moved(ball, field, dt);
    let outcome = resolved(after, ball.body.center, colliders);
    Ball { body: after.body.moved_to(outcome.position), velocity: outcome.velocity }
}

/// The ball after a run of steps among colliders that stay as they are.
pub open spec fn played(ball: Ball, field: PlayField, colliders: Seq<Collider>, steps: Seq<u64>) -> Ball
    decreases steps.len(),
{
    if steps.len() == 0 {
        ball
    } else {
        stepped(played(ball, field, colliders, steps.drop_last()), field, colliders, steps.last())
    }
}

/// The time that a run of steps integrates: the sum of the capped steps.
pub open spec fn total_time(steps: Seq<u64>) -> int
    decreases steps.len(),
{
    if steps.len() == 0 {
        0
    } else {
        total_time(steps.drop_last()) + clamped_step(steps.last())
    }
}

/// One whole step for the ball: it moves for `dt`, is held inside the field,
/// and is then placed and turned by the first collider it has run into.
pub fn step_ball(ball: &mut Ball, field: &PlayField, colliders: &Vec<Collider>, dt: u64) -> (outcome:
    Resolution)
    requires
        old(ball).well_formed(),
        field.well_formed(),
        all_well_formed(colliders@),
    ensures
        outcome@ == resolved(moved(*old(ball), *field, dt), old(ball).body.center, colliders@),
        *final(ball) == stepped(*old(ball), *field, colliders@, dt),
        final(ball).well_formed(),
        final(ball).body.center == outcome.position,
        final(ball).velocity == outcome.velocity,
        final(ball).body.half_extent == old(ball).body.half_extent,
        field.contains(old(ball).body) ==> field.contains(final(ball).body),
{
    let start: Vector2 = ball.body.center;
    move_ball(ball, dt, field);
    let outcome: Resolution = resolve(ball, start, colliders);
    ball.body.center = outcome.position;
    ball.velocity = outcome.velocity;
    outcome
}

proof fn lemma_total_time_is_not_negative(steps: Seq<u64>)
    ensures
        total_time(steps) >= 0,
    decreases steps.len(),
{
    if steps.len() > 0 {
        lemma_total_time_is_not_negative(steps.drop_last());
    }
}

/// Part of the way lies between no way and the whole way.
proof fn lemma_partial_travel(velocity: int, part: int, whole: int)
    requires
        0 <= part <= whole,
    ensures
        between(0, velocity * whole, velocity * part),
{
    assert(between(0, velocity * whole, velocity * part)) by (nonlinear_arith)
        requires
            0 <= part <= whole,
    ;
}

proof fn lemma_travel_adds_up(velocity: int, earlier: int, step: int)
    ensures
        velocity * earlier + velocity * step == velocity * (earlier + step),
{
    assert(velocity * earlier + velocity * step == velocity * (earlier + step))
        by (nonlinear_arith);
}

/// Free flight: with no collider present, a ball that stays inside the field
/// ends a run of steps where its velocity times the summed, capped steps
/// takes it, with its velocity unchanged.
///
/// The ball stays inside the field where it lies inside at the start and
/// would lie inside at the end of the flight; otherwise the field holds it
/// back and the sum no longer tells where it is.
pub proof fn lemma_free_flight(ball: Ball, field: PlayField, steps: Seq<u64>)
    requires
        ball.well_formed(),
        field.well_formed(),
        field.contains(ball.body),
        -field.half_width <= ball.body.min_x() + ball.velocity.x * total_time(steps),
        ball.body.max_x() + ball.velocity.x * total_time(steps) <= field.half_width,
        -field.half_height <= ball.body.min_y() + ball.velocity.y * total_time(steps),
        ball.body.max_y() + ball.velocity.y * total_time(steps) <= field.half_height,
    ensures
        played(ball, field, Seq::empty(), steps).body.center.x == ball.body.center.x
            + ball.velocity.x * total_time(steps),
        played(ball, field, Seq::empty(), steps).body.center.y == ball.body.center.y
            + ball.velocity.y * total_time(steps),
        played(ball, field, Seq::empty(), steps).velocity == ball.velocity,
        played(ball, field, Seq::empty(), steps).body.half_extent == ball.body.half_extent,
    decreases steps.len(),
{
    if steps.len() > 0 {
        let earlier: Seq<u64> = steps.drop_last();
        let so_far: int = total_time(earlier);
        let step: int = clamped_step(steps.last());
        lemma_total_time_is_not_negative(earlier);
        lemma_partial_travel(ball.velocity.x as int, so_far, so_far + step);
        lemma_partial_travel(ball.velocity.y as int, so_far, so_far + step);
        lemma_free_flight(ball, field, earlier);
        let before: Ball = played(ball, field, Seq::empty(), earlier);
        lemma_travel_adds_up(ball.velocity.x as int, so_far, step);
        lemma_travel_adds_up(ball.velocity.y as int, so_far, step);
        let after: Ball = moved(before, field, steps.last());
        lemma_no_hit_changes_nothing(after, before.body.center, Seq::empty());
    }
}

/// Among solid colliders a run of steps never changes the ball's speed:
/// whatever it bounces off, and however often, each component of its
/// velocity keeps its magnitude and only its sign may flip.
pub proof fn lemma_bouncing_keeps_speed(
    ball: Ball,
    field: PlayField,
    colliders: Seq<Collider>,
    steps: Seq<u64>,
)
    requires
        ball.velocity.in_range(),
        all_solid(colliders),
    ensures
        played(ball, field, colliders, steps).velocity.x == ball.velocity.x || played(
            ball,
            field,
            colliders,
            steps,
        ).velocity.x == -ball.velocity.x,
        played(ball, field, colliders, steps).velocity.y == ball.velocity.y || played(
            ball,
            field,
            colliders,
            steps,
        ).velocity.y == -ball.velocity.y,
        speed_squared(played(ball, field, colliders, steps).velocity) == speed_squared(
            ball.velocity,
        ),
    decreases steps.len(),
{
    if steps.len() > 0 {
        lemma_bouncing_keeps_speed(ball, field, colliders, steps.drop_last());
        let before: Ball = played(ball, field, colliders, steps.drop_last());
        let after: Ball = moved(before, field, steps.last());
        lemma_solid_colliders_keep_speed(after, before.body.center, colliders);
    }
}

/// A step among solid colliders leaves the ball's speed as it was.
pub proof fn lemma_solid_step_keeps_speed(
    ball: Ball,
    field: PlayField,
    colliders: Seq<Collider>,
    dt: u64,
)
    requires
        ball.velocity.in_range(),
        all_solid(colliders),
    ensures
        speed_squared(stepped(ball, field, colliders, dt).velocity) == speed_squared(ball.velocity),
{
    lemma_solid_colliders_keep_speed(moved(ball, field, dt), ball.body.center, colliders);
}

/// Any elapsed time beyond `MAX_STEP` plays exactly as `MAX_STEP` does.
pub proof fn lemma_long_steps_play_alike(
    ball: Ball,
    field: PlayField,
    colliders: Seq<Collider>,
    dt: u64,
)
    requires
        dt > MAX_STEP,
    ensures
        moved(ball, field, dt) == moved(ball, field, MAX_STEP),
        stepped(ball, field, colliders, dt) == stepped(ball, field, colliders, MAX_STEP),
{
}

} // verus!
