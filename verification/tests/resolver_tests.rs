use breakout::bodies::{Ball, Collider, ColliderKind, PlayField};
use breakout::geometry::{AxisAlignedBox, Vector2};
use breakout::play::step_ball;
use breakout::resolver::{probe, resolve, respond, Contact, Meeting};
use breakout::response::Side;
use breakout::sweep::Entry;

const PX: i64 = 1_000_000;

fn boxed(x: i64, y: i64, half_x: i64, half_y: i64) -> AxisAlignedBox {
    AxisAlignedBox::new(Vector2::new(x * PX, y * PX), Vector2::new(half_x * PX, half_y * PX))
}

fn at(x: i64, y: i64) -> Vector2 {
    Vector2::new(x * PX, y * PX)
}

fn ball(x: i64, y: i64, vx: i64, vy: i64) -> Ball {
    Ball::new(boxed(x, y, 15, 15), Vector2::new(vx, vy))
}

fn solid(id: u64, body: AxisAlignedBox) -> Collider {
    Collider::new(id, ColliderKind::Solid, body)
}

fn brick(id: u64, body: AxisAlignedBox) -> Collider {
    Collider::new(id, ColliderKind::Scorable, body)
}

fn field() -> PlayField {
    PlayField::new(450 * PX, 300 * PX)
}

#[test]
fn no_collider_changes_nothing() {
    let b = ball(10, 20, 300, -400);
    let outcome = resolve(&b, at(7, 24), &Vec::new());
    assert_eq!(outcome.position, at(10, 20));
    assert_eq!(outcome.velocity, Vector2::new(300, -400));
    assert_eq!(outcome.contact, None);
    assert_eq!(outcome.destroyed_ids, Vec::<u64>::new());
    assert_eq!(outcome.score_delta, 0);
    assert_eq!(outcome.speed_percent, 100);
}

#[test]
fn colliders_out_of_reach_change_nothing() {
    let b = ball(10, 20, 300, -400);
    let colliders = vec![solid(1, boxed(-450, 0, 5, 305)), brick(2, boxed(0, 100, 75, 15))];
    let outcome = resolve(&b, at(7, 24), &colliders);
    assert_eq!(outcome.position, at(10, 20));
    assert_eq!(outcome.velocity, Vector2::new(300, -400));
    assert_eq!(outcome.contact, None);
    assert!(outcome.destroyed_ids.is_empty());
    assert_eq!(outcome.score_delta, 0);
    assert_eq!(outcome.speed_percent, 100);
}

#[test]
fn fast_ball_still_bounces_off_a_thin_bar() {
    let mut b = ball(0, 0, 0, -1000);
    let colliders = vec![solid(7, boxed(0, -100, 450, 5))];
    let outcome = step_ball(&mut b, &field(), &colliders, 100_000);
    assert_eq!(
        outcome.contact,
        Some(Contact { index: 0, side: Side::Top, swept: false })
    );
    assert_eq!(outcome.velocity, Vector2::new(0, 1000));
    assert_eq!(outcome.position, at(0, -100));
    assert_eq!(b.velocity, Vector2::new(0, 1000));
    assert!(b.velocity.y > 0);
    assert_eq!(b.body.center, at(0, -100));
    assert!(outcome.destroyed_ids.is_empty());
    assert_eq!(outcome.score_delta, 0);
    assert_eq!(outcome.speed_percent, 100);
}

#[test]
fn ball_that_jumps_over_a_bar_is_put_back_to_it() {
    let mut b = ball(0, 0, 0, -1000);
    let colliders = vec![solid(7, boxed(0, -100, 450, 5))];
    let outcome = step_ball(&mut b, &field(), &colliders, 200_000);
    assert_eq!(
        outcome.contact,
        Some(Contact { index: 0, side: Side::Top, swept: true })
    );
    assert_eq!(outcome.position, at(0, -80));
    assert_eq!(outcome.velocity, Vector2::new(0, 1000));
    assert_eq!(b.body.center, at(0, -80));
    assert_eq!(b.velocity, Vector2::new(0, 1000));
}

#[test]
fn ball_that_jumps_over_a_brick_breaks_it() {
    let b = ball(100, 200, 400, 800);
    let colliders = vec![brick(9, boxed(50, 100, 75, 15))];
    let outcome = resolve(&b, at(0, 0), &colliders);
    assert_eq!(
        outcome.contact,
        Some(Contact { index: 0, side: Side::Bottom, swept: true })
    );
    assert_eq!(outcome.position, at(35, 70));
    assert_eq!(outcome.velocity, Vector2::new(420, -840));
    assert_eq!(outcome.destroyed_ids, vec![9]);
    assert_eq!(outcome.score_delta, 1);
    assert_eq!(outcome.speed_percent, 105);
}

#[test]
fn brick_hit_scores_destroys_and_speeds_up() {
    let b = ball(0, 80, 200, 400);
    let colliders = vec![brick(42, boxed(0, 100, 75, 15))];
    let outcome = resolve(&b, at(-2, 76), &colliders);
    assert_eq!(
        outcome.contact,
        Some(Contact { index: 0, side: Side::Bottom, swept: false })
    );
    assert_eq!(outcome.destroyed_ids, vec![42]);
    assert_eq!(outcome.score_delta, 1);
    assert_eq!(outcome.speed_percent, 105);
    assert_eq!(outcome.velocity, Vector2::new(210, -420));
    assert_eq!(outcome.position, at(0, 80));
    let before = 200 * 200 + 400 * 400;
    let after = outcome.velocity.x * outcome.velocity.x + outcome.velocity.y * outcome.velocity.y;
    assert_eq!(after * 100 * 100, before * 105 * 105);
}

#[test]
fn brick_hit_from_the_side_speeds_up_and_turns_sideways() {
    let b = ball(-88, 100, 200, 400);
    let colliders = vec![brick(5, boxed(0, 100, 75, 15))];
    let outcome = resolve(&b, at(-90, 96), &colliders);
    assert_eq!(
        outcome.contact,
        Some(Contact { index: 0, side: Side::Left, swept: false })
    );
    assert_eq!(outcome.velocity, Vector2::new(-210, 420));
    assert_eq!(outcome.destroyed_ids, vec![5]);
    assert_eq!(outcome.score_delta, 1);
}

#[test]
fn brick_hit_while_leaving_speeds_up_without_turning() {
    let b = ball(0, 80, 200, -400);
    let colliders = vec![brick(42, boxed(0, 100, 75, 15))];
    let outcome = resolve(&b, at(0, 84), &colliders);
    assert_eq!(outcome.velocity, Vector2::new(210, -420));
    assert_eq!(outcome.destroyed_ids, vec![42]);
    assert_eq!(outcome.score_delta, 1);
    assert_eq!(outcome.speed_percent, 105);
}

#[test]
fn ball_leaving_a_left_face_is_not_turned() {
    let b = ball(433, 0, -300, 100);
    let colliders = vec![solid(2, boxed(450, 0, 5, 305))];
    let outcome = resolve(&b, at(436, -1), &colliders);
    assert_eq!(
        outcome.contact,
        Some(Contact { index: 0, side: Side::Left, swept: false })
    );
    assert_eq!(outcome.velocity, Vector2::new(-300, 100));
    assert_eq!(outcome.position, at(433, 0));
    assert!(outcome.destroyed_ids.is_empty());
    assert_eq!(outcome.score_delta, 0);
    assert_eq!(outcome.speed_percent, 100);
}

#[test]
fn ball_entering_a_left_face_is_turned() {
    let b = ball(433, 0, 300, 100);
    let colliders = vec![solid(2, boxed(450, 0, 5, 305))];
    let outcome = resolve(&b, at(430, -1), &colliders);
    assert_eq!(
        outcome.contact,
        Some(Contact { index: 0, side: Side::Left, swept: false })
    );
    assert_eq!(outcome.velocity, Vector2::new(-300, 100));
}

#[test]
fn ball_leaving_each_other_face_is_not_turned() {
    let right = vec![solid(1, boxed(-450, 0, 5, 305))];
    let outcome = resolve(&ball(-433, 0, 300, 100), at(-436, 0), &right);
    assert_eq!(outcome.contact.map(|c| c.side), Some(Side::Right));
    assert_eq!(outcome.velocity, Vector2::new(300, 100));
    let top = vec![solid(3, boxed(0, -300, 455, 5))];
    let outcome = resolve(&ball(0, -283, 300, 100), at(0, -285), &top);
    assert_eq!(outcome.contact.map(|c| c.side), Some(Side::Top));
    assert_eq!(outcome.velocity, Vector2::new(300, 100));
    let bottom = vec![solid(4, boxed(0, 300, 455, 5))];
    let outcome = resolve(&ball(0, 283, 300, -100), at(0, 285), &bottom);
    assert_eq!(outcome.contact.map(|c| c.side), Some(Side::Bottom));
    assert_eq!(outcome.velocity, Vector2::new(300, -100));
}

#[test]
fn first_collider_in_order_wins() {
    let wall = solid(1, boxed(0, 100, 75, 15));
    let target = brick(2, boxed(10, 100, 75, 15));
    let b = ball(0, 80, 200, 400);
    let outcome = resolve(&b, at(0, 76), &vec![wall, target]);
    assert_eq!(outcome.contact.map(|c| c.index), Some(0));
    assert!(outcome.destroyed_ids.is_empty());
    assert_eq!(outcome.score_delta, 0);
    assert_eq!(outcome.velocity, Vector2::new(200, -400));
    let outcome = resolve(&b, at(0, 76), &vec![target, wall]);
    assert_eq!(outcome.contact.map(|c| c.index), Some(0));
    assert_eq!(outcome.destroyed_ids, vec![2]);
    assert_eq!(outcome.score_delta, 1);
    assert_eq!(outcome.velocity, Vector2::new(210, -420));
}

#[test]
fn only_one_brick_breaks_in_a_step() {
    let b = ball(0, 80, 200, 400);
    let bricks = vec![
        brick(1, boxed(-70, 100, 75, 15)),
        brick(2, boxed(70, 100, 75, 15)),
        brick(3, boxed(0, 100, 75, 15)),
    ];
    let outcome = resolve(&b, at(0, 76), &bricks);
    assert_eq!(outcome.destroyed_ids, vec![1]);
    assert_eq!(outcome.score_delta, 1);
    assert_eq!(outcome.speed_percent, 105);
    assert_eq!(outcome.velocity, Vector2::new(210, -420));
}

#[test]
fn colliders_that_are_missed_are_skipped() {
    let b = ball(0, 80, 200, 400);
    let colliders = vec![
        solid(1, boxed(-450, 0, 5, 305)),
        solid(2, boxed(450, 0, 5, 305)),
        brick(3, boxed(0, 100, 75, 15)),
    ];
    let outcome = resolve(&b, at(0, 76), &colliders);
    assert_eq!(
        outcome.contact,
        Some(Contact { index: 2, side: Side::Bottom, swept: false })
    );
    assert_eq!(outcome.destroyed_ids, vec![3]);
}

#[test]
fn a_collider_passed_through_counts_before_a_later_overlap() {
    let b = ball(0, 200, 0, 1000);
    let passed = solid(1, boxed(0, 100, 75, 5));
    let reached = brick(2, boxed(0, 220, 75, 15));
    let outcome = resolve(&b, at(0, 0), &vec![passed, reached]);
    assert_eq!(
        outcome.contact,
        Some(Contact { index: 0, side: Side::Bottom, swept: true })
    );
    assert_eq!(outcome.position, at(0, 80));
    assert_eq!(outcome.velocity, Vector2::new(0, -1000));
    assert!(outcome.destroyed_ids.is_empty());
    let outcome = resolve(&b, at(0, 0), &vec![reached, passed]);
    assert_eq!(
        outcome.contact,
        Some(Contact { index: 0, side: Side::Bottom, swept: false })
    );
    assert_eq!(outcome.position, at(0, 200));
    assert_eq!(outcome.destroyed_ids, vec![2]);
}

#[test]
fn touching_is_no_hit() {
    let b = ball(0, 70, 0, 400);
    let colliders = vec![brick(1, boxed(0, 100, 75, 15))];
    let outcome = resolve(&b, at(0, 60), &colliders);
    assert_eq!(outcome.contact, None);
    assert_eq!(outcome.velocity, Vector2::new(0, 400));
    assert!(outcome.destroyed_ids.is_empty());
}

#[test]
fn a_ball_without_area_hits_nothing() {
    let colliders = vec![brick(1, boxed(0, 100, 75, 15))];
    let dot = Ball::new(boxed(0, 100, 0, 0), Vector2::new(0, 400));
    assert_eq!(resolve(&dot, at(0, 0), &colliders).contact, None);
    let beyond = Ball::new(boxed(0, 200, 0, 0), Vector2::new(0, 400));
    assert_eq!(resolve(&beyond, at(0, 0), &colliders).contact, None);
    let sliver = Ball::new(boxed(0, 100, 15, 0), Vector2::new(0, 400));
    assert_eq!(resolve(&sliver, at(0, 0), &colliders).contact, None);
}

#[test]
fn a_collider_without_area_is_never_hit() {
    let colliders = vec![brick(1, boxed(0, 100, 0, 0)), brick(2, boxed(0, 100, 75, 0))];
    assert_eq!(resolve(&ball(0, 100, 0, 400), at(0, 0), &colliders).contact, None);
    assert_eq!(resolve(&ball(0, 200, 0, 400), at(0, 0), &colliders).contact, None);
}

#[test]
fn a_resting_ball_is_hit_only_where_it_overlaps() {
    let colliders = vec![solid(1, boxed(0, 100, 75, 15))];
    let apart = ball(0, 0, 0, 0);
    let outcome = resolve(&apart, at(0, 0), &colliders);
    assert_eq!(outcome.contact, None);
    assert_eq!(outcome.velocity, Vector2::new(0, 0));
    let inside = ball(0, 80, 0, 0);
    let outcome = resolve(&inside, at(0, 80), &colliders);
    assert_eq!(
        outcome.contact,
        Some(Contact { index: 0, side: Side::Bottom, swept: false })
    );
    assert_eq!(outcome.velocity, Vector2::new(0, 0));
    assert_eq!(outcome.position, at(0, 80));
}

#[test]
fn probe_tells_overlap_from_passage() {
    let other = boxed(0, 100, 75, 15);
    assert_eq!(probe(&boxed(0, 80, 15, 15), at(0, 0), &other), Some(Meeting::Overlap));
    assert_eq!(
        probe(&boxed(0, 200, 15, 15), at(0, 0), &other),
        Some(Meeting::Passage(Entry { side: Side::Bottom, point: at(0, 70) }))
    );
    assert_eq!(probe(&boxed(0, 60, 15, 15), at(0, 0), &other), None);
    assert_eq!(probe(&boxed(0, 70, 15, 15), at(0, 0), &other), None);
    assert_eq!(
        probe(&boxed(0, 0, 15, 15), at(0, 200), &other),
        Some(Meeting::Passage(Entry { side: Side::Top, point: at(0, 130) }))
    );
}

#[test]
fn probe_prefers_the_overlap_to_the_way_there() {
    let other = boxed(0, 100, 75, 15);
    assert_eq!(probe(&boxed(0, 80, 15, 15), at(0, -300), &other), Some(Meeting::Overlap));
    assert_eq!(probe(&boxed(0, 80, 15, 15), at(0, 80), &other), Some(Meeting::Overlap));
    assert_eq!(probe(&boxed(0, 80, 15, 15), at(0, 100), &other), Some(Meeting::Overlap));
}

#[test]
fn respond_follows_the_kind_of_the_collider() {
    let b = ball(0, 80, 200, 400);
    let wall = solid(1, boxed(0, 100, 75, 15));
    let outcome = respond(&b, 3, &wall, Meeting::Overlap);
    assert_eq!(
        outcome.contact,
        Some(Contact { index: 3, side: Side::Bottom, swept: false })
    );
    assert_eq!(outcome.velocity, Vector2::new(200, -400));
    assert_eq!(outcome.position, at(0, 80));
    assert!(outcome.destroyed_ids.is_empty());
    assert_eq!(outcome.score_delta, 0);
    assert_eq!(outcome.speed_percent, 100);
    let touch = Entry { side: Side::Left, point: at(-90, 70) };
    let outcome = respond(&b, 4, &brick(8, boxed(0, 100, 75, 15)), Meeting::Passage(touch));
    assert_eq!(
        outcome.contact,
        Some(Contact { index: 4, side: Side::Left, swept: true })
    );
    assert_eq!(outcome.velocity, Vector2::new(-210, 420));
    assert_eq!(outcome.position, at(-90, 70));
    assert_eq!(outcome.destroyed_ids, vec![8]);
    assert_eq!(outcome.score_delta, 1);
    assert_eq!(outcome.speed_percent, 105);
}
