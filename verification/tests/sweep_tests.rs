use breakout::geometry::{AxisAlignedBox, Vector2};
use breakout::response::Side;
use breakout::sweep::{sweep, Entry};

fn boxed(x: i64, y: i64, half_x: i64, half_y: i64) -> AxisAlignedBox {
    AxisAlignedBox::new(Vector2::new(x, y), Vector2::new(half_x, half_y))
}

fn hit(side: Side, x: i64, y: i64) -> Option<Entry> {
    Some(Entry { side, point: Vector2::new(x, y) })
}

#[test]
fn straight_down_through_a_bar_touches_its_top() {
    let bar = boxed(0, -100, 450, 5);
    let found = sweep(Vector2::new(0, 0), Vector2::new(0, -200), Vector2::new(15, 15), &bar);
    assert_eq!(found, hit(Side::Top, 0, -80));
}

#[test]
fn straight_up_through_a_bar_touches_its_bottom() {
    let bar = boxed(0, 100, 450, 5);
    let found = sweep(Vector2::new(7, 0), Vector2::new(7, 200), Vector2::new(15, 15), &bar);
    assert_eq!(found, hit(Side::Bottom, 7, 80));
}

#[test]
fn straight_across_a_post_touches_its_side() {
    let post = boxed(100, 0, 5, 450);
    let half = Vector2::new(15, 15);
    assert_eq!(
        sweep(Vector2::new(0, 3), Vector2::new(200, 3), half, &post),
        hit(Side::Left, 80, 3)
    );
    assert_eq!(
        sweep(Vector2::new(200, 3), Vector2::new(0, 3), half, &post),
        hit(Side::Right, 120, 3)
    );
}

#[test]
fn slanted_entry_through_a_side() {
    let other = boxed(150, 50, 10, 40);
    let half = Vector2::new(5, 5);
    assert_eq!(
        sweep(Vector2::new(0, 0), Vector2::new(300, 100), half, &other),
        hit(Side::Left, 135, 45)
    );
}

#[test]
fn contact_point_is_rounded_towards_the_start() {
    let half = Vector2::new(5, 5);
    let above = boxed(150, 50, 10, 40);
    assert_eq!(
        sweep(Vector2::new(0, 0), Vector2::new(300, 101), half, &above),
        hit(Side::Left, 135, 45)
    );
    let below = boxed(150, -50, 10, 40);
    assert_eq!(
        sweep(Vector2::new(0, 0), Vector2::new(300, -101), half, &below),
        hit(Side::Left, 135, -45)
    );
    let left = boxed(-150, -50, 10, 40);
    assert_eq!(
        sweep(Vector2::new(0, 0), Vector2::new(-300, -101), half, &left),
        hit(Side::Right, -135, -45)
    );
}

#[test]
fn slanted_entry_through_the_top() {
    let other = boxed(50, -150, 40, 10);
    let half = Vector2::new(5, 5);
    assert_eq!(
        sweep(Vector2::new(0, 0), Vector2::new(100, -300), half, &other),
        hit(Side::Top, 45, -135)
    );
}

#[test]
fn entry_at_a_corner_counts_as_vertical() {
    let other = boxed(0, 0, 10, 10);
    let half = Vector2::new(10, 10);
    assert_eq!(
        sweep(Vector2::new(-100, -100), Vector2::new(100, 100), half, &other),
        hit(Side::Bottom, -20, -20)
    );
    assert_eq!(
        sweep(Vector2::new(100, 100), Vector2::new(-100, -100), half, &other),
        hit(Side::Top, 20, 20)
    );
}

#[test]
fn a_path_that_passes_by_misses() {
    let other = boxed(150, 50, 10, 40);
    let half = Vector2::new(5, 5);
    assert_eq!(sweep(Vector2::new(0, 0), Vector2::new(300, -100), half, &other), None);
    assert_eq!(sweep(Vector2::new(0, 200), Vector2::new(300, 200), half, &other), None);
    assert_eq!(sweep(Vector2::new(0, 0), Vector2::new(0, 300), half, &other), None);
}

#[test]
fn a_path_that_only_grazes_misses() {
    let other = boxed(150, 50, 10, 40);
    let half = Vector2::new(5, 5);
    assert_eq!(sweep(Vector2::new(0, 95), Vector2::new(300, 95), half, &other), None);
    assert_eq!(sweep(Vector2::new(0, 5), Vector2::new(300, 5), half, &other), None);
    assert_eq!(sweep(Vector2::new(0, -160), Vector2::new(300, 140), half, &other), None);
}

#[test]
fn a_path_that_stops_short_misses() {
    let other = boxed(150, 50, 10, 40);
    let half = Vector2::new(5, 5);
    assert_eq!(sweep(Vector2::new(0, 50), Vector2::new(100, 50), half, &other), None);
    assert_eq!(sweep(Vector2::new(0, 50), Vector2::new(135, 50), half, &other), None);
}

#[test]
fn a_path_that_ends_inside_is_found() {
    let other = boxed(150, 50, 10, 40);
    let half = Vector2::new(5, 5);
    assert_eq!(
        sweep(Vector2::new(0, 50), Vector2::new(136, 50), half, &other),
        hit(Side::Left, 135, 50)
    );
}

#[test]
fn a_path_that_leads_out_misses() {
    let other = boxed(150, 50, 10, 40);
    let half = Vector2::new(5, 5);
    assert_eq!(sweep(Vector2::new(150, 50), Vector2::new(300, 50), half, &other), None);
    assert_eq!(sweep(Vector2::new(150, 50), Vector2::new(155, 52), half, &other), None);
    assert_eq!(sweep(Vector2::new(150, 50), Vector2::new(300, 300), half, &other), None);
}

#[test]
fn a_path_from_the_edge_inwards_is_found_at_its_start() {
    let other = boxed(150, 50, 10, 40);
    let half = Vector2::new(5, 5);
    assert_eq!(
        sweep(Vector2::new(135, 50), Vector2::new(300, 50), half, &other),
        hit(Side::Left, 135, 50)
    );
    assert_eq!(sweep(Vector2::new(135, 50), Vector2::new(0, 50), half, &other), None);
    assert_eq!(sweep(Vector2::new(135, 50), Vector2::new(135, 90), half, &other), None);
}

#[test]
fn a_resting_ball_crosses_nothing() {
    let other = boxed(150, 50, 10, 40);
    let half = Vector2::new(5, 5);
    assert_eq!(sweep(Vector2::new(0, 0), Vector2::new(0, 0), half, &other), None);
    assert_eq!(sweep(Vector2::new(150, 50), Vector2::new(150, 50), half, &other), None);
    assert_eq!(sweep(Vector2::new(135, 50), Vector2::new(135, 50), half, &other), None);
}

#[test]
fn a_widened_box_without_extent_is_never_crossed() {
    let point = boxed(150, 0, 0, 0);
    let none = Vector2::new(0, 0);
    assert_eq!(sweep(Vector2::new(0, 0), Vector2::new(300, 0), none, &point), None);
    let line = boxed(150, 0, 0, 40);
    assert_eq!(sweep(Vector2::new(0, 0), Vector2::new(300, 0), none, &line), None);
}

#[test]
fn sweep_takes_the_largest_coordinates() {
    let limit = breakout::geometry::COORD_LIMIT;
    let other = boxed(0, 0, limit, limit);
    let half = Vector2::new(limit, limit);
    assert_eq!(
        sweep(Vector2::new(-limit, -limit), Vector2::new(limit, limit), half, &other),
        None
    );
    let small = boxed(0, 0, 1, 1);
    let tiny = Vector2::new(1, 1);
    assert_eq!(
        sweep(Vector2::new(-limit, -limit), Vector2::new(limit, limit), tiny, &small),
        hit(Side::Bottom, -2, -2)
    );
    assert_eq!(
        sweep(Vector2::new(-limit, limit), Vector2::new(limit, -limit + 1), tiny, &small),
        hit(Side::Top, -2, 2)
    );
}
