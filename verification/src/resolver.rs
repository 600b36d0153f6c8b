//! The collision resolver: finds the first collider that the ball has run
//! into during a step and says what follows from the hit.
//!
//! Colliders are scanned in the order in which they are given, and the first
//! one that is hit is the only one that counts for the step. A collider is
//! hit where the ball overlaps it at the end of the step, or where the ball
//! passed through it on the way there. In the second case the ball is put
//! back to where it first touched the collider.

use vstd::prelude::*;
use crate::bodies::{all_well_formed, Ball, Collider, ColliderKind};
use crate::geometry::{AxisAlignedBox, Vector2};
use crate::response::{
    classify_impact,
    impact_side,
    lemma_reflection_keeps_speed,
    opposes,
    reflect,
    reflected,
    sped_up,
    speed_squared,
    speed_up,
    Side,
    SPEED_UP_PERCENT,
};
use crate::sweep::{
    between,
    crosses,
    entry_point,
    entry_side,
    lemma_entry_point_touches,
    sweep,
    Entry,
};

verus! {

/// The collider that was hit, and how.
#[derive(Clone, Copy, Debug, PartialEq, Eq, Structural)]
pub struct Contact {
    /// Its place among the colliders that were scanned.
    pub index: usize,
    /// The face that the ball struck.
    pub side: Side,
    /// Whether the ball had passed through and was put back to the point of
    /// first touch.
    pub swept: bool,
}

/// How the ball has met a collider.
#[derive(Clone, Copy, Debug, PartialEq, Eq, Structural)]
pub enum Meeting {
    /// The ball overlaps the collider where it is now.
    Overlap,
    /// The ball passed through the collider on its way and first touched it
    /// as the entry says.
    Passage(Entry),
}

/// What one step of collision handling asks of the host.
#[derive(Debug)]
pub struct Resolution {
    /// The ball's centre after the step.
    pub position: Vector2,
    /// The ball's velocity after the step, any speed-up included.
    pub velocity: Vector2,
    /// The hit, if there was one.
    pub contact: Option<Contact>,
    /// Identities of the colliders that the host is to remove.
    pub destroyed_ids: Vec<u64>,
    /// Points to add to the score.
    pub score_delta: u64,
    /// The speed after the step in hundredths of the speed before.
    pub speed_percent: i64,
}

/// A `Resolution` as a mathematical value.
pub struct ResolutionView {
    pub position: Vector2,
    pub velocity: Vector2,
    pub contact: Option<Contact>,
    pub destroyed_ids: Seq<u64>,
    pub score_delta: u64,
    pub speed_percent: i64,
}

impl View for Resolution {
    type V = ResolutionView;

    open spec fn view(&self) -> ResolutionView {
        ResolutionView {
            position: self.position,
            velocity: self.velocity,
            contact: self.contact,
            destroyed_ids: self.destroyed_ids@,
            score_delta: self.score_delta,
            speed_percent: self.speed_percent,
        }
    }
}

/// The ball, now at `ball.center` and before the step at `start`, has run
/// into `other`: it overlaps it, or both have area and the ball's centre
/// crossed the collider widened by the ball's half-extent.
pub open spec fn hits(ball: AxisAlignedBox, start: Vector2, other: AxisAlignedBox) -> bool {
    ball.overlaps(other) || (ball.has_area() && other.has_area() && crosses(
        start,
        ball.center,
        ball.half_extent,
        other,
    ))
}

/// The place of the first collider from `from` on that the ball has run
/// into.
pub open spec fn first_hit_from(
    ball: AxisAlignedBox,
    start: Vector2,
    colliders: Seq<Collider>,
    from: int,
) -> Option<int>
    decreases colliders.len() - from,
{
    if from < 0 || from >= colliders.len() {
        None
    } else if hits(ball, start, colliders[from].body) {
        Some(from)
    } else {
        first_hit_from(ball, start, colliders, from + 1)
    }
}

/// The place of the first collider that the ball has run into.
pub open spec fn first_hit(ball: AxisAlignedBox, start: Vector2, colliders: Seq<Collider>) -> Option<
    int,
> {
    first_hit_from(ball, start, colliders, 0)
}

/// What a step without a hit leaves: the ball as it is, and nothing for the
/// host to do.
pub open spec fn untouched(ball: Ball) -> ResolutionView {
    ResolutionView {
        position: ball.body.center,
        velocity: ball.velocity,
        contact: None,
        destroyed_ids: Seq::empty(),
        score_delta: 0,
        speed_percent: 100,
    }
}

/// How a ball that has run into `other` has met it.
pub open spec fn meeting(ball: AxisAlignedBox, start: Vector2, other: AxisAlignedBox) -> Meeting {
    if ball.overlaps(other) {
        Meeting::Overlap
    } else {
        Meeting::Passage(
            Entry {
                side: entry_side(start, ball.center, ball.half_extent, other),
                point: entry_point(start, ball.center, ball.half_extent, other),
            },
        )
    }
}

/// The face that is struck in a meeting with `other`.
pub open spec fn struck_side(ball: AxisAlignedBox, other: AxisAlignedBox, met: Meeting) -> Side {
    match met {
        Meeting::Overlap => impact_side(ball, other),
        Meeting::Passage(entry) => entry.side,
    }
}

/// What follows from a meeting of the ball with `collider`, which stands at
/// `index`.
pub open spec fn outcome_of(ball: Ball, index: usize, collider: Collider, met: Meeting) -> ResolutionView {
    let side: Side = struck_side(ball.body, collider.body, met);
    let scored: bool = collider.kind == ColliderKind::Scorable;
    ResolutionView {
        position: match met {
            Meeting::Overlap => ball.body.center,
            Meeting::Passage(entry) => entry.point,
        },
        velocity: reflected(
            if scored {
                sped_up(ball.velocity)
            } else {
                ball.velocity
            },
            side,
        ),
        contact: Some(Contact { index, side, swept: met is Passage }),
        destroyed_ids: if scored {
            seq![collider.id]
        } else {
            Seq::empty()
        },
        score_delta: if scored {
            1
        } else {
            0
        },
        speed_percent: if scored {
            SPEED_UP_PERCENT
        } else {
            100
        },
    }
}

/// What follows from the ball having run into `collider`, which stands at
/// `index`.
///
/// A ball that overlaps the collider stays where it is, and the struck face
/// is read off the overlap. A ball that passed through is put back to the
/// point of first touch, and the struck face is the one it entered by. The
/// velocity is reflected off that face. A scorable collider is also named
/// for removal, scores one point and speeds the ball up.
pub open spec fn response(ball: Ball, start: Vector2, index: int, collider: Collider) -> ResolutionView {
    outcome_of(ball, index as usize, collider, meeting(ball.body, start, collider.body))
}

/// What one step of collision handling yields for a ball that was at
/// `start` before it moved.
pub open spec fn resolved(ball: Ball, start: Vector2, colliders: Seq<Collider>) -> ResolutionView {
    match first_hit(ball.body, start, colliders) {
        Some(index) => response(ball, start, index, colliders[index]),
        None => untouched(ball),
    }
}

/// Tests one collider: whether the ball has run into it, and if so, whether
/// it overlaps it or has passed through it, and in that case where it first
/// touched.
pub fn probe(ball: &AxisAlignedBox, start: Vector2, other: &AxisAlignedBox) -> (found: Option<
    Meeting,
>)
    requires
        ball.well_formed(),
        start.in_range(),
        other.well_formed(),
    ensures
        found is Some <==> hits(*ball, start, *other),
        found matches Some(met) ==> met == meeting(*ball, start, *other),
        found matches Some(Meeting::Passage(entry)) ==> {
            &&& entry.point.in_range()
            &&& between(start.x as int, ball.center.x as int, entry.point.x as int)
            &&& between(start.y as int, ball.center.y as int, entry.point.y as int)
        },
{
    if ball.intersects(other) {
        return Some(Meeting::Overlap);
    }
    if ball.half_extent.x > 0 && ball.half_extent.y > 0 && other.half_extent.x > 0
        && other.half_extent.y > 0 {
        match sweep(start, ball.center, ball.half_extent, other) {
            Some(entry) => Some(Meeting::Passage(entry)),
            None => None,
        }
    } else {
        None
    }
}

/// Says what follows from a hit on `collider`, given how the ball has met
/// it: where the ball is put, how its velocity turns, and, for a scorable
/// collider, its removal, the point scored and the speed-up.
pub fn respond(ball: &Ball, index: usize, collider: &Collider, met: Meeting) -> (outcome:
    Resolution)
    requires
        ball.well_formed(),
        collider.well_formed(),
        met matches Meeting::Passage(entry) ==> entry.point.in_range(),
    ensures
        outcome@ == outcome_of(*ball, index, *collider, met),
        outcome.position.in_range(),
        outcome.velocity.in_range(),
{
    let (side, position, swept): (Side, Vector2, bool) = match met {
        Meeting::Passage(entry) => (entry.side, entry.point, true),
        Meeting::Overlap => (classify_impact(&ball.body, &collider.body), ball.body.center, false),
    };
    let mut destroyed_ids: Vec<u64> = Vec::new();
    let mut velocity: Vector2 = ball.velocity;
    let mut score_delta: u64 = 0;
    let mut speed_percent: i64 = 100;
    match collider.kind {
        ColliderKind::Scorable => {
            destroyed_ids.push(collider.id);
            velocity = speed_up(velocity);
            score_delta = 1;
            speed_percent = SPEED_UP_PERCENT;
        },
        ColliderKind::Solid => {},
    }
    Resolution {
        position,
        velocity: reflect(velocity, side),
        contact: Some(Contact { index, side, swept }),
        destroyed_ids,
        score_delta,
        speed_percent,
    }
}

/// One step of collision handling for a ball that has just moved from
/// `previous_center` to where it is now.
pub fn resolve(ball: &Ball, previous_center: Vector2, colliders: &Vec<Collider>) -> (outcome:
    Resolution)
    requires
        ball.well_formed(),
        previous_center.in_range(),
        all_well_formed(colliders@),
    ensures
        outcome@ == resolved(*ball, previous_center, colliders@),
        outcome.position.in_range(),
        outcome.velocity.in_range(),
        between(previous_center.x as int, ball.body.center.x as int, outcome.position.x as int),
        between(previous_center.y as int, ball.body.center.y as int, outcome.position.y as int),
{
    let mut i: usize = 0;
    while i < colliders.len()
        invariant
            i <= colliders.len(),
            ball.well_formed(),
            previous_center.in_range(),
            all_well_formed(colliders@),
            first_hit(ball.body, previous_center, colliders@) == first_hit_from(
                ball.body,
                previous_center,
                colliders@,
                i as int,
            ),
        decreases colliders.len() - i,
    {
        let collider: &Collider = &colliders[i];
        match probe(&ball.body, previous_center, &collider.body) {
            Some(met) => {
                return respond(ball, i, collider, met);
            },
            None => {},
        }
        i = i + 1;
    }
    Resolution {
        position: ball.body.center,
        velocity: ball.velocity,
        contact: None,
        destroyed_ids: Vec::new(),
        score_delta: 0,
        speed_percent: 100,
    }
}

/// No collider of the sequence is scorable.
pub open spec fn all_solid(colliders: Seq<Collider>) -> bool {
    forall|i: int| 0 <= i < colliders.len() ==> (#[trigger] colliders[i]).kind == ColliderKind::Solid
}

proof fn lemma_first_hit_from(
    ball: AxisAlignedBox,
    start: Vector2,
    colliders: Seq<Collider>,
    from: int,
)
    requires
        0 <= from <= colliders.len(),
    ensures
        match first_hit_from(ball, start, colliders, from) {
            Some(index) => {
                &&& from <= index < colliders.len()
                &&& hits(ball, start, colliders[index].body)
                &&& forall|j: int| from <= j < index ==> !hits(ball, start, #[trigger] colliders[j].body)
            },
            None => forall|j: int|
                from <= j < colliders.len() ==> !hits(ball, start, #[trigger] colliders[j].body),
        },
    decreases colliders.len() - from,
{
    if from < colliders.len() && !hits(ball, start, colliders[from].body) {
        lemma_first_hit_from(ball, start, colliders, from + 1);
    }
}

/// First hit wins: the collider that counts is one that the ball has run
/// into, and the ball has run into none of those before it; where none
/// counts, the ball has run into none at all.
pub proof fn lemma_first_hit_wins(ball: AxisAlignedBox, start: Vector2, colliders: Seq<Collider>)
    ensures
        match first_hit(ball, start, colliders) {
            Some(index) => {
                &&& 0 <= index < colliders.len()
                &&& hits(ball, start, colliders[index].body)
                &&& forall|j: int| 0 <= j < index ==> !hits(ball, start, #[trigger] colliders[j].body)
            },
            None => forall|j: int|
                0 <= j < colliders.len() ==> !hits(ball, start, #[trigger] colliders[j].body),
        },
{
    lemma_first_hit_from(ball, start, colliders, 0);
}

/// Where the ball has run into nothing, and so where there is no collider
/// at all, the step changes neither its place nor its velocity and asks
/// nothing of the host.
pub proof fn lemma_no_hit_changes_nothing(ball: Ball, start: Vector2, colliders: Seq<Collider>)
    requires
        forall|j: int| 0 <= j < colliders.len() ==> !hits(ball.body, start, #[trigger] colliders[j].body),
    ensures
        resolved(ball, start, colliders) == untouched(ball),
        resolved(ball, start, colliders).position == ball.body.center,
        resolved(ball, start, colliders).velocity == ball.velocity,
        resolved(ball, start, colliders).destroyed_ids.len() == 0,
        resolved(ball, start, colliders).score_delta == 0,
{
    lemma_first_hit_wins(ball.body, start, colliders);
}

/// A hit on a scorable collider names that collider for removal, once, and
/// no other; scores exactly one point; and leaves the ball with its velocity
/// sped up and reflected off the struck face.
pub proof fn lemma_brick_hit(ball: Ball, start: Vector2, colliders: Seq<Collider>, index: int)
    requires
        first_hit(ball.body, start, colliders) == Some(index),
        0 <= index < colliders.len() <= usize::MAX,
        colliders[index].kind == ColliderKind::Scorable,
    ensures
        resolved(ball, start, colliders).destroyed_ids == seq![colliders[index].id],
        resolved(ball, start, colliders).score_delta == 1,
        resolved(ball, start, colliders).speed_percent == SPEED_UP_PERCENT,
        resolved(ball, start, colliders).contact matches Some(contact) && contact.index == index
            && resolved(ball, start, colliders).velocity == reflected(
            sped_up(ball.velocity),
            contact.side,
        ),
{
}

/// A hit on a solid collider asks nothing of the host and turns the ball
/// round only where it was moving into the struck face: a ball that is
/// already moving away keeps its velocity.
pub proof fn lemma_solid_hit(ball: Ball, start: Vector2, colliders: Seq<Collider>, index: int)
    requires
        first_hit(ball.body, start, colliders) == Some(index),
        0 <= index < colliders.len() <= usize::MAX,
        colliders[index].kind == ColliderKind::Solid,
    ensures
        resolved(ball, start, colliders).destroyed_ids.len() == 0,
        resolved(ball, start, colliders).score_delta == 0,
        resolved(ball, start, colliders).speed_percent == 100,
        resolved(ball, start, colliders).contact matches Some(contact) && contact.index == index
            && resolved(ball, start, colliders).velocity == reflected(ball.velocity, contact.side)
            && (!opposes(ball.velocity, contact.side) ==> resolved(
            ball,
            start,
            colliders,
        ).velocity == ball.velocity),
{
}

/// Among solid colliders the ball never changes speed: a step leaves the
/// magnitude of each component of its velocity as it was.
pub proof fn lemma_solid_colliders_keep_speed(ball: Ball, start: Vector2, colliders: Seq<Collider>)
    requires
        ball.velocity.in_range(),
        all_solid(colliders),
    ensures
        resolved(ball, start, colliders).velocity.x == ball.velocity.x || resolved(
            ball,
            start,
            colliders,
        ).velocity.x == -ball.velocity.x,
        resolved(ball, start, colliders).velocity.y == ball.velocity.y || resolved(
            ball,
            start,
            colliders,
        ).velocity.y == -ball.velocity.y,
        speed_squared(resolved(ball, start, colliders).velocity) == speed_squared(ball.velocity),
        resolved(ball, start, colliders).destroyed_ids.len() == 0,
        resolved(ball, start, colliders).score_delta == 0,
{
    lemma_first_hit_wins(ball.body, start, colliders);
    match first_hit(ball.body, start, colliders) {
        Some(index) => {
            let side: Side = resolved(ball, start, colliders).contact.unwrap().side;
            lemma_reflection_keeps_speed(ball.velocity, side);
        },
        None => {},
    }
}

/// A ball that passed through the collider it hit is put back against it:
/// where it is put, it lies on its way, reaches nowhere into that collider,
/// and has its edge exactly on the face it struck.
pub proof fn lemma_passage_ends_at_the_face(
    ball: Ball,
    start: Vector2,
    colliders: Seq<Collider>,
    index: int,
)
    requires
        ball.well_formed(),
        start.in_range(),
        all_well_formed(colliders),
        first_hit(ball.body, start, colliders) == Some(index),
        0 <= index < colliders.len() <= usize::MAX,
        !ball.body.overlaps(colliders[index].body),
    ensures
        ({
            let outcome: ResolutionView = resolved(ball, start, colliders);
            let put: AxisAlignedBox = ball.body.moved_to(outcome.position);
            let other: AxisAlignedBox = colliders[index].body;
            &&& outcome.contact matches Some(contact) && contact.swept && contact.index == index
                && match contact.side {
                Side::Left => put.max_x() == other.min_x(),
                Side::Right => put.min_x() == other.max_x(),
                Side::Bottom => put.max_y() == other.min_y(),
                Side::Top => put.min_y() == other.max_y(),
            }
            &&& !put.overlaps(other)
            &&& between(start.x as int, ball.body.center.x as int, outcome.position.x as int)
            &&& between(start.y as int, ball.body.center.y as int, outcome.position.y as int)
        }),
{
    lemma_first_hit_wins(ball.body, start, colliders);
    lemma_entry_point_touches(
        start,
        ball.body.center,
        ball.body.half_extent,
        colliders[index].body,
    );
}

} // verus!
