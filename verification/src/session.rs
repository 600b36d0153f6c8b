//! A game in progress: the field, the paddle, the ball, the walls and the
//! bricks that are left, and the score. One call of `tick` plays one step
//! and tells the host what to show and play.

use vstd::prelude::*;
use crate::bodies::{
    all_well_formed,
    are_well_formed,
    Ball,
    Collider,
    ColliderKind,
    Paddle,
    PlayField,
    Scoreboard,
};
use crate::integrator::{move_paddle, moved, steered};
use crate::play::{step_ball, stepped};
use crate::resolver::{first_hit, lemma_first_hit_wins, resolved, Resolution, ResolutionView};

verus! {

/// Something for the host to do after a step.
#[derive(Clone, Copy, Debug, PartialEq, Eq, Structural)]
pub enum Event {
    /// Remove the collider of this identity from what is shown.
    DestroyCollider(u64),
    /// Play the sound of a breaking brick.
    PlayBreakSound,
    /// Show this score.
    UpdateScoreboard(u64),
}

/// A game in progress.
#[derive(Debug)]
pub struct Session {
    pub field: PlayField,
    pub paddle: Paddle,
    pub ball: Ball,
    /// The walls and the bricks that are left, in the order in which the
    /// ball is tested against them. The paddle is tested before them all.
    pub obstacles: Vec<Collider>,
    pub scoreboard: Scoreboard,
}

/// A `Session` as a mathematical value.
pub struct SessionView {
    pub field: PlayField,
    pub paddle: Paddle,
    pub ball: Ball,
    pub obstacles: Seq<Collider>,
    pub score: u64,
}

impl View for Session {
    type V = SessionView;

    open spec fn view(&self) -> SessionView {
        SessionView {
            field: self.field,
            paddle: self.paddle,
            ball: self.ball,
            obstacles: self.obstacles@,
            score: self.scoreboard.score,
        }
    }
}

/// The colliders in the order in which the ball is tested against them: the
/// paddle, then the obstacles.
pub open spec fn scan_list(paddle: Paddle, obstacles: Seq<Collider>) -> Seq<Collider> {
    seq![paddle.as_collider()] + obstacles
}

impl SessionView {
    pub open spec fn well_formed(self) -> bool {
        &&& self.field.well_formed()
        &&& self.paddle.well_formed()
        &&& self.ball.well_formed()
        &&& all_well_formed(self.obstacles)
        &&& self.obstacles.len() < usize::MAX
    }

    /// The paddle after the step.
    pub open spec fn next_paddle(self, left_pressed: bool, right_pressed: bool, dt: u64) -> Paddle {
        steered(self.paddle, self.field, left_pressed, right_pressed, dt)
    }

    /// What the ball is tested against in the step: the paddle where it is
    /// after moving, then the obstacles.
    pub open spec fn next_scan(self, left_pressed: bool, right_pressed: bool, dt: u64) -> Seq<
        Collider,
    > {
        scan_list(self.next_paddle(left_pressed, right_pressed, dt), self.obstacles)
    }

    /// What the collision handling of the step yields.
    pub open spec fn outcome(self, left_pressed: bool, right_pressed: bool, dt: u64) -> ResolutionView {
        resolved(
            moved(self.ball, self.field, dt),
            self.ball.body.center,
            self.next_scan(left_pressed, right_pressed, dt),
        )
    }

    /// The step breaks a brick.
    pub open spec fn breaks_brick(self, left_pressed: bool, right_pressed: bool, dt: u64) -> bool {
        self.outcome(left_pressed, right_pressed, dt).score_delta > 0
    }

    /// The place among the obstacles of the collider that the step hits.
    pub open spec fn struck_obstacle(self, left_pressed: bool, right_pressed: bool, dt: u64) -> int {
        self.outcome(left_pressed, right_pressed, dt).contact.unwrap().index - 1
    }

    /// The session after one step: the paddle moves as steered; the ball
    /// moves and is placed and turned by the first collider it has run into;
    /// a brick that was hit is gone and has scored a point.
    pub open spec fn ticked(self, left_pressed: bool, right_pressed: bool, dt: u64) -> SessionView {
        let outcome: ResolutionView = self.outcome(left_pressed, right_pressed, dt);
        SessionView {
            field: self.field,
            paddle: self.next_paddle(left_pressed, right_pressed, dt),
            ball: stepped(
                self.ball,
                self.field,
                self.next_scan(left_pressed, right_pressed, dt),
                dt,
            ),
            obstacles: if self.breaks_brick(left_pressed, right_pressed, dt) {
                self.obstacles.remove(self.struck_obstacle(left_pressed, right_pressed, dt))
            } else {
                self.obstacles
            },
            score: (self.score + outcome.score_delta) as u64,
        }
    }

    /// What the step asks of the host: for a broken brick its removal, the
    /// sound and the new score, in that order; otherwise nothing.
    pub open spec fn tick_events(self, left_pressed: bool, right_pressed: bool, dt: u64) -> Seq<Event> {
        if self.breaks_brick(left_pressed, right_pressed, dt) {
            seq![
                Event::DestroyCollider(
                    self.obstacles[self.struck_obstacle(left_pressed, right_pressed, dt)].id,
                ),
                Event::PlayBreakSound,
                Event::UpdateScoreboard((self.score + 1) as u64),
            ]
        } else {
            Seq::empty()
        }
    }
}

/// Lists the colliders in the order in which the ball is tested against
/// them.
pub fn scan_order(paddle: &Paddle, obstacles: &Vec<Collider>) -> (scan: Vec<Collider>)
    ensures
        scan@ == scan_list(*paddle, obstacles@),
{
    let mut scan: Vec<Collider> = Vec::new();
    scan.push(paddle.collider());
    let mut i: usize = 0;
    while i < obstacles.len()
        invariant
            i <= obstacles.len(),
            scan@ == seq![paddle.as_collider()] + obstacles@.subrange(0, i as int),
        decreases obstacles.len() - i,
    {
        scan.push(obstacles[i]);
        proof {
            assert(obstacles@.subrange(0, i + 1) == obstacles@.subrange(0, i as int).push(
                obstacles@[i as int],
            ));
            assert(scan@ == seq![paddle.as_collider()] + obstacles@.subrange(0, i + 1));
        }
        i = i + 1;
    }
    proof {
        assert(obstacles@.subrange(0, obstacles@.len() as int) == obstacles@);
    }
    scan
}

/// A step that breaks a brick has hit an obstacle, not the paddle, and that
/// obstacle is scorable and is the one named for removal.
pub proof fn lemma_broken_brick_is_an_obstacle(
    state: SessionView,
    left_pressed: bool,
    right_pressed: bool,
    dt: u64,
)
    requires
        state.well_formed(),
        state.breaks_brick(left_pressed, right_pressed, dt),
    ensures
        0 <= state.struck_obstacle(left_pressed, right_pressed, dt) < state.obstacles.len(),
        state.obstacles[state.struck_obstacle(left_pressed, right_pressed, dt)].kind
            == ColliderKind::Scorable,
        state.outcome(left_pressed, right_pressed, dt).destroyed_ids
            == seq![state.obstacles[state.struck_obstacle(left_pressed, right_pressed, dt)].id],
        state.outcome(left_pressed, right_pressed, dt).score_delta == 1,
{
    let scan: Seq<Collider> = state.next_scan(left_pressed, right_pressed, dt);
    lemma_first_hit_wins(moved(state.ball, state.field, dt).body, state.ball.body.center, scan);
    let index: int = first_hit(
        moved(state.ball, state.field, dt).body,
        state.ball.body.center,
        scan,
    ).unwrap();
    assert(scan[0].kind == ColliderKind::Solid);
    assert(scan[index] == state.obstacles[index - 1]);
}

impl Session {
    pub open spec fn well_formed(&self) -> bool {
        self@.well_formed()
    }

    /// A session at its start: nothing scored yet.
    pub fn new(field: PlayField, paddle: Paddle, ball: Ball, obstacles: Vec<Collider>) -> (session:
        Session)
        ensures
            session@ == (SessionView { field, paddle, ball, obstacles: obstacles@, score: 0 }),
    {
        Session { field, paddle, ball, obstacles, scoreboard: Scoreboard { score: 0 } }
    }

    /// Whether the session is well formed.
    pub fn is_well_formed(&self) -> (ok: bool)
        ensures
            ok == self.well_formed(),
    {
        self.field.is_well_formed() && self.paddle.is_well_formed() && self.ball.is_well_formed()
            && are_well_formed(&self.obstacles) && self.obstacles.len() < usize::MAX
    }

    /// The number of bricks broken so far.
    pub fn score(&self) -> (score: u64)
        ensures
            score == self@.score,
    {
        self.scoreboard.score
    }

    /// Plays one step: moves the paddle as steered, moves the ball, handles
    /// its first collision, removes a brick that was hit and counts it.
    /// Returns what the host is to do.
    pub fn tick(&mut self, left_pressed: bool, right_pressed: bool, dt: u64) -> (events: Vec<Event>)
        requires
            old(self).well_formed(),
            old(self).scoreboard.score < u64::MAX,
        ensures
            final(self)@ == old(self)@.ticked(left_pressed, right_pressed, dt),
            events@ == old(self)@.tick_events(left_pressed, right_pressed, dt),
            final(self).well_formed(),
            old(self).field.contains(old(self).ball.body)
                ==> final(self).field.contains(final(self).ball.body),
            old(self).field.has_room_for(old(self).paddle.body.half_extent)
                ==> final(self).field.contains(final(self).paddle.body),
    {
        let mut events: Vec<Event> = Vec::new();
        move_paddle(&mut self.paddle, left_pressed, right_pressed, dt, &self.field);
        let scan: Vec<Collider> = scan_order(&self.paddle, &self.obstacles);
        let outcome: Resolution = step_ball(&mut self.ball, &self.field, &scan, dt);
        if outcome.score_delta > 0 {
            proof {
                lemma_broken_brick_is_an_obstacle(old(self)@, left_pressed, right_pressed, dt);
            }
            match outcome.contact {
                Some(contact) => {
                    let brick: Collider = self.obstacles.remove(contact.index - 1);
                    self.scoreboard.score = self.scoreboard.score + 1;
                    events.push(Event::DestroyCollider(brick.id));
                    events.push(Event::PlayBreakSound);
                    events.push(Event::UpdateScoreboard(self.scoreboard.score));
                },
                None => {},
            }
        }
        events
    }
}

/// A step breaks one brick or none, and the score counts exactly the bricks
/// that are gone: what the score gains, the obstacles lose. Walls are never
/// removed.
pub proof fn lemma_score_counts_broken_bricks(
    state: SessionView,
    left_pressed: bool,
    right_pressed: bool,
    dt: u64,
)
    requires
        state.well_formed(),
        state.score < u64::MAX,
    ensures
        ({
            let next: SessionView = state.ticked(left_pressed, right_pressed, dt);
            &&& next.score == state.score || next.score == state.score + 1
            &&& next.score - state.score == state.obstacles.len() - next.obstacles.len()
            &&& forall|i: int|
                0 <= i < state.obstacles.len() && (#[trigger] state.obstacles[i]).kind
                    == ColliderKind::Solid ==> next.obstacles.contains(state.obstacles[i])
        }),
{
    let next: SessionView = state.ticked(left_pressed, right_pressed, dt);
    if state.breaks_brick(left_pressed, right_pressed, dt) {
        lemma_broken_brick_is_an_obstacle(state, left_pressed, right_pressed, dt);
        let gone: int = state.struck_obstacle(left_pressed, right_pressed, dt);
        assert forall|i: int|
            0 <= i < state.obstacles.len() && (#[trigger] state.obstacles[i]).kind
                == ColliderKind::Solid implies next.obstacles.contains(state.obstacles[i]) by {
            if i < gone {
                assert(next.obstacles[i] == state.obstacles[i]);
            } else {
                assert(next.obstacles[i - 1] == state.obstacles[i]);
            }
        }
    } else {
        assert forall|i: int|
            0 <= i < state.obstacles.len() && (#[trigger] state.obstacles[i]).kind
                == ColliderKind::Solid implies next.obstacles.contains(state.obstacles[i]) by {
            assert(next.obstacles[i] == state.obstacles[i]);
        }
    }
}

} // verus!
