//! Greedy move selection over the current threat field.
//!
//! The reachable one-tick actions are a step forward, a step backward, and
//! the two turns. A turn changes the heading only, so it is scored at the
//! current cell; under the strict-improvement rule below it can therefore
//! never beat staying, and this one-tick greedy policy — which looks no
//! tick further — never emits one. The candidate steps are scored at their
//! destination cell; a destination outside the window is unknown and never
//! selected. An action is emitted only when its score is strictly less
//! than the current cell's score (avoiding oscillation between two equally
//! threatened cells); ties between the steps prefer Front over Back.
//! Masked cells carry the sentinel maximum, so the minimization excludes
//! them by construction.

use vstd::prelude::*;
use crate::{CELLS, SENTINEL};
use crate::coord::{Coordinate, Direction, RobotPosition, index_spec, step_dest};
use crate::threat::ThreatMap;

verus! {

/// The field's score at an in-window cell.
pub open spec fn cell_score(m: Seq<u32>, c: Coordinate) -> int {
    m[index_spec(c)] as int
}

/// Whether stepping (forward or backward) lands in the window on a cell
/// scored strictly below the current one.
pub open spec fn move_improves(m: Seq<u32>, p: RobotPosition, forward: bool) -> bool {
    let dst = step_dest(p, forward);
    dst.in_window() && cell_score(m, dst) < cell_score(m, p.position)
}

/// The greedy decision: the improving step with the lowest destination
/// score, Front preferred on ties, or no action at all. A pose outside the
/// window has no known score and yields no action.
pub open spec fn greedy_spec(m: Seq<u32>, p: RobotPosition) -> Option<Direction> {
    if !p.position.in_window() {
        None
    } else if move_improves(m, p, true) && (!move_improves(m, p, false) || cell_score(
        m,
        step_dest(p, true),
    ) <= cell_score(m, step_dest(p, false))) {
        Some(Direction::Front)
    } else if move_improves(m, p, false) {
        Some(Direction::Back)
    } else {
        None
    }
}

/// Pick the lowest-risk one-tick action for the current field and pose.
pub fn greedy_next_move(map: &ThreatMap, pose: &RobotPosition) -> (r: Option<Direction>)
    requires
        map.wf(),
    ensures
        r == greedy_spec(map@, *pose),
{
    let here = match pose.position.to_index() {
        Some(i) => i,
        None => {
            return None;
        },
    };
    let current = map.score_at(here);
    let s = pose.orientation.step();
    let front = Coordinate { x: pose.position.x + s.x, y: pose.position.y + s.y };
    let back = Coordinate { x: pose.position.x - s.x, y: pose.position.y - s.y };
    let front_score = map.score(front);
    let back_score = map.score(back);
    let front_improves = match front_score {
        Some(v) => v < current,
        None => false,
    };
    let back_improves = match back_score {
        Some(v) => v < current,
        None => false,
    };
    if front_improves && (!back_improves || front_score.unwrap() <= back_score.unwrap()) {
        Some(Direction::Front)
    } else if back_improves {
        Some(Direction::Back)
    } else {
        None
    }
}

/// The policy never sends the agent onto a masked cell: an emitted action
/// is a step whose destination lies in the window and scores strictly
/// below the current cell, hence below the sentinel.
pub proof fn lemma_no_masked_destination(m: Seq<u32>, p: RobotPosition, d: Direction)
    requires
        m.len() == CELLS,
        greedy_spec(m, p) == Some(d),
    ensures
        d == Direction::Front || d == Direction::Back,
        step_dest(p, d == Direction::Front).in_window(),
        cell_score(m, step_dest(p, d == Direction::Front)) < SENTINEL,
{
    let dst = step_dest(p, d == Direction::Front);
    crate::coord::lemma_index_of_coord(p.position);
    assert(cell_score(m, p.position) <= SENTINEL);
}

/// The policy is deterministic: identical field and pose always yield the
/// identical action.
pub proof fn lemma_policy_deterministic(
    m1: Seq<u32>,
    p1: RobotPosition,
    m2: Seq<u32>,
    p2: RobotPosition,
)
    requires
        m1 == m2,
        p1 == p2,
    ensures
        greedy_spec(m1, p1) == greedy_spec(m2, p2),
{
}

} // verus!
