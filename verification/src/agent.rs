//! The agent's aggregate state and the two scheduler dispatch entries.
//!
//! All mutable state — sighting sets, threat field, pose — is owned by one
//! `AgentState` instance; an outer cooperative loop polls the two hardware
//! readiness signals and dispatches here, radar before motor, so a tick in
//! which both subsystems are ready applies the fresh threat field before
//! the move decision.
//!
//! `on_radar` runs the whole sensing pipeline atomically for one scan:
//! interpret, re-origin and swap the tracker's sets, recompute the threat
//! field from the one-step-ahead prediction, mask the discovered borders,
//! and reset the pose to the window origin. `on_motor` runs the greedy
//! policy and applies the chosen action to the pose; the caller performs
//! the matching actuation.

use vstd::prelude::*;
use crate::{CELLS, MAX_ENEMIES};
use crate::coord::{Coordinate, Direction, Orientation, RobotPosition, pose_after, step_dest};
use crate::policy::{greedy_next_move, greedy_spec, move_improves};
use crate::radar::{ScanError, borders_of, cell_violates, enemies_of, interpret, scan_ok};
use crate::threat::{ThreatMap, masked_spec, threat_grid};
use crate::tracker::{EnemyTracker, positions_of, predict_spec, re_origin_spec};

verus! {

/// The state after one coherent scan taken from `prior`: what the tracker
/// holds and what the threat field shows.
pub open spec fn scan_outcome(
    prior: AgentState,
    cells: Seq<char>,
    ids: Seq<Option<u64>>,
    next: AgentState,
) -> bool {
    let heading = prior.pose.orientation;
    let cur = enemies_of(cells, ids, heading);
    let prev = re_origin_spec(
        prior.tracker.spec_current(),
        prior.pose.position.x as int,
        prior.pose.position.y as int,
    );
    next.tracker.spec_current() == cur && next.tracker.spec_previous() == prev && next.threat@
        == masked_spec(
        threat_grid(positions_of(predict_spec(cur, prev))),
        borders_of(cells, heading),
    ) && next.pose.position.x == 0 && next.pose.position.y == 0 && next.pose.orientation
        == heading
}

/// Everything the control loop owns.
pub struct AgentState {
    pub tracker: EnemyTracker,
    pub threat: ThreatMap,
    pub pose: RobotPosition,
}

impl AgentState {
    pub open spec fn wf(self) -> bool {
        self.tracker.wf() && self.threat.wf() && self.pose.position.in_window()
    }

    /// Fresh state at the window origin, heading as the compass reported
    /// it at startup, no sightings, an all-zero threat field.
    pub fn new(initial: Orientation) -> (r: AgentState)
        ensures
            r.wf(),
            r.pose.position.x == 0 && r.pose.position.y == 0,
            r.pose.orientation == initial,
            r.tracker.spec_current().len() == 0,
            r.tracker.spec_previous().len() == 0,
            r.threat@ == threat_grid(Seq::<Coordinate>::empty()),
    {
        let no_enemies: Vec<Coordinate> = Vec::new();
        AgentState {
            tracker: EnemyTracker::new(),
            threat: ThreatMap::calculate(&no_enemies),
            pose: RobotPosition { position: Coordinate { x: 0, y: 0 }, orientation: initial },
        }
    }

    /// Ingest one radar scan: the whole sensing pipeline, atomic per scan.
    /// Fails — leaving the state untouched — exactly when the scan is
    /// incoherent (an enemy cell without an identifier).
    pub fn on_radar(&mut self, cells: &Vec<char>, ids: &Vec<Option<u64>>) -> (r: Result<
        (),
        ScanError,
    >)
        requires
            old(self).wf(),
            cells@.len() == CELLS,
            ids@.len() == CELLS,
        ensures
            r is Ok <==> scan_ok(cells@, ids@),
            r is Ok ==> scan_outcome(*old(self), cells@, ids@, *final(self)) && final(self).wf(),
            r matches Err(e) ==> *final(self) == *old(self) && (e
                matches ScanError::MissingBotId { index } && cell_violates(
                cells@,
                ids@,
                index as int,
            ) && forall|j: int| 0 <= j < index ==> !cell_violates(cells@, ids@, j)),
    {
        match interpret(cells, ids, self.pose.orientation) {
            Err(e) => Err(e),
            Ok((enemies, borders)) => {
                proof {
                    crate::radar::lemma_enemies_upto_len(
                        cells@,
                        ids@,
                        self.pose.orientation,
                        CELLS as int,
                    );
                }
                self.tracker.observe(enemies, self.pose.position);
                let mut field = ThreatMap::calculate_predicted(
                    self.tracker.current_set(),
                    self.tracker.previous_set(),
                );
                field.mask_borders(&borders);
                self.threat = field;
                self.pose =
                RobotPosition { position: Coordinate { x: 0, y: 0 }, orientation: self.pose.orientation };
                Ok(())
            },
        }
    }

    /// Decide and apply one move: the greedy policy over the current
    /// field, the pose updated by the chosen action. The returned action —
    /// if any — is what the caller must actuate.
    pub fn on_motor(&mut self) -> (r: Option<Direction>)
        requires
            old(self).wf(),
        ensures
            r == greedy_spec(old(self).threat@, old(self).pose),
            final(self).tracker == old(self).tracker,
            final(self).threat == old(self).threat,
            r matches Some(d) ==> final(self).pose == pose_after(old(self).pose, d),
            r is None ==> final(self).pose == old(self).pose,
            final(self).wf(),
    {
        let r = greedy_next_move(&self.threat, &self.pose);
        match r {
            Some(d) => {
                proof {
                    assert(d == Direction::Front || d == Direction::Back);
                    assert(move_improves(old(self).threat@, old(self).pose, d
                        == Direction::Front));
                    assert(step_dest(old(self).pose, d == Direction::Front).in_window());
                }
                self.pose.apply(d);
            },
            None => {},
        }
        r
    }
}

} // verus!
