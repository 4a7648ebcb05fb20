//! The threat field: a window-sized grid of danger scores.
//!
//! For every cell `c` the score is the sum over enemies `e` of
//! `max(0, REACH - dist(c, e))`, a multi-source potential field in which
//! overlapping enemy influence accumulates: a cell threatened by two
//! enemies scores higher than a cell threatened by one. The distance is
//! Chebyshev; metric and radius are a documented design choice (see
//! `REACH`). After scoring, every known border cell is masked to the
//! `SENTINEL` maximum; masking comes after scoring and is idempotent, so a
//! masked cell is never improved by enemy-based updates.

use vstd::prelude::*;
use crate::{CELLS, HALF, MAX_ENEMIES, REACH, SENTINEL};
use crate::coord::{Coordinate, coord_at, index_spec};
use crate::radar::Borders;
use crate::tracker::{EnemyPositions, positions_of, predict_spec};

verus! {

/// Chebyshev (king-move) distance between two cells.
pub open spec fn chebyshev(a: Coordinate, b: Coordinate) -> int {
    let dx = if a.x >= b.x {
        a.x - b.x
    } else {
        b.x - a.x
    };
    let dy = if a.y >= b.y {
        a.y - b.y
    } else {
        b.y - a.y
    };
    if dx >= dy {
        dx
    } else {
        dy
    }
}

/// One enemy's threat contribution to a cell: linear decay with distance,
/// zero from `REACH` outward.
pub open spec fn contribution(e: Coordinate, c: Coordinate) -> int {
    if chebyshev(e, c) < REACH {
        REACH - chebyshev(e, c)
    } else {
        0
    }
}

/// Accumulated threat of cell `c` from a set of enemy coordinates.
pub open spec fn threat_sum(es: Seq<Coordinate>, c: Coordinate) -> int
    decreases es.len(),
{
    if es.len() == 0 {
        0
    } else {
        threat_sum(es.drop_last(), c) + contribution(es.last(), c)
    }
}

/// Threat is non-negative and grows at most `REACH` per enemy.
pub proof fn lemma_threat_sum_bounds(es: Seq<Coordinate>, c: Coordinate)
    ensures
        0 <= threat_sum(es, c) <= REACH * es.len(),
    decreases es.len(),
{
    if es.len() > 0 {
        lemma_threat_sum_bounds(es.drop_last(), c);
    }
}

/// The whole unmasked field, cell by cell.
pub open spec fn threat_grid(es: Seq<Coordinate>) -> Seq<u32> {
    Seq::new(CELLS as nat, |i: int| threat_sum(es, coord_at(i)) as u32)
}

/// Whether some border covers grid index `i`.
pub open spec fn border_covers(borders: Seq<Coordinate>, i: int) -> bool {
    exists|k: int|
        0 <= k < borders.len() && (#[trigger] borders[k]).in_window() && index_spec(borders[k])
            == i
}

/// The field with every border cell forced to the sentinel.
pub open spec fn masked_spec(cells: Seq<u32>, borders: Seq<Coordinate>) -> Seq<u32> {
    Seq::new(
        cells.len(),
        |i: int|
            if border_covers(borders, i) {
                SENTINEL
            } else {
                cells[i]
            },
    )
}

/// Masking is idempotent: a second pass with the same borders changes
/// nothing.
pub proof fn lemma_mask_idempotent(cells: Seq<u32>, borders: Seq<Coordinate>)
    ensures
        masked_spec(masked_spec(cells, borders), borders) == masked_spec(cells, borders),
{
    assert(masked_spec(masked_spec(cells, borders), borders) =~= masked_spec(cells, borders));
}

/// Monotone decay: against a single enemy, a cell no farther away is never
/// scored lower.
pub proof fn lemma_single_enemy_monotone(e: Coordinate, near: Coordinate, far: Coordinate)
    requires
        chebyshev(e, near) <= chebyshev(e, far),
    ensures
        threat_sum(seq![e], near) >= threat_sum(seq![e], far),
{
    reveal_with_fuel(threat_sum, 2);
}

/// Overlap accumulates: a cell within reach of two enemies scores strictly
/// higher than a cell within reach of exactly one enemy at the same
/// distance.
pub proof fn lemma_overlap_scores_higher(
    e1: Coordinate,
    e2: Coordinate,
    both: Coordinate,
    lone: Coordinate,
    single: Coordinate,
)
    requires
        chebyshev(e1, both) < REACH,
        chebyshev(e2, both) < REACH,
        chebyshev(lone, single) == chebyshev(e1, both),
    ensures
        threat_sum(seq![e1, e2], both) > threat_sum(seq![lone], single),
{
    reveal_with_fuel(threat_sum, 3);
    assert(seq![e1, e2].drop_last() =~= seq![e1]);
    assert(seq![e1].drop_last() =~= Seq::<Coordinate>::empty());
    assert(seq![lone].drop_last() =~= Seq::<Coordinate>::empty());
}

/// An exec Chebyshev distance.
pub fn chebyshev_dist(a: Coordinate, b: Coordinate) -> (r: u32)
    ensures
        r as int == chebyshev(a, b),
{
    let dx: i32 = if a.x >= b.x {
        a.x as i32 - b.x as i32
    } else {
        b.x as i32 - a.x as i32
    };
    let dy: i32 = if a.y >= b.y {
        a.y as i32 - b.y as i32
    } else {
        b.y as i32 - a.y as i32
    };
    if dx >= dy {
        dx as u32
    } else {
        dy as u32
    }
}

/// An exec single-enemy contribution.
pub fn contribution_at(e: Coordinate, c: Coordinate) -> (r: u32)
    ensures
        r as int == contribution(e, c),
        r <= REACH,
{
    let d = chebyshev_dist(e, c);
    if d < REACH {
        REACH - d
    } else {
        0
    }
}

/// The window-sized grid of threat scores.
pub struct ThreatMap {
    cells: Vec<u32>,
}

impl View for ThreatMap {
    type V = Seq<u32>;

    closed spec fn view(&self) -> Seq<u32> {
        self.cells@
    }
}

impl ThreatMap {
    /// The grid covers exactly the window.
    pub open spec fn wf(self) -> bool {
        self@.len() == CELLS
    }

    /// Recompute the whole field from a set of enemy coordinates.
    pub fn calculate(enemies: &Vec<Coordinate>) -> (r: ThreatMap)
        requires
            enemies@.len() <= MAX_ENEMIES,
        ensures
            r.wf(),
            r@ == threat_grid(enemies@),
    {
        let n = enemies.len();
        let mut cells: Vec<u32> = Vec::new();
        for idx in 0..CELLS
            invariant
                n == enemies@.len(),
                n <= MAX_ENEMIES,
                cells@.len() == idx,
                forall|i: int|
                    0 <= i < idx ==> (#[trigger] cells@[i]) as int == threat_sum(
                        enemies@,
                        coord_at(i),
                    ),
        {
            let c = Coordinate::from_index(idx);
            let mut acc: u32 = 0;
            for j in 0..n
                invariant
                    n == enemies@.len(),
                    n <= MAX_ENEMIES,
                    c == coord_at(idx as int),
                    acc as int == threat_sum(enemies@.take(j as int), c),
                    acc <= REACH * j,
            {
                proof {
                    assert(enemies@.take(j + 1).drop_last() =~= enemies@.take(j as int));
                }
                acc = acc + contribution_at(enemies[j], c);
            }
            proof {
                assert(enemies@.take(n as int) =~= enemies@);
            }
            cells.push(acc);
        }
        let r = ThreatMap { cells };
        proof {
            assert forall|i: int| 0 <= i < CELLS implies r@[i] == threat_grid(enemies@)[i] by {
                lemma_threat_sum_bounds(enemies@, coord_at(i));
            }
            assert(r@ =~= threat_grid(enemies@));
        }
        r
    }

    /// Recompute the field from the one-step-ahead prediction derived from
    /// the current and the (re-origined) previous sighting sets, so the
    /// policy reacts to where enemies will be, not only where they were.
    pub fn calculate_predicted(current: &EnemyPositions, previous: &EnemyPositions) -> (r:
        ThreatMap)
        requires
            current.wf(),
            previous.wf(),
            current@.len() <= MAX_ENEMIES,
        ensures
            r.wf(),
            r@ == threat_grid(positions_of(predict_spec(current@, previous@))),
    {
        let predicted = crate::tracker::predict(current, previous);
        proof {
            crate::tracker::lemma_predict_len(current@, previous@);
        }
        let coords = predicted.positions();
        Self::calculate(&coords)
    }

    /// The score of an in-window cell; an out-of-window coordinate is
    /// unknown, not an error.
    pub fn score(&self, c: Coordinate) -> (r: Option<u32>)
        requires
            self.wf(),
        ensures
            r == if c.in_window() {
                Some(self@[index_spec(c)])
            } else {
                None::<u32>
            },
    {
        match c.to_index() {
            Some(i) => Some(self.cells[i]),
            None => None,
        }
    }

    /// The score at a raw grid index.
    pub fn score_at(&self, i: usize) -> (r: u32)
        requires
            self.wf(),
            i < CELLS,
        ensures
            r == self@[i as int],
    {
        self.cells[i]
    }

    /// Force one border cell to the sentinel; out-of-window coordinates
    /// are ignored.
    pub fn mask_border(&mut self, c: Coordinate)
        requires
            old(self).wf(),
        ensures
            final(self).wf(),
            final(self)@ == if c.in_window() {
                old(self)@.update(index_spec(c), SENTINEL)
            } else {
                old(self)@
            },
    {
        match c.to_index() {
            Some(i) => {
                self.cells.set(i, SENTINEL);
            },
            None => {},
        }
    }

    /// Force every known border cell to the sentinel. Applied after
    /// `calculate`, so masking is never overwritten by scoring.
    pub fn mask_borders(&mut self, borders: &Borders)
        requires
            old(self).wf(),
        ensures
            final(self).wf(),
            final(self)@ == masked_spec(old(self)@, borders@),
    {
        let n = borders.len();
        for k in 0..n
            invariant
                n == borders@.len(),
                self@.len() == CELLS,
                self@ == masked_spec(old(self)@, borders@.take(k as int)),
        {
            let b = borders.get(k);
            let ghost pre = self@;
            match b.to_index() {
                Some(i) => {
                    self.cells.set(i, SENTINEL);
                },
                None => {},
            }
            proof {
                let t0 = borders@.take(k as int);
                let t1 = borders@.take(k + 1);
                assert(t1.drop_last() =~= t0);
                assert(t1.last() == borders@[k as int]);
                assert forall|i: int| 0 <= i < CELLS implies self@[i] == masked_spec(
                    old(self)@,
                    t1,
                )[i] by {
                    if border_covers(t1, i) {
                        if b.in_window() && index_spec(b) == i {
                            assert(self@[i] == SENTINEL);
                        } else {
                            let w = choose|w: int|
                                0 <= w < t1.len() && (#[trigger] t1[w]).in_window() && index_spec(
                                    t1[w],
                                ) == i;
                            assert(t1[w] == t0[w]);
                            assert(border_covers(t0, i));
                            assert(pre[i] == SENTINEL);
                        }
                    } else {
                        assert(!border_covers(t0, i)) by {
                            if border_covers(t0, i) {
                                let w = choose|w: int|
                                    0 <= w < t0.len() && (#[trigger] t0[w]).in_window()
                                        && index_spec(t0[w]) == i;
                                assert(t1[w] == t0[w]);
                            }
                        }
                        assert(!(b.in_window() && index_spec(b) == i)) by {
                            if b.in_window() && index_spec(b) == i {
                                assert(t1[k as int] == b);
                            }
                        }
                    }
                }
                assert(self@ =~= masked_spec(old(self)@, t1));
            }
        }
        proof {
            assert(borders@.take(n as int) =~= borders@);
        }
    }
}

} // verus!
