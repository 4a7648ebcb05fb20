//! Interpretation of one raw radar scan.
//!
//! A scan is handed in as a row-major grid of `CELLS` cell marks plus a
//! parallel grid of sensor-assigned bot identifiers. The center cell is the
//! agent itself and is always skipped. Every other cell either holds an
//! enemy (emitted as an `EnemyPosition` at the scan offset re-expressed in
//! the stable frame), is void/outside the arena (emitted as a border cell),
//! or is passable floor.
//!
//! An enemy-occupied cell without an identifier is a sensor/engine desync:
//! a fatal invariant violation reported as `ScanError`, never retried.

use vstd::prelude::*;
use crate::{CELLS};
use crate::coord::{Coordinate, Orientation, coord_at, rotated};
use crate::tracker::{EnemyPosition, EnemyPositions};

verus! {

/// Mark of an enemy-occupied cell in a raw scan.
pub const ENEMY_MARK: char = '@';

/// Mark of a void cell: outside the arena or otherwise impassable.
pub const VOID_MARK: char = ' ';

/// Row-major index of the window's center cell: the agent itself.
pub const CENTER: usize = 24;

/// Fatal scan-interpretation fault.
#[derive(Clone, Copy, PartialEq, Eq, Structural, Debug)]
pub enum ScanError {
    /// A cell was classified enemy-occupied but the sensor supplied no
    /// identifier for it; `index` is the first such cell in scan order.
    MissingBotId { index: usize },
}

/// Every coordinate of the sequence lies inside the window.
pub open spec fn coords_in_window(s: Seq<Coordinate>) -> bool {
    forall|i: int| 0 <= i < s.len() ==> (#[trigger] s[i]).in_window()
}

/// Cells known from a scan to be outside the arena or impassable,
/// accumulated within one scan's analysis and rebuilt per scan.
#[derive(Debug)]
pub struct Borders {
    items: Vec<Coordinate>,
}

impl View for Borders {
    type V = Seq<Coordinate>;

    closed spec fn view(&self) -> Seq<Coordinate> {
        self.items@
    }
}

impl Borders {
    /// All stored coordinates lie inside the window.
    pub open spec fn wf(self) -> bool {
        coords_in_window(self@)
    }

    pub fn new() -> (r: Borders)
        ensures
            r@ == Seq::<Coordinate>::empty(),
            r.wf(),
    {
        Borders { items: Vec::new() }
    }

    pub fn len(&self) -> (r: usize)
        ensures
            r == self@.len(),
    {
        self.items.len()
    }

    pub fn get(&self, i: usize) -> (r: Coordinate)
        requires
            i < self@.len(),
        ensures
            r == self@[i as int],
    {
        self.items[i]
    }

    pub fn push(&mut self, c: Coordinate)
        requires
            c.in_window(),
        ensures
            final(self)@ == old(self)@.push(c),
            old(self).wf() ==> final(self).wf(),
    {
        self.items.push(c);
        proof {
            assert forall|i: int| 0 <= i < self@.len() && coords_in_window(old(self)@) implies (
            #[trigger] self@[i]).in_window() by {
                if i < self@.len() - 1 {
                    assert(self@[i] == old(self)@[i]);
                }
            }
        }
    }
}

/// The scan offset stored at index `i`, re-expressed in the stable frame
/// for a scan taken while heading `o`.
pub open spec fn stable_coord(i: int, o: Orientation) -> Coordinate {
    let p = rotated(o, (coord_at(i).x as int, coord_at(i).y as int));
    Coordinate { x: p.0 as i8, y: p.1 as i8 }
}

/// Whether cell `i` is enemy-occupied but lacks an identifier.
pub open spec fn cell_violates(cells: Seq<char>, ids: Seq<Option<u64>>, i: int) -> bool {
    i != CENTER && cells[i] == ENEMY_MARK && ids[i] is None
}

/// A scan is coherent when every non-center enemy cell carries an id.
pub open spec fn scan_ok(cells: Seq<char>, ids: Seq<Option<u64>>) -> bool {
    forall|i: int| 0 <= i < CELLS ==> !cell_violates(cells, ids, i)
}

/// Enemy sightings among the first `n` cells, in scan order.
pub open spec fn enemies_upto(
    cells: Seq<char>,
    ids: Seq<Option<u64>>,
    o: Orientation,
    n: int,
) -> Seq<EnemyPosition>
    decreases n,
{
    if n <= 0 {
        Seq::empty()
    } else if n - 1 != CENTER && cells[n - 1] == ENEMY_MARK {
        enemies_upto(cells, ids, o, n - 1) + seq![
            EnemyPosition { id: ids[n - 1].unwrap(), position: stable_coord(n - 1, o) }
        ]
    } else {
        enemies_upto(cells, ids, o, n - 1)
    }
}

/// Border cells among the first `n` cells, in scan order.
pub open spec fn borders_upto(cells: Seq<char>, o: Orientation, n: int) -> Seq<Coordinate>
    decreases n,
{
    if n <= 0 {
        Seq::empty()
    } else if n - 1 != CENTER && cells[n - 1] == VOID_MARK {
        borders_upto(cells, o, n - 1) + seq![stable_coord(n - 1, o)]
    } else {
        borders_upto(cells, o, n - 1)
    }
}

/// All enemy sightings of a coherent scan.
pub open spec fn enemies_of(cells: Seq<char>, ids: Seq<Option<u64>>, o: Orientation) -> Seq<
    EnemyPosition,
> {
    enemies_upto(cells, ids, o, CELLS as int)
}

/// All border cells of a scan.
pub open spec fn borders_of(cells: Seq<char>, o: Orientation) -> Seq<Coordinate> {
    borders_upto(cells, o, CELLS as int)
}

/// At most one sighting per cell.
pub proof fn lemma_enemies_upto_len(
    cells: Seq<char>,
    ids: Seq<Option<u64>>,
    o: Orientation,
    n: int,
)
    ensures
        enemies_upto(cells, ids, o, n).len() <= if n >= 0 {
            n
        } else {
            0
        },
    decreases n,
{
    if n > 0 {
        lemma_enemies_upto_len(cells, ids, o, n - 1);
    }
}

/// Convert one raw scan into enemy sightings and border knowledge, both in
/// the stable frame for current heading `heading`. Fails, without emitting
/// anything, exactly when some non-center cell is enemy-occupied without an
/// identifier; the reported index is the first such cell.
pub fn interpret(cells: &Vec<char>, ids: &Vec<Option<u64>>, heading: Orientation) -> (r: Result<
    (EnemyPositions, Borders),
    ScanError,
>)
    requires
        cells@.len() == CELLS,
        ids@.len() == CELLS,
    ensures
        r is Ok <==> scan_ok(cells@, ids@),
        r matches Ok(v) ==> v.0@ == enemies_of(cells@, ids@, heading) && v.0.wf() && v.1@
            == borders_of(cells@, heading) && v.1.wf(),
        r matches Err(e) ==> (e matches ScanError::MissingBotId { index } && cell_violates(
            cells@,
            ids@,
            index as int,
        ) && forall|j: int| 0 <= j < index ==> !cell_violates(cells@, ids@, j)),
{
    let mut enemies = EnemyPositions::new();
    let mut borders = Borders::new();
    for i in 0..CELLS
        invariant
            cells@.len() == CELLS,
            ids@.len() == CELLS,
            enemies@ == enemies_upto(cells@, ids@, heading, i as int),
            enemies.wf(),
            borders@ == borders_upto(cells@, heading, i as int),
            borders.wf(),
            forall|j: int| 0 <= j < i ==> !cell_violates(cells@, ids@, j),
    {
        if i != CENTER {
            let c = cells[i];
            if c == ENEMY_MARK {
                match ids[i] {
                    Some(id) => {
                        let pos = Coordinate::from_index(i).rotate(heading);
                        proof {
                            assert(pos == stable_coord(i as int, heading));
                        }
                        enemies.push(EnemyPosition { id, position: pos });
                    },
                    None => {
                        proof {
                            assert(cell_violates(cells@, ids@, i as int));
                        }
                        return Err(ScanError::MissingBotId { index: i });
                    },
                }
            } else if c == VOID_MARK {
                let pos = Coordinate::from_index(i).rotate(heading);
                proof {
                    assert(pos == stable_coord(i as int, heading));
                }
                borders.push(pos);
            }
        }
    }
    Ok((enemies, borders))
}

} // verus!
