//! Egocentric coordinate and orientation algebra.
//!
//! A `Coordinate` is an offset inside the `N x N` radar window; the window
//! spans `[-HALF, HALF]` on both axes. Out-of-window coordinates are
//! representable, but indexing into window-sized storage rejects them with
//! `None`: callers treat such a cell as unknown, never as an error.
//!
//! The stable frame is north-aligned: north is `(0, 1)`, east is `(1, 0)`.
//! A scan taken while heading `o` is re-expressed in the stable frame by
//! rotating each scan-local offset by `o` (`Coordinate::rotate`), so all
//! stored spatial data is frame-independent.

use vstd::prelude::*;
use crate::{N, HALF, CELLS};

verus! {

/// Absolute heading: one of the four cardinal directions.
#[derive(Clone, Copy, PartialEq, Eq, Structural, Debug)]
pub enum Orientation {
    North,
    East,
    South,
    West,
}

/// Agent-relative one-tick action: step forward or backward, or turn in
/// place. Distinct from `Orientation`, which is an absolute heading.
#[derive(Clone, Copy, PartialEq, Eq, Structural, Debug)]
pub enum Direction {
    Front,
    Back,
    Left,
    Right,
}

/// Offset within the egocentric window.
#[derive(Clone, Copy, PartialEq, Eq, Structural, Debug)]
pub struct Coordinate {
    pub x: i8,
    pub y: i8,
}

/// Number of clockwise quarter turns that take north to this heading.
pub open spec fn turns(o: Orientation) -> nat {
    match o {
        Orientation::North => 0,
        Orientation::East => 1,
        Orientation::South => 2,
        Orientation::West => 3,
    }
}

/// The heading reached from north by `k` clockwise quarter turns.
pub open spec fn heading_of_turns(k: nat) -> Orientation {
    if k % 4 == 0 {
        Orientation::North
    } else if k % 4 == 1 {
        Orientation::East
    } else if k % 4 == 2 {
        Orientation::South
    } else {
        Orientation::West
    }
}

/// One clockwise quarter turn of a point around the origin:
/// north `(0, 1)` goes to east `(1, 0)`.
pub open spec fn quarter(p: (int, int)) -> (int, int) {
    (p.1, -p.0)
}

/// `k` successive clockwise quarter turns.
pub open spec fn quarters(p: (int, int), k: nat) -> (int, int)
    decreases k,
{
    if k == 0 {
        p
    } else {
        quarter(quarters(p, (k - 1) as nat))
    }
}

/// A scan-local point re-expressed in the stable frame when the scan was
/// taken while heading `o`.
pub open spec fn rotated(o: Orientation, p: (int, int)) -> (int, int) {
    quarters(p, turns(o))
}

/// Four successive quarter turns return any point to itself, from any
/// starting orientation.
pub proof fn lemma_four_quarter_turns(o: Orientation, p: (int, int))
    ensures
        quarter(quarter(quarter(quarter(rotated(o, p))))) == rotated(o, p),
{
}

/// The headings form a commutative group under quarter-turn rotation:
/// composition commutes, north is the identity, and every heading has an
/// inverse.
pub proof fn lemma_orientation_group(a: Orientation, b: Orientation)
    ensures
        a.spec_compose(b) == b.spec_compose(a),
        a.spec_compose(Orientation::North) == a,
        a.spec_compose(a.spec_inverse()) == Orientation::North,
{
}

/// Unit step (stable frame) of a heading, x component.
pub open spec fn step_x(o: Orientation) -> int {
    match o {
        Orientation::North => 0,
        Orientation::East => 1,
        Orientation::South => 0,
        Orientation::West => -1,
    }
}

/// Unit step (stable frame) of a heading, y component.
pub open spec fn step_y(o: Orientation) -> int {
    match o {
        Orientation::North => 1,
        Orientation::East => 0,
        Orientation::South => -1,
        Orientation::West => 0,
    }
}

impl Orientation {
    /// The heading after one clockwise quarter turn.
    pub open spec fn spec_turned_right(self) -> Orientation {
        heading_of_turns(turns(self) + 1)
    }

    /// The heading after one counterclockwise quarter turn.
    pub open spec fn spec_turned_left(self) -> Orientation {
        heading_of_turns(turns(self) + 3)
    }

    /// The orientation delta from `other` to `self`: the number of quarter
    /// turns that takes a frame heading `other` to one heading `self`.
    pub open spec fn spec_relative_to(self, other: Orientation) -> Orientation {
        heading_of_turns((turns(self) + 4 - turns(other)) as nat)
    }

    pub fn turned_right(self) -> (r: Orientation)
        ensures
            r == self.spec_turned_right(),
    {
        match self {
            Orientation::North => Orientation::East,
            Orientation::East => Orientation::South,
            Orientation::South => Orientation::West,
            Orientation::West => Orientation::North,
        }
    }

    pub fn turned_left(self) -> (r: Orientation)
        ensures
            r == self.spec_turned_left(),
    {
        match self {
            Orientation::North => Orientation::West,
            Orientation::East => Orientation::North,
            Orientation::South => Orientation::East,
            Orientation::West => Orientation::South,
        }
    }

    /// The heading reached by turning by `self` and then by `other`.
    pub open spec fn spec_compose(self, other: Orientation) -> Orientation {
        heading_of_turns(turns(self) + turns(other))
    }

    /// The heading that undoes this one.
    pub open spec fn spec_inverse(self) -> Orientation {
        heading_of_turns((4 - turns(self)) as nat)
    }

    pub fn compose(self, other: Orientation) -> (r: Orientation)
        ensures
            r == self.spec_compose(other),
    {
        match other {
            Orientation::North => self,
            Orientation::East => self.turned_right(),
            Orientation::South => self.turned_right().turned_right(),
            Orientation::West => self.turned_left(),
        }
    }

    pub fn inverse(self) -> (r: Orientation)
        ensures
            r == self.spec_inverse(),
    {
        match self {
            Orientation::North => Orientation::North,
            Orientation::East => Orientation::West,
            Orientation::South => Orientation::South,
            Orientation::West => Orientation::East,
        }
    }

    /// Rotate relative to: the quarter-turn delta between two frames.
    pub fn relative_to(self, other: Orientation) -> (r: Orientation)
        ensures
            r == self.spec_relative_to(other),
    {
        match other {
            Orientation::North => self,
            Orientation::East => self.turned_left(),
            Orientation::South => self.turned_left().turned_left(),
            Orientation::West => self.turned_right(),
        }
    }

    /// Unit step of this heading in the stable frame.
    pub fn step(self) -> (r: Coordinate)
        ensures
            r.x as int == step_x(self),
            r.y as int == step_y(self),
    {
        match self {
            Orientation::North => Coordinate { x: 0, y: 1 },
            Orientation::East => Coordinate { x: 1, y: 0 },
            Orientation::South => Coordinate { x: 0, y: -1 },
            Orientation::West => Coordinate { x: -1, y: 0 },
        }
    }
}

/// Row-major position of an in-window coordinate.
pub open spec fn index_spec(c: Coordinate) -> int {
    (c.y + HALF) * (N as int) + (c.x + HALF)
}

/// The coordinate stored at row-major position `i`.
pub open spec fn coord_at(i: int) -> Coordinate {
    Coordinate { x: (i % (N as int) - HALF) as i8, y: (i / (N as int) - HALF) as i8 }
}

impl Coordinate {
    /// Whether the offset lies inside the visible window.
    pub open spec fn in_window(self) -> bool {
        -HALF <= self.x <= HALF && -HALF <= self.y <= HALF
    }

    /// Row-major index into window-sized storage; `None` exactly for
    /// out-of-window offsets, which callers treat as unknown.
    pub fn to_index(&self) -> (r: Option<usize>)
        ensures
            r is Some <==> self.in_window(),
            self.in_window() ==> r == Some(index_spec(*self) as usize) && index_spec(*self)
                < CELLS,
    {
        if -HALF <= self.x && self.x <= HALF && -HALF <= self.y && self.y <= HALF {
            Some(((self.y + HALF) as usize) * N + ((self.x + HALF) as usize))
        } else {
            None
        }
    }

    /// Inverse of `to_index` on valid indices.
    pub fn from_index(i: usize) -> (r: Coordinate)
        requires
            i < CELLS,
        ensures
            r == coord_at(i as int),
            r.in_window(),
    {
        proof {
            assert(i as int / (N as int) < N as int) by (nonlinear_arith)
                requires i < 49, N == 7usize;
        }
        Coordinate { x: (i % N) as i8 - HALF, y: (i / N) as i8 - HALF }
    }

    /// Translation by another offset.
    pub fn translate(&self, d: Coordinate) -> (r: Coordinate)
        requires
            i8::MIN <= self.x + d.x <= i8::MAX,
            i8::MIN <= self.y + d.y <= i8::MAX,
        ensures
            r.x as int == self.x + d.x,
            r.y as int == self.y + d.y,
    {
        Coordinate { x: self.x + d.x, y: self.y + d.y }
    }

    /// Re-express a scan-local offset, taken while heading `o`, in the
    /// stable north-aligned frame. Exact integer arithmetic, four discrete
    /// cases. Rotation permutes the two axes up to sign, so it preserves
    /// membership in the square window.
    pub fn rotate(&self, o: Orientation) -> (r: Coordinate)
        requires
            self.x > i8::MIN,
            self.y > i8::MIN,
        ensures
            (r.x as int, r.y as int) == rotated(o, (self.x as int, self.y as int)),
            self.in_window() ==> r.in_window(),
    {
        proof {
            reveal_with_fuel(quarters, 5);
        }
        match o {
            Orientation::North => Coordinate { x: self.x, y: self.y },
            Orientation::East => Coordinate { x: self.y, y: -self.x },
            Orientation::South => Coordinate { x: -self.x, y: -self.y },
            Orientation::West => Coordinate { x: -self.y, y: self.x },
        }
    }
}

/// Ego pose within the current radar window's frame: reset to the window
/// origin whenever a new scan is ingested (a scan redefines the window's
/// center as "now"), accumulating an offset for every move in between.
#[derive(Clone, Copy, PartialEq, Eq, Structural, Debug)]
pub struct RobotPosition {
    pub position: Coordinate,
    pub orientation: Orientation,
}

/// The cell a step from `p` lands on: ahead of the heading for `forward`,
/// behind it otherwise.
pub open spec fn step_dest(p: RobotPosition, forward: bool) -> Coordinate {
    if forward {
        Coordinate {
            x: (p.position.x + step_x(p.orientation)) as i8,
            y: (p.position.y + step_y(p.orientation)) as i8,
        }
    } else {
        Coordinate {
            x: (p.position.x - step_x(p.orientation)) as i8,
            y: (p.position.y - step_y(p.orientation)) as i8,
        }
    }
}

/// The pose after one action: a step moves the position along the heading,
/// a turn changes the heading only.
pub open spec fn pose_after(p: RobotPosition, d: Direction) -> RobotPosition {
    match d {
        Direction::Front => RobotPosition { position: step_dest(p, true), ..p },
        Direction::Back => RobotPosition { position: step_dest(p, false), ..p },
        Direction::Left => RobotPosition {
            orientation: p.orientation.spec_turned_left(),
            ..p
        },
        Direction::Right => RobotPosition {
            orientation: p.orientation.spec_turned_right(),
            ..p
        },
    }
}

impl RobotPosition {
    /// Apply one action to the pose.
    pub fn apply(&mut self, d: Direction)
        requires
            old(self).position.in_window(),
        ensures
            *final(self) == pose_after(*old(self), d),
    {
        match d {
            Direction::Front => {
                let s = self.orientation.step();
                self.position = Coordinate { x: self.position.x + s.x, y: self.position.y + s.y };
            },
            Direction::Back => {
                let s = self.orientation.step();
                self.position = Coordinate { x: self.position.x - s.x, y: self.position.y - s.y };
            },
            Direction::Left => {
                self.orientation = self.orientation.turned_left();
            },
            Direction::Right => {
                self.orientation = self.orientation.turned_right();
            },
        }
    }
}

/// `to_index` and `from_index` invert each other.
pub proof fn lemma_index_of_coord(c: Coordinate)
    requires
        c.in_window(),
    ensures
        0 <= index_spec(c) < CELLS,
        coord_at(index_spec(c)) == c,
{
    let ix = c.x + HALF;
    let iy = c.y + HALF;
    assert((iy * 7 + ix) % 7 == ix && (iy * 7 + ix) / 7 == iy) by (nonlinear_arith)
        requires 0 <= ix < 7, 0 <= iy < 7;
}

} // verus!
