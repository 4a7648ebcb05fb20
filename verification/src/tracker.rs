//! Short-term enemy tracking across scans.
//!
//! The tracker owns the current and the previous set of enemy sightings,
//! both expressed in the stable north-aligned frame. When a new scan
//! arrives, the old current set becomes the previous set and is re-origined:
//! the ego's net displacement since that set was captured is subtracted from
//! every position, so stale sightings become comparable with fresh ones in
//! the same frame. A sighting whose re-origined position leaves the window
//! is dropped (unknown, not an error).
//!
//! The one-step-ahead prediction extrapolates each enemy's velocity from
//! the two sets: `predicted = current + (current - previous)`. An id seen
//! only in the current set is treated as stationary (kept at its current
//! position), so every fresh sighting still contributes threat; a predicted
//! position outside the window is dropped.

use vstd::prelude::*;
use crate::HALF;
use crate::coord::Coordinate;

verus! {

/// One opponent's last known offset from the ego, tagged by the stable
/// sensor-assigned identifier.
#[derive(Clone, Copy, PartialEq, Eq, Structural, Debug)]
pub struct EnemyPosition {
    pub id: u64,
    pub position: Coordinate,
}

/// Every position of the sequence lies inside the window.
pub open spec fn all_in_window(s: Seq<EnemyPosition>) -> bool {
    forall|i: int| 0 <= i < s.len() ==> (#[trigger] s[i]).position.in_window()
}

/// Whether `e` shifted by `(-dx, -dy)` stays inside the window.
pub open spec fn shift_stays(e: EnemyPosition, dx: int, dy: int) -> bool {
    -HALF <= e.position.x - dx <= HALF && -HALF <= e.position.y - dy <= HALF
}

/// `e` shifted by `(-dx, -dy)`.
pub open spec fn shifted(e: EnemyPosition, dx: int, dy: int) -> EnemyPosition {
    EnemyPosition {
        id: e.id,
        position: Coordinate { x: (e.position.x - dx) as i8, y: (e.position.y - dy) as i8 },
    }
}

/// The re-origined sequence: every position shifted by `(-dx, -dy)`, in
/// the original order, sightings that leave the window dropped.
pub open spec fn re_origin_spec(s: Seq<EnemyPosition>, dx: int, dy: int) -> Seq<EnemyPosition>
    decreases s.len(),
{
    if s.len() == 0 {
        Seq::empty()
    } else if shift_stays(s.last(), dx, dy) {
        re_origin_spec(s.drop_last(), dx, dy) + seq![shifted(s.last(), dx, dy)]
    } else {
        re_origin_spec(s.drop_last(), dx, dy)
    }
}

/// The subsequence of `s` whose shift by `(-dx, -dy)` stays in the window.
pub open spec fn kept_spec(s: Seq<EnemyPosition>, dx: int, dy: int) -> Seq<EnemyPosition>
    decreases s.len(),
{
    if s.len() == 0 {
        Seq::empty()
    } else if shift_stays(s.last(), dx, dy) {
        kept_spec(s.drop_last(), dx, dy) + seq![s.last()]
    } else {
        kept_spec(s.drop_last(), dx, dy)
    }
}

/// The position of the first sighting carrying `id`, if any.
pub open spec fn find_spec(s: Seq<EnemyPosition>, id: u64) -> Option<Coordinate>
    decreases s.len(),
{
    if s.len() == 0 {
        Option::None
    } else if s[0].id == id {
        Option::Some(s[0].position)
    } else {
        find_spec(s.subrange(1, s.len() as int), id)
    }
}

/// One enemy's contribution to the prediction: extrapolated when its id
/// also occurs in `prev`, kept stationary when it is new, dropped when the
/// extrapolated position leaves the window.
pub open spec fn predict_one(e: EnemyPosition, prev: Seq<EnemyPosition>) -> Seq<EnemyPosition> {
    match find_spec(prev, e.id) {
        Option::None => seq![e],
        Option::Some(q) => {
            if -HALF <= 2 * e.position.x - q.x <= HALF && -HALF <= 2 * e.position.y - q.y
                <= HALF {
                seq![
                    EnemyPosition {
                        id: e.id,
                        position: Coordinate {
                            x: (2 * e.position.x - q.x) as i8,
                            y: (2 * e.position.y - q.y) as i8,
                        },
                    }
                ]
            } else {
                Seq::empty()
            }
        },
    }
}

/// The positions of a sighting sequence, in order.
pub open spec fn positions_of(s: Seq<EnemyPosition>) -> Seq<Coordinate> {
    s.map_values(|e: EnemyPosition| e.position)
}

/// The one-step-ahead prediction derived from the two sets, in the order
/// of the current set.
pub open spec fn predict_spec(cur: Seq<EnemyPosition>, prev: Seq<EnemyPosition>) -> Seq<
    EnemyPosition,
>
    decreases cur.len(),
{
    if cur.len() == 0 {
        Seq::empty()
    } else {
        predict_spec(cur.drop_last(), prev) + predict_one(cur.last(), prev)
    }
}

/// An insertion-ordered collection of enemy sightings, all inside the
/// window.
#[derive(Debug)]
pub struct EnemyPositions {
    items: Vec<EnemyPosition>,
}

impl View for EnemyPositions {
    type V = Seq<EnemyPosition>;

    closed spec fn view(&self) -> Seq<EnemyPosition> {
        self.items@
    }
}

impl EnemyPositions {
    /// All stored positions lie inside the window.
    pub open spec fn wf(self) -> bool {
        all_in_window(self@)
    }

    pub fn new() -> (r: EnemyPositions)
        ensures
            r@ == Seq::<EnemyPosition>::empty(),
            r.wf(),
    {
        EnemyPositions { items: Vec::new() }
    }

    pub fn len(&self) -> (r: usize)
        ensures
            r == self@.len(),
    {
        self.items.len()
    }

    pub fn get(&self, i: usize) -> (r: EnemyPosition)
        requires
            i < self@.len(),
        ensures
            r == self@[i as int],
    {
        self.items[i]
    }

    pub fn push(&mut self, e: EnemyPosition)
        requires
            e.position.in_window(),
        ensures
            final(self)@ == old(self)@.push(e),
            old(self).wf() ==> final(self).wf(),
    {
        self.items.push(e);
        proof {
            assert forall|i: int| 0 <= i < self@.len() && all_in_window(old(self)@) implies (
            #[trigger] self@[i]).position.in_window() by {
                if i < self@.len() - 1 {
                    assert(self@[i] == old(self)@[i]);
                }
            }
        }
    }

    /// The position of the first sighting carrying `id`, if any.
    pub fn find_by_id(&self, id: u64) -> (r: Option<Coordinate>)
        ensures
            r == find_spec(self@, id),
    {
        let n = self.items.len();
        for i in 0..n
            invariant
                n == self@.len(),
                forall|k: int| 0 <= k < i ==> (#[trigger] self@[k]).id != id,
        {
            if self.items[i].id == id {
                proof {
                    lemma_find_hit(self@, id, i as int);
                }
                return Some(self.items[i].position);
            }
        }
        proof {
            lemma_find_miss(self@, id);
        }
        None
    }

    /// Subtract the ego's net displacement `d` from every position,
    /// dropping any sighting that leaves the window.
    pub fn re_origin(&self, d: Coordinate) -> (r: EnemyPositions)
        ensures
            r@ == re_origin_spec(self@, d.x as int, d.y as int),
            r.wf(),
    {
        let ghost dx: int = d.x as int;
        let ghost dy: int = d.y as int;
        let n = self.items.len();
        let mut out: Vec<EnemyPosition> = Vec::new();
        for i in 0..n
            invariant
                n == self@.len(),
                dx == d.x as int,
                dy == d.y as int,
                out@ == re_origin_spec(self@.take(i as int), dx, dy),
                all_in_window(out@),
        {
            let e = self.items[i];
            let sx = e.position.x as i32 - d.x as i32;
            let sy = e.position.y as i32 - d.y as i32;
            proof {
                assert(self@.take(i + 1).drop_last() =~= self@.take(i as int));
            }
            if -(HALF as i32) <= sx && sx <= HALF as i32 && -(HALF as i32) <= sy && sy
                <= HALF as i32 {
                let moved = EnemyPosition {
                    id: e.id,
                    position: Coordinate { x: sx as i8, y: sy as i8 },
                };
                out.push(moved);
                proof {
                    assert(moved == shifted(e, dx, dy));
                }
            }
        }
        proof {
            assert(self@.take(n as int) =~= self@);
        }
        EnemyPositions { items: out }
    }

    /// The stored positions alone, in order.
    pub fn positions(&self) -> (r: Vec<Coordinate>)
        ensures
            r@ == positions_of(self@),
    {
        let n = self.items.len();
        let mut out: Vec<Coordinate> = Vec::new();
        for i in 0..n
            invariant
                n == self@.len(),
                out@ == self@.take(i as int).map_values(|e: EnemyPosition| e.position),
        {
            out.push(self.items[i].position);
            proof {
                assert(self@.take(i + 1).map_values(|e: EnemyPosition| e.position) =~= self@.take(
                    i as int,
                ).map_values(|e: EnemyPosition| e.position).push(self@[i as int].position));
            }
        }
        proof {
            assert(self@.take(n as int) =~= self@);
        }
        out
    }
}

/// `find_spec` returns the first match: a hit at `j` behind a miss-free
/// prefix pins the result.
pub proof fn lemma_find_hit(s: Seq<EnemyPosition>, id: u64, j: int)
    requires
        0 <= j < s.len(),
        forall|k: int| 0 <= k < j ==> (#[trigger] s[k]).id != id,
        s[j].id == id,
    ensures
        find_spec(s, id) == Option::Some(s[j].position),
    decreases j,
{
    if j > 0 {
        lemma_find_hit(s.subrange(1, s.len() as int), id, j - 1);
    }
}

/// `find_spec` misses exactly when no sighting carries the id.
pub proof fn lemma_find_miss(s: Seq<EnemyPosition>, id: u64)
    requires
        forall|k: int| 0 <= k < s.len() ==> (#[trigger] s[k]).id != id,
    ensures
        find_spec(s, id) == Option::None::<Coordinate>,
    decreases s.len(),
{
    if s.len() > 0 {
        lemma_find_miss(s.subrange(1, s.len() as int), id);
    }
}

/// Re-origin distributes over concatenation.
proof fn lemma_re_origin_append(a: Seq<EnemyPosition>, b: Seq<EnemyPosition>, dx: int, dy: int)
    ensures
        re_origin_spec(a + b, dx, dy) == re_origin_spec(a, dx, dy) + re_origin_spec(b, dx, dy),
    decreases b.len(),
{
    if b.len() == 0 {
        assert(a + b =~= a);
        assert(re_origin_spec(a, dx, dy) + re_origin_spec(b, dx, dy) =~= re_origin_spec(
            a,
            dx,
            dy,
        ));
    } else {
        lemma_re_origin_append(a, b.drop_last(), dx, dy);
        assert((a + b).drop_last() =~= a + b.drop_last());
        assert((a + b).last() == b.last());
        if shift_stays(b.last(), dx, dy) {
            assert(re_origin_spec(a, dx, dy) + re_origin_spec(b, dx, dy) =~= re_origin_spec(
                a,
                dx,
                dy,
            ) + re_origin_spec(b.drop_last(), dx, dy) + seq![shifted(b.last(), dx, dy)]);
        }
    }
}

/// Re-origining by `d` and then by `-d` reproduces the original set, up to
/// window-bound dropout: exactly the sightings whose first shift stays in
/// the window survive, unchanged and in order.
pub proof fn lemma_re_origin_round_trip(s: Seq<EnemyPosition>, dx: int, dy: int)
    requires
        all_in_window(s),
    ensures
        re_origin_spec(re_origin_spec(s, dx, dy), -dx, -dy) == kept_spec(s, dx, dy),
    decreases s.len(),
{
    reveal_with_fuel(re_origin_spec, 3);
    if s.len() > 0 {
        let t = s.drop_last();
        let e = s.last();
        assert(all_in_window(t));
        lemma_re_origin_round_trip(t, dx, dy);
        if shift_stays(e, dx, dy) {
            let m = shifted(e, dx, dy);
            lemma_re_origin_append(re_origin_spec(t, dx, dy), seq![m], -dx, -dy);
            assert(seq![m].drop_last() =~= Seq::<EnemyPosition>::empty());
            assert(shift_stays(m, -dx, -dy));
            assert(shifted(m, -dx, -dy) == e);
            assert(re_origin_spec(seq![m], -dx, -dy) =~= seq![e]);
        } else {
            assert(re_origin_spec(s, dx, dy) == re_origin_spec(t, dx, dy));
        }
    }
}

/// Clean round trip: when no sighting drops out, re-origining by `d` and
/// then by `-d` is the identity.
pub proof fn lemma_re_origin_round_trip_total(s: Seq<EnemyPosition>, dx: int, dy: int)
    requires
        all_in_window(s),
        forall|i: int| 0 <= i < s.len() ==> shift_stays(#[trigger] s[i], dx, dy),
    ensures
        re_origin_spec(re_origin_spec(s, dx, dy), -dx, -dy) == s,
    decreases s.len(),
{
    lemma_re_origin_round_trip(s, dx, dy);
    lemma_kept_all(s, dx, dy);
}

/// `kept_spec` is the identity when every shift stays in the window.
proof fn lemma_kept_all(s: Seq<EnemyPosition>, dx: int, dy: int)
    requires
        forall|i: int| 0 <= i < s.len() ==> shift_stays(#[trigger] s[i], dx, dy),
    ensures
        kept_spec(s, dx, dy) == s,
    decreases s.len(),
{
    if s.len() > 0 {
        lemma_kept_all(s.drop_last(), dx, dy);
        assert(kept_spec(s, dx, dy) =~= s);
    }
}

/// Current and previous sighting sets, both in the stable frame.
pub struct EnemyTracker {
    current: EnemyPositions,
    previous: EnemyPositions,
}

impl EnemyTracker {
    pub open spec fn wf(self) -> bool {
        all_in_window(self.spec_current()) && all_in_window(self.spec_previous())
    }

    /// The sightings of the latest scan.
    pub closed spec fn spec_current(self) -> Seq<EnemyPosition> {
        self.current@
    }

    /// The re-origined sightings of the scan before it.
    pub closed spec fn spec_previous(self) -> Seq<EnemyPosition> {
        self.previous@
    }

    pub fn new() -> (r: EnemyTracker)
        ensures
            r.spec_current() == Seq::<EnemyPosition>::empty(),
            r.spec_previous() == Seq::<EnemyPosition>::empty(),
            r.wf(),
    {
        EnemyTracker { current: EnemyPositions::new(), previous: EnemyPositions::new() }
    }

    pub fn current_set(&self) -> (r: &EnemyPositions)
        ensures
            r@ == self.spec_current(),
    {
        &self.current
    }

    pub fn previous_set(&self) -> (r: &EnemyPositions)
        ensures
            r@ == self.spec_previous(),
    {
        &self.previous
    }

    /// Ingest a fresh scan's sightings. The old current set becomes the
    /// previous set, re-origined by the ego's net displacement `d` since
    /// it was captured; frame alignment happens before any delta is taken,
    /// so the later velocity estimate is meaningful.
    pub fn observe(&mut self, fresh: EnemyPositions, d: Coordinate)
        requires
            fresh.wf(),
        ensures
            final(self).spec_previous() == re_origin_spec(
                old(self).spec_current(),
                d.x as int,
                d.y as int,
            ),
            final(self).spec_current() == fresh@,
            final(self).wf(),
    {
        self.previous = self.current.re_origin(d);
        self.current = fresh;
    }

    /// The predicted next position of every currently seen enemy.
    pub fn predicted(&self) -> (r: EnemyPositions)
        requires
            self.wf(),
        ensures
            r@ == predict_spec(self.spec_current(), self.spec_previous()),
            r.wf(),
    {
        predict(&self.current, &self.previous)
    }
}

/// Derive the one-step-ahead prediction from a current and a previous
/// sighting set.
pub fn predict(current: &EnemyPositions, previous: &EnemyPositions) -> (r: EnemyPositions)
    requires
        current.wf(),
        previous.wf(),
    ensures
        r@ == predict_spec(current@, previous@),
        r.wf(),
{
    let n = current.len();
    let mut out = EnemyPositions::new();
    for i in 0..n
        invariant
            current.wf(),
            previous.wf(),
            n == current@.len(),
            out@ == predict_spec(current@.take(i as int), previous@),
            out.wf(),
    {
        let e = current.get(i);
        proof {
            assert(current@.take(i + 1).drop_last() =~= current@.take(i as int));
            assert(current@[i as int].position.in_window());
        }
        match previous.find_by_id(e.id) {
            None => {
                out.push(e);
            },
            Some(q) => {
                let px = 2 * (e.position.x as i32) - (q.x as i32);
                let py = 2 * (e.position.y as i32) - (q.y as i32);
                if -(HALF as i32) <= px && px <= HALF as i32 && -(HALF as i32) <= py && py
                    <= HALF as i32 {
                    out.push(
                        EnemyPosition {
                            id: e.id,
                            position: Coordinate { x: px as i8, y: py as i8 },
                        },
                    );
                }
            },
        }
    }
    proof {
        assert(current@.take(n as int) =~= current@);
    }
    out
}

/// The prediction never holds more sightings than the current set.
pub proof fn lemma_predict_len(cur: Seq<EnemyPosition>, prev: Seq<EnemyPosition>)
    ensures
        predict_spec(cur, prev).len() <= cur.len(),
    decreases cur.len(),
{
    if cur.len() > 0 {
        lemma_predict_len(cur.drop_last(), prev);
    }
}

} // verus!
