//! The occupancy grid: for every cell of the board, how many snake segments
//! hold it inside their buffer zone.

use crate::cell::{
    board_fits, in_board, index, index_of, lemma_cell_at, lemma_index_injective, lemma_index_of,
    within, Cell,
};
use vstd::prelude::*;

verus! {

/// What one segment at `segment` adds to the count of `c`: one where `c` lies
/// in its zone of radius `r`, else nothing.
pub open spec fn contribution(segment: Cell, c: Cell, r: int) -> nat {
    if within(c, segment, r) {
        1
    } else {
        0
    }
}

/// The count that `body` gives to `c`: one contribution per segment.
pub open spec fn coverage(body: Seq<Cell>, c: Cell, r: int) -> nat
    decreases body.len(),
{
    if body.len() == 0 {
        0
    } else {
        coverage(body.drop_last(), c, r) + contribution(body.last(), c, r)
    }
}

/// Counts add up: the count of two runs of segments is the sum of their
/// counts, so every count is the sum of independent one-segment parts.
pub proof fn lemma_coverage_additive(a: Seq<Cell>, b: Seq<Cell>, c: Cell, r: int)
    ensures
        coverage(a + b, c, r) == coverage(a, c, r) + coverage(b, c, r),
    decreases b.len(),
{
    if b.len() == 0 {
        assert(a + b =~= a);
    } else {
        assert((a + b).drop_last() =~= a + b.drop_last());
        lemma_coverage_additive(a, b.drop_last(), c, r);
    }
}

/// The count of a single segment is its contribution.
pub proof fn lemma_coverage_single(s: Cell, c: Cell, r: int)
    ensures
        coverage(seq![s], c, r) == contribution(s, c, r),
{
    assert(seq![s].drop_last() =~= Seq::<Cell>::empty());
    assert(coverage(Seq::<Cell>::empty(), c, r) == 0);
}

/// No cell counts more segments than there are.
pub proof fn lemma_coverage_bound(body: Seq<Cell>, c: Cell, r: int)
    ensures
        coverage(body, c, r) <= body.len(),
    decreases body.len(),
{
    if body.len() > 0 {
        lemma_coverage_bound(body.drop_last(), c, r);
    }
}

/// Whether some segment of `body` has `c` in its zone of radius `r`.
pub open spec fn near(body: Seq<Cell>, c: Cell, r: int) -> bool {
    exists|i: int| 0 <= i < body.len() && within(c, body[i], r)
}

/// A count is positive exactly where some segment's zone reaches.
pub proof fn lemma_coverage_positive(body: Seq<Cell>, c: Cell, r: int)
    ensures
        coverage(body, c, r) > 0 <==> near(body, c, r),
    decreases body.len(),
{
    if body.len() > 0 {
        let rest = body.drop_last();
        lemma_coverage_positive(rest, c, r);
        if coverage(rest, c, r) > 0 {
            let i = choose|i: int| 0 <= i < rest.len() && within(c, rest[i], r);
            assert(body[i] == rest[i]);
        }
        if exists|i: int| 0 <= i < body.len() && within(c, body[i], r) {
            let i = choose|i: int| 0 <= i < body.len() && within(c, body[i], r);
            if i < rest.len() {
                assert(rest[i] == body[i]);
            }
        }
    }
}

/// Reference counts of the cells that lie in some segment's buffer zone.
///
/// Each segment marks every board cell within Chebyshev distance `radius` of
/// itself; a cell is forbidden while its count is positive.
pub struct OccupancyGrid {
    width: i32,
    height: i32,
    radius: i32,
    counts: Vec<usize>,
}

impl OccupancyGrid {
    pub closed spec fn width(self) -> int {
        self.width as int
    }

    pub closed spec fn height(self) -> int {
        self.height as int
    }

    pub closed spec fn radius(self) -> int {
        self.radius as int
    }

    /// The count of a board cell.
    pub closed spec fn count(self, c: Cell) -> nat {
        self.counts@[index_of(c, self.width as int)] as nat
    }

    pub closed spec fn wf(self) -> bool {
        &&& board_fits(self.width as int, self.height as int)
        &&& self.radius >= 0
        &&& self.counts@.len() == self.width * self.height
    }

    /// The same board and radius, and counts that differ from those of `old`
    /// by `delta` times the contribution of a segment at `centre`.
    pub open spec fn shifted_from(self, old: Self, centre: Cell, delta: int) -> bool {
        &&& self.wf()
        &&& self.width() == old.width()
        &&& self.height() == old.height()
        &&& self.radius() == old.radius()
        &&& forall|c: Cell|
            #![trigger self.count(c)]
            in_board(c, self.width(), self.height()) ==> self.count(c) == old.count(c) + delta
                * contribution(centre, c, self.radius())
    }

    /// `unmark` undoes `mark`: marking and then unmarking the same centre
    /// gives back every count.
    pub proof fn lemma_unmark_undoes_mark(g0: Self, g1: Self, g2: Self, centre: Cell)
        requires
            g1.shifted_from(g0, centre, 1),
            g2.shifted_from(g1, centre, -1),
        ensures
            g2.width() == g0.width() && g2.height() == g0.height() && g2.radius() == g0.radius(),
            forall|c: Cell|
                #![trigger g2.count(c)]
                in_board(c, g0.width(), g0.height()) ==> g2.count(c) == g0.count(c),
    {
        assert forall|c: Cell| #![trigger g2.count(c)] in_board(c, g0.width(), g0.height()) implies g2.count(c)
            == g0.count(c) by {
            assert(g1.count(c) == g0.count(c) + contribution(centre, c, g0.radius()));
        }
    }

    /// An empty grid for a board of `width` by `height` with buffer `radius`.
    pub fn new(width: i32, height: i32, radius: i32) -> (g: Self)
        requires
            board_fits(width as int, height as int),
            radius >= 0,
        ensures
            g.wf(),
            g.width() == width,
            g.height() == height,
            g.radius() == radius,
            forall|c: Cell| #[trigger] in_board(c, width as int, height as int) ==> g.count(c) == 0,
    {
        let n = (width as usize) * (height as usize);
        let mut counts: Vec<usize> = Vec::new();
        while counts.len() < n
            invariant
                counts.len() <= n,
                forall|i: int| 0 <= i < counts.len() ==> counts@[i] == 0,
            decreases n - counts.len(),
        {
            counts.push(0);
        }
        let g = OccupancyGrid { width, height, radius, counts };
        assert forall|c: Cell| #[trigger] in_board(c, width as int, height as int) implies g.count(
            c,
        ) == 0 by {
            lemma_index_of(c, width as int, height as int);
        }
        g
    }

    /// Whether `c` lies in some segment's buffer zone.
    pub fn is_forbidden(&self, c: Cell) -> (r: bool)
        requires
            self.wf(),
            in_board(c, self.width(), self.height()),
        ensures
            r == (self.count(c) > 0),
    {
        self.counts[index(c, self.width, self.height)] > 0
    }

    /// Adds one to every board cell within `radius` of `centre`.
    pub fn mark(&mut self, centre: Cell)
        requires
            old(self).wf(),
            old(self).can_shift(centre, true),
        ensures
            final(self).shifted_from(*old(self), centre, 1),
    {
        self.shift_zone(centre, true);
    }

    /// Takes one from every board cell within `radius` of `centre`: the exact
    /// inverse of `mark`.
    pub fn unmark(&mut self, centre: Cell)
        requires
            old(self).wf(),
            old(self).can_shift(centre, false),
        ensures
            final(self).shifted_from(*old(self), centre, -1),
    {
        self.shift_zone(centre, false);
    }

    /// Whether every board cell in the zone of `centre` can move by one in
    /// the given sense without leaving `usize`.
    pub open spec fn can_shift(self, centre: Cell, up: bool) -> bool {
        forall|c: Cell|
            #![trigger self.count(c)]
            in_board(c, self.width(), self.height()) && within(c, centre, self.radius()) ==> if up {
                self.count(c) < usize::MAX
            } else {
                self.count(c) >= 1
            }
    }

    /// The zone of `centre` has been shifted by `delta` on the rows above `y`
    /// and on row `y` left of column `x`.
    spec fn shifted_before(self, start: Self, centre: Cell, delta: int, y: int, x: int) -> bool {
        &&& self.wf()
        &&& self.width == start.width
        &&& self.height == start.height
        &&& self.radius == start.radius
        &&& forall|c: Cell|
            #![trigger self.count(c)]
            in_board(c, self.width(), self.height()) ==> self.count(c) == start.count(c) + (if within(
                c,
                centre,
                self.radius(),
            ) && (c.y < y || (c.y == y && c.x < x)) {
                delta
            } else {
                0
            })
    }

    fn shift_zone(&mut self, centre: Cell, up: bool)
        requires
            old(self).wf(),
            old(self).can_shift(centre, up),
        ensures
            final(self).shifted_from(*old(self), centre, if up { 1 } else { -1 }),
    {
        let ghost start = *self;
        let ghost delta: int = if up { 1 } else { -1 };
        let rad = self.radius as i64;
        let cx = centre.x as i64;
        let cy = centre.y as i64;
        let lo_x: i64 = if cx - rad > 0 { cx - rad } else { 0 };
        let hi_x: i64 = if cx + rad < self.width as i64 - 1 { cx + rad } else { self.width as i64 - 1 };
        let lo_y: i64 = if cy - rad > 0 { cy - rad } else { 0 };
        let hi_y: i64 = if cy + rad < self.height as i64 - 1 { cy + rad } else { self.height as i64 - 1 };
        let mut y = lo_y;
        while y <= hi_y
            invariant
                start.wf(),
                start.can_shift(centre, up),
                delta == (if up { 1int } else { -1int }),
                self.shifted_before(start, centre, delta, y as int, i32::MIN as int),
                rad == start.radius(),
                cx == centre.x,
                cy == centre.y,
                lo_x == (if cx - rad > 0 { cx - rad } else { 0 }),
                hi_x == (if cx + rad < start.width() - 1 { cx + rad } else { start.width() - 1 }),
                lo_y == (if cy - rad > 0 { cy - rad } else { 0 }),
                hi_y == (if cy + rad < start.height() - 1 { cy + rad } else { start.height() - 1 }),
                lo_y <= y,
                y <= hi_y + 1 || y == lo_y,
            decreases hi_y + 1 - y,
        {
            self.shift_row(Ghost(start), centre, up, Ghost(delta), y, lo_x, hi_x);
            y = y + 1;
        }
        assert forall|c: Cell| #![trigger self.count(c)] in_board(c, self.width(), self.height())
            implies self.count(c) == start.count(c) + delta * contribution(centre, c, self.radius()) by {
        }
    }

    fn shift_row(
        &mut self,
        Ghost(start): Ghost<Self>,
        centre: Cell,
        up: bool,
        Ghost(delta): Ghost<int>,
        y: i64,
        lo_x: i64,
        hi_x: i64,
    )
        requires
            start.wf(),
            start.can_shift(centre, up),
            delta == (if up { 1int } else { -1int }),
            old(self).shifted_before(start, centre, delta, y as int, i32::MIN as int),
            0 <= y < start.height(),
            lo_x == (if centre.x - start.radius() > 0 { centre.x - start.radius() } else { 0 }),
            hi_x == (if centre.x + start.radius() < start.width() - 1 {
                centre.x + start.radius()
            } else {
                start.width() - 1
            }),
            -start.radius() <= y - centre.y <= start.radius(),
        ensures
            final(self).shifted_before(start, centre, delta, y + 1, i32::MIN as int),
    {
        let ghost w = start.width();
        let ghost h = start.height();
        let ghost r = start.radius();
        let mut x = lo_x;
        while x <= hi_x
            invariant
                start.wf(),
                start.can_shift(centre, up),
                w == start.width(),
                h == start.height(),
                r == start.radius(),
                delta == (if up { 1int } else { -1int }),
                self.shifted_before(start, centre, delta, y as int, x as int),
                0 <= y < h,
                -r <= y - centre.y <= r,
                lo_x == (if centre.x - r > 0 { centre.x - r } else { 0 }),
                hi_x == (if centre.x + r < w - 1 { centre.x + r } else { w - 1 }),
                lo_x <= x,
                x <= hi_x + 1 || x == lo_x,
            decreases hi_x + 1 - x,
        {
            let c = Cell { x: x as i32, y: y as i32 };
            assert(in_board(c, w, h));
            assert(within(c, centre, r));
            let i = index(c, self.width, self.height);
            let ghost before = *self;
            assert(before.count(c) == start.count(c));
            if up {
                self.counts[i] = self.counts[i] + 1;
            } else {
                self.counts[i] = self.counts[i] - 1;
            }
            assert forall|d: Cell| #![trigger self.count(d)] in_board(d, w, h) implies self.count(d)
                == start.count(d) + (if within(d, centre, r) && (d.y < y || (d.y == y && d.x < x
                + 1)) {
                delta
            } else {
                0
            }) by {
                lemma_index_of(d, w, h);
                if d != c {
                    if index_of(d, w) == index_of(c, w) {
                        lemma_index_injective(d, c, w, h);
                    }
                    assert(self.count(d) == before.count(d));
                }
            }
            x = x + 1;
        }
    }
}

} // verus!
