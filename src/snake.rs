//! The snake: its ordered body, a per-cell membership count for fast
//! self-collision tests, and the occupancy grid of its buffer zone, kept in
//! lockstep by `grow` and `shrink`.

use crate::cell::{board_fits, in_board, within, Cell};
use crate::grid::{
    contribution, coverage, lemma_coverage_additive, lemma_coverage_bound,
    lemma_coverage_positive, lemma_coverage_single, near, OccupancyGrid,
};
use std::collections::VecDeque;
use vstd::prelude::*;

verus! {

/// The snake's body, tail first and head last.
pub struct Snake {
    body: VecDeque<Cell>,
    members: OccupancyGrid,
    zone: OccupancyGrid,
}

impl View for Snake {
    type V = Seq<Cell>;

    closed spec fn view(&self) -> Seq<Cell> {
        self.body@
    }
}

impl Snake {
    pub closed spec fn width(self) -> int {
        self.zone.width()
    }

    pub closed spec fn height(self) -> int {
        self.zone.height()
    }

    /// Radius of the buffer zone that each segment marks.
    pub closed spec fn radius(self) -> int {
        self.zone.radius()
    }

    /// The occupancy grid's count of a board cell.
    pub closed spec fn zone_count(self, c: Cell) -> nat {
        self.zone.count(c)
    }

    /// A non-empty body on the board, whose membership counts and buffer
    /// zone counts are those that its segments give.
    pub closed spec fn wf(self) -> bool {
        &&& self.members.wf()
        &&& self.zone.wf()
        &&& self.members.width() == self.zone.width()
        &&& self.members.height() == self.zone.height()
        &&& self.members.radius() == 0
        &&& self.body@.len() >= 1
        &&& forall|i: int|
            0 <= i < self.body@.len() ==> in_board(
                #[trigger] self.body@[i],
                self.zone.width(),
                self.zone.height(),
            )
        &&& forall|c: Cell|
            #![trigger self.members.count(c)]
            in_board(c, self.zone.width(), self.zone.height()) ==> self.members.count(c)
                == coverage(self.body@, c, 0)
        &&& forall|c: Cell|
            #![trigger self.zone.count(c)]
            in_board(c, self.zone.width(), self.zone.height()) ==> self.zone.count(c) == coverage(
                self.body@,
                c,
                self.zone.radius(),
            )
    }

    /// The buffer zone's counts are the sum of the contributions of the
    /// segments, whatever sequence of moves led to this body.
    pub proof fn lemma_zone_is_coverage(self, c: Cell)
        requires
            self.wf(),
            in_board(c, self.width(), self.height()),
        ensures
            self.zone_count(c) == coverage(self@, c, self.radius()),
    {
    }

    /// A well-formed snake has a segment, and all of them on the board.
    pub proof fn lemma_on_board(self)
        requires
            self.wf(),
        ensures
            self@.len() >= 1,
            forall|i: int|
                0 <= i < self@.len() ==> in_board(#[trigger] self@[i], self.width(), self.height()),
    {
    }

    /// The counts follow from the body alone: two snakes on the same board
    /// with the same radius and the same body have the same counts, however
    /// their grow and shrink calls went.
    pub proof fn lemma_zone_follows_body(a: Self, b: Self, c: Cell)
        requires
            a.wf(),
            b.wf(),
            a.width() == b.width(),
            a.height() == b.height(),
            a.radius() == b.radius(),
            a@ == b@,
            in_board(c, a.width(), a.height()),
        ensures
            a.zone_count(c) == b.zone_count(c),
    {
    }

    /// A snake of one segment at `start`.
    pub fn new(start: Cell, width: i32, height: i32, radius: i32) -> (s: Self)
        requires
            board_fits(width as int, height as int),
            in_board(start, width as int, height as int),
            radius >= 0,
        ensures
            s.wf(),
            s@ == seq![start],
            s.width() == width,
            s.height() == height,
            s.radius() == radius,
    {
        let mut members = OccupancyGrid::new(width, height, 0);
        let mut zone = OccupancyGrid::new(width, height, radius);
        members.mark(start);
        zone.mark(start);
        let mut body: VecDeque<Cell> = VecDeque::new();
        body.push_back(start);
        let s = Snake { body, members, zone };
        assert(s.body@ =~= seq![start]);
        assert forall|c: Cell| in_board(c, width as int, height as int) implies #[trigger] s.members.count(c)
            == coverage(s.body@, c, 0) by {
            lemma_coverage_single(start, c, 0);
        }
        assert forall|c: Cell| in_board(c, width as int, height as int) implies #[trigger] s.zone.count(c)
            == coverage(s.body@, c, radius as int) by {
            lemma_coverage_single(start, c, radius as int);
        }
        s
    }

    /// Number of segments.
    pub fn len(&self) -> (n: usize)
        ensures
            n == self@.len(),
    {
        self.body.len()
    }

    /// The most recently added segment.
    pub fn head(&self) -> (c: Cell)
        requires
            self.wf(),
        ensures
            c == self@.last(),
            in_board(c, self.width(), self.height()),
    {
        self.body[self.body.len() - 1]
    }

    /// The oldest segment, which the next `shrink` removes.
    pub fn tail(&self) -> (c: Cell)
        requires
            self.wf(),
        ensures
            c == self@[0],
    {
        self.body[0]
    }

    /// The segments, tail first.
    pub fn cells(&self) -> (v: Vec<Cell>)
        ensures
            v@ == self@,
    {
        let mut v: Vec<Cell> = Vec::new();
        let mut i: usize = 0;
        while i < self.body.len()
            invariant
                i <= self.body@.len(),
                v@ == self.body@.subrange(0, i as int),
            decreases self.body@.len() - i,
        {
            v.push(self.body[i]);
            i = i + 1;
            assert(v@ =~= self.body@.subrange(0, i as int));
        }
        assert(v@ =~= self.body@);
        v
    }

    /// Whether some segment stands on `c`.
    pub fn contains(&self, c: Cell) -> (r: bool)
        requires
            self.wf(),
            in_board(c, self.width(), self.height()),
        ensures
            r == self@.contains(c),
    {
        proof {
            lemma_coverage_positive(self.body@, c, 0);
            if near(self.body@, c, 0) {
                let i = choose|i: int| 0 <= i < self.body@.len() && within(c, self.body@[i], 0);
                assert(self.body@[i] == c);
            }
            if self.body@.contains(c) {
                let i = choose|i: int| 0 <= i < self.body@.len() && self.body@[i] == c;
                assert(within(c, self.body@[i], 0));
            }
        }
        self.members.is_forbidden(c)
    }

    /// Whether `c` lies in the buffer zone of some segment.
    pub fn is_off_limits(&self, c: Cell) -> (r: bool)
        requires
            self.wf(),
            in_board(c, self.width(), self.height()),
        ensures
            r == near(self@, c, self.radius()),
    {
        proof {
            lemma_coverage_positive(self.body@, c, self.zone.radius());
        }
        self.zone.is_forbidden(c)
    }

    /// Adds `pos` as the new head. Refused, with nothing changed, where `pos`
    /// is already a segment other than the tail (the one cell that a move may
    /// enter, since the tail leaves it).
    pub fn grow(&mut self, pos: Cell) -> (ok: bool)
        requires
            old(self).wf(),
            in_board(pos, old(self).width(), old(self).height()),
        ensures
            ok == !(old(self)@.contains(pos) && pos != old(self)@[0]),
            ok ==> final(self)@ == old(self)@.push(pos),
            !ok ==> final(self)@ == old(self)@,
            final(self).wf(),
            final(self).width() == old(self).width(),
            final(self).height() == old(self).height(),
            final(self).radius() == old(self).radius(),
    {
        if self.contains(pos) && self.body[0] != pos {
            return false;
        }
        let ghost old_body = self.body@;
        self.body.push_back(pos);
        let n = self.body.len();
        assert(self.body@.drop_last() =~= old_body);
        proof {
            assert forall|c: Cell| #![trigger self.zone.count(c)] in_board(c, self.zone.width(), self.zone.height())
                && within(c, pos, self.zone.radius()) implies self.zone.count(c) < usize::MAX by {
                lemma_coverage_bound(old_body, c, self.zone.radius());
            }
            assert forall|c: Cell| #![trigger self.members.count(c)] in_board(c, self.members.width(), self.members.height())
                && within(c, pos, self.members.radius()) implies self.members.count(c) < usize::MAX by {
                lemma_coverage_bound(old_body, c, 0);
            }
        }
        self.zone.mark(pos);
        self.members.mark(pos);
        true
    }

    /// Removes the tail segment and its marks.
    pub fn shrink(&mut self)
        requires
            old(self).wf(),
            old(self)@.len() >= 2,
        ensures
            final(self)@ == old(self)@.subrange(1, old(self)@.len() as int),
            final(self).wf(),
            final(self).width() == old(self).width(),
            final(self).height() == old(self).height(),
            final(self).radius() == old(self).radius(),
    {
        let ghost old_body = self.body@;
        let ghost rest = old_body.subrange(1, old_body.len() as int);
        let elem = self.body.pop_front().unwrap();
        let ghost r = self.zone.radius();
        proof {
            assert(old_body =~= seq![elem] + rest);
            assert forall|c: Cell| #![trigger self.zone.count(c)] in_board(c, self.zone.width(), self.zone.height())
                implies self.zone.count(c) == contribution(elem, c, r) + coverage(rest, c, r) by {
                lemma_coverage_additive(seq![elem], rest, c, r);
                lemma_coverage_single(elem, c, r);
            }
            assert forall|c: Cell| #![trigger self.members.count(c)] in_board(c, self.zone.width(), self.zone.height())
                implies self.members.count(c) == contribution(elem, c, 0) + coverage(rest, c, 0) by {
                lemma_coverage_additive(seq![elem], rest, c, 0);
                lemma_coverage_single(elem, c, 0);
            }
        }
        self.zone.unmark(elem);
        self.members.unmark(elem);
        proof {
            assert forall|i: int| 0 <= i < self.body@.len() implies in_board(
                #[trigger] self.body@[i],
                self.zone.width(),
                self.zone.height(),
            ) by {
                assert(self.body@[i] == old_body[i + 1]);
            }
            assert(self.body@ =~= rest);
        }
    }
}

} // verus!
