use crate::math::{wrap, Point};
use crate::rng::{scramble, signed_draw, Shift64};
use vstd::prelude::*;

verus! {

/// The number of rounds of a scatter; each proposes one point.
pub const ITERATIONS: i32 = 96;

/// The most candidates that one round draws.
pub const MAX_CHECKS: i32 = 32;

/// The square of the least spacing, 256. A distance taken to single
/// precision is at least 256 just where its square is at least this.
pub const MIN_SQUARED: u64 = 65536;

/// The square of the largest spacing, 448. A distance taken to single
/// precision is below, at or over 448 just where its square is so to this.
pub const MAX_SQUARED: u64 = 200704;

/// What a round proposes: the last candidate it drew, the square of the
/// distance from it to the nearest point, and the number of candidates drawn.
#[derive(Clone, Copy, Debug, PartialEq, Eq, Structural)]
pub struct Proposal {
    pub candidate: Point,
    pub gap: u64,
    pub tries: i32,
}

/// A scatter under way: the grid of points, the points accepted so far with
/// the root first, for each whether it was moved from where it was drawn, the
/// rounds begun, and the proposal that waits for its verdict.
pub struct Scatter {
    width: i32,
    height: i32,
    root: Point,
    list: Vec<Point>,
    moved: Vec<bool>,
    rounds: i32,
    pending: Option<Proposal>,
}

/// The quotient cut towards zero.
pub open spec fn toward_zero(x: int, d: int) -> int {
    if x >= 0 {
        x / d
    } else {
        -((-x) / d)
    }
}

/// The square of the distance between two points, their differences taken
/// in wrapping 32-bit arithmetic.
pub open spec fn squared_distance(a: Point, b: Point) -> nat {
    let dx = wrap(a.x - b.x) as int;
    let dy = wrap(a.y - b.y) as int;
    (dx * dx + dy * dy) as nat
}

/// The least squared distance from `target` to `start` and the points of
/// `list`.
pub open spec fn nearest_squared(target: Point, start: Point, list: Seq<Point>) -> nat
    decreases list.len(),
{
    if list.len() == 0 {
        squared_distance(start, target)
    } else {
        let rest = nearest_squared(target, start, list.drop_last());
        let last = squared_distance(list.last(), target);
        if last < rest {
            last
        } else {
            rest
        }
    }
}

/// A coordinate of the root: a draw below a quarter of the size, moved to
/// the middle of the size.
pub open spec fn root_coordinate(state: i64, size: i32) -> int {
    let quarter = toward_zero(size as int, 4);
    signed_draw(state, quarter as i32) - toward_zero(quarter, 2) + toward_zero(size as int, 2)
}

/// The candidate of the try with the given number, counted from one, and
/// the state of the generator after it: each try draws `x` below the width,
/// then `y` below the height.
pub open spec fn candidate_after(seed: i64, width: i32, height: i32, tries: nat) -> (Point, i64)
    decreases tries,
{
    if tries == 0 {
        (Point { x: 0, y: 0 }, seed)
    } else {
        let before = candidate_after(seed, width, height, (tries - 1) as nat).1;
        let first = scramble(before);
        let second = scramble(first);
        (Point { x: signed_draw(first, width), y: signed_draw(second, height) }, second)
    }
}

/// No distance to a point of the list is under the least.
pub proof fn lemma_nearest_is_least(target: Point, start: Point, list: Seq<Point>, i: int)
    requires
        0 <= i < list.len(),
    ensures
        nearest_squared(target, start, list) <= squared_distance(list[i], target),
        nearest_squared(target, start, list) <= squared_distance(start, target),
    decreases list.len(),
{
    if i < list.len() - 1 {
        lemma_nearest_is_least(target, start, list.drop_last(), i);
    } else if list.len() > 1 {
        lemma_nearest_is_least(target, start, list.drop_last(), 0);
    }
}

/// The square of the distance between two points.
pub fn distance_squared(a: &Point, b: &Point) -> (d: u64)
    ensures
        d == squared_distance(*a, *b),
{
    let dx: i64 = a.x.wrapping_sub(b.x) as i64;
    let dy: i64 = a.y.wrapping_sub(b.y) as i64;
    assert(0 <= dx * dx <= 0x4000_0000_0000_0000) by (nonlinear_arith)
        requires
            -0x8000_0000 <= dx <= 0x8000_0000,
    ;
    assert(0 <= dy * dy <= 0x4000_0000_0000_0000) by (nonlinear_arith)
        requires
            -0x8000_0000 <= dy <= 0x8000_0000,
    ;
    (dx * dx) as u64 + (dy * dy) as u64
}

/// The least squared distance from `target` to `start` and the points of
/// `list`.
pub fn find_nearest(target: &Point, start: &Point, list: &Vec<Point>) -> (gap: u64)
    ensures
        gap == nearest_squared(*target, *start, list@),
{
    let mut gap = distance_squared(start, target);
    let mut i: usize = 0;
    while i < list.len()
        invariant
            i <= list.len(),
            gap == nearest_squared(*target, *start, list@.take(i as int)),
        decreases list.len() - i,
    {
        proof {
            assert(list@.take(i + 1).drop_last() =~= list@.take(i as int));
            assert(list@.take(i + 1).last() == list@[i as int]);
        }
        let d = distance_squared(&list[i], target);
        if d < gap {
            gap = d;
        }
        i = i + 1;
    }
    proof {
        assert(list@.take(list.len() as int) =~= list@);
    }
    gap
}

fn root_part(rng: &mut Shift64, size: i32) -> (c: i32)
    ensures
        final(rng).seed == scramble(old(rng).seed),
        c == root_coordinate(final(rng).seed, size),
{
    let quarter = size / 4;
    let draw = rng.i32(quarter);
    (draw - (quarter / 2)) + (size / 2)
}

impl Proposal {
    /// Holds where the candidate is so far from every point that it is to be
    /// pulled in towards the nearest.
    pub open spec fn spec_is_far(&self) -> bool {
        self.gap > MAX_SQUARED
    }

    /// Holds where the candidate keeps the least spacing to every point.
    pub open spec fn spec_is_spaced(&self) -> bool {
        self.gap >= MIN_SQUARED
    }

    #[verifier::when_used_as_spec(spec_is_far)]
    pub fn is_far(&self) -> (b: bool)
        ensures
            b == self.spec_is_far(),
    {
        self.gap > MAX_SQUARED
    }

    #[verifier::when_used_as_spec(spec_is_spaced)]
    pub fn is_spaced(&self) -> (b: bool)
        ensures
            b == self.spec_is_spaced(),
    {
        self.gap >= MIN_SQUARED
    }
}

impl Scatter {
    /// The width of the grid of points.
    pub closed spec fn spec_width(&self) -> i32 {
        self.width
    }

    /// The height of the grid of points.
    pub closed spec fn spec_height(&self) -> i32 {
        self.height
    }

    /// The first point.
    pub closed spec fn spec_root(&self) -> Point {
        self.root
    }

    /// The points accepted so far, the root first.
    pub closed spec fn spec_points(&self) -> Seq<Point> {
        self.list@
    }

    /// For each point, whether it was moved from where it was drawn.
    pub closed spec fn spec_moved(&self) -> Seq<bool> {
        self.moved@
    }

    /// The number of rounds begun.
    pub closed spec fn spec_rounds(&self) -> i32 {
        self.rounds
    }

    /// The proposal that waits for its verdict.
    pub closed spec fn spec_pending(&self) -> Option<Proposal> {
        self.pending
    }

    /// Holds of every scatter: the root is the first point; at most one point
    /// came from each round begun, and at most 96 rounds were begun; the gap
    /// of the waiting proposal is the one to the points accepted; and every
    /// point that was accepted where it was drawn keeps the least spacing to
    /// all before it.
    pub closed spec fn wf(&self) -> bool {
        &&& self.list@.len() >= 1
        &&& self.list@[0] == self.root
        &&& self.moved@.len() == self.list@.len()
        &&& 0 <= self.rounds <= ITERATIONS
        &&& self.list@.len() <= self.rounds + 1
        &&& self.pending.is_some() ==> self.list@.len() <= self.rounds
        &&& self.pending.is_some() ==> self.pending.unwrap().gap == nearest_squared(
            self.pending.unwrap().candidate,
            self.root,
            self.list@,
        )
        &&& forall|i: int, j: int|
            0 <= i < j < self.list@.len() && !self.moved@[j] ==> squared_distance(
                #[trigger] self.list@[i],
                #[trigger] self.list@[j],
            ) >= MIN_SQUARED
    }

    #[verifier::when_used_as_spec(spec_width)]
    pub fn width(&self) -> (w: i32)
        ensures
            w == self.spec_width(),
    {
        self.width
    }

    #[verifier::when_used_as_spec(spec_height)]
    pub fn height(&self) -> (h: i32)
        ensures
            h == self.spec_height(),
    {
        self.height
    }

    #[verifier::when_used_as_spec(spec_root)]
    pub fn root(&self) -> (p: Point)
        ensures
            p == self.spec_root(),
    {
        self.root
    }

    /// The points accepted so far, the root first.
    pub fn points(&self) -> (list: &Vec<Point>)
        ensures
            list@ == self.spec_points(),
    {
        &self.list
    }

    /// For each point, whether it was moved from where it was drawn.
    pub fn moved(&self) -> (flags: &Vec<bool>)
        ensures
            flags@ == self.spec_moved(),
    {
        &self.moved
    }

    #[verifier::when_used_as_spec(spec_rounds)]
    pub fn rounds(&self) -> (n: i32)
        ensures
            n == self.spec_rounds(),
    {
        self.rounds
    }

    #[verifier::when_used_as_spec(spec_pending)]
    pub fn pending(&self) -> (p: Option<Proposal>)
        ensures
            p == self.spec_pending(),
    {
        self.pending
    }

    /// A scatter over a grid of the given size, with its root drawn near the
    /// middle: `x` first, then `y`.
    pub fn new(rng: &mut Shift64, width: i32, height: i32) -> (s: Scatter)
        ensures
            s.wf(),
            s.width() == width,
            s.height() == height,
            s.root().x == root_coordinate(scramble(old(rng).seed), width),
            s.root().y == root_coordinate(scramble(scramble(old(rng).seed)), height),
            final(rng).seed == scramble(scramble(old(rng).seed)),
            s.spec_points() == seq![s.root()],
            s.spec_moved() == seq![false],
            s.rounds() == 0,
            s.pending().is_none(),
    {
        let x = root_part(rng, width);
        let y = root_part(rng, height);
        let root = Point { x, y };
        let mut list = Vec::new();
        list.push(root);
        let mut moved = Vec::new();
        moved.push(false);
        proof {
            assert(list@ =~= seq![root]);
            assert(moved@ =~= seq![false]);
        }
        Scatter { width, height, root, list, moved, rounds: 0, pending: None }
    }

    /// Begins a round, unless 96 were begun: draws candidates until one is at
    /// least the largest spacing from every point, or 32 were drawn, and
    /// proposes the last. A proposal that still waited is dropped.
    pub fn propose(&mut self, rng: &mut Shift64) -> (p: Option<Proposal>)
        requires
            old(self).wf(),
        ensures
            final(self).wf(),
            final(self).width() == old(self).width(),
            final(self).height() == old(self).height(),
            final(self).root() == old(self).root(),
            final(self).spec_points() == old(self).spec_points(),
            final(self).spec_moved() == old(self).spec_moved(),
            final(self).pending() == p,
            p.is_none() <==> old(self).rounds() == ITERATIONS,
            p.is_none() ==> final(self).rounds() == old(self).rounds(),
            p.is_none() ==> final(rng).seed == old(rng).seed,
            p.is_some() ==> {
                let tries = p.unwrap().tries;
                let drawn = candidate_after(
                    old(rng).seed,
                    old(self).width(),
                    old(self).height(),
                    tries as nat,
                );
                &&& final(self).rounds() == old(self).rounds() + 1
                &&& 1 <= tries <= MAX_CHECKS
                &&& p.unwrap().candidate == drawn.0
                &&& final(rng).seed == drawn.1
                &&& p.unwrap().gap == nearest_squared(
                    drawn.0,
                    old(self).root(),
                    old(self).spec_points(),
                )
                &&& tries < MAX_CHECKS ==> p.unwrap().gap >= MAX_SQUARED
                &&& forall|t: nat|
                    1 <= t < tries ==> nearest_squared(
                        #[trigger] candidate_after(
                            old(rng).seed,
                            old(self).width(),
                            old(self).height(),
                            t,
                        ).0,
                        old(self).root(),
                        old(self).spec_points(),
                    ) < MAX_SQUARED
            },
    {
        if self.rounds >= ITERATIONS {
            self.pending = None;
            return None;
        }
        let mut tries: i32 = 0;
        let mut gap: u64 = 0;
        let mut candidate = Point { x: 0, y: 0 };
        while MAX_SQUARED > gap && MAX_CHECKS > tries
            invariant
                0 <= tries <= MAX_CHECKS,
                tries == 0 ==> gap == 0,
                candidate == candidate_after(
                    old(rng).seed,
                    self.width,
                    self.height,
                    tries as nat,
                ).0,
                rng.seed == candidate_after(old(rng).seed, self.width, self.height, tries as nat).1,
                tries > 0 ==> gap == nearest_squared(candidate, self.root, self.list@),
                forall|t: nat|
                    1 <= t < tries ==> nearest_squared(
                        #[trigger] candidate_after(old(rng).seed, self.width, self.height, t).0,
                        self.root,
                        self.list@,
                    ) < MAX_SQUARED,
            decreases MAX_CHECKS - tries,
        {
            tries = tries + 1;
            let x = rng.i32(self.width);
            let y = rng.i32(self.height);
            candidate = Point { x, y };
            gap = find_nearest(&candidate, &self.root, &self.list);
        }
        let p = Proposal { candidate, gap, tries };
        self.rounds = self.rounds + 1;
        self.pending = Some(p);
        Some(p)
    }

    /// Gives the verdict on the proposal that waits, if one does. The point
    /// of a far proposal is `pulled`, where the caller has moved the
    /// candidate; of another, the candidate. The point is accepted where it
    /// lies in the region, as `in_range` says, and the candidate kept the
    /// least spacing.
    pub fn settle(&mut self, pulled: Point, in_range: bool) -> (accepted: bool)
        requires
            old(self).wf(),
        ensures
            final(self).wf(),
            final(self).width() == old(self).width(),
            final(self).height() == old(self).height(),
            final(self).root() == old(self).root(),
            final(self).rounds() == old(self).rounds(),
            final(self).pending().is_none(),
            accepted == (old(self).pending().is_some() && in_range && old(self).pending().unwrap().is_spaced()),
            !accepted ==> final(self).spec_points() == old(self).spec_points(),
            !accepted ==> final(self).spec_moved() == old(self).spec_moved(),
            accepted ==> {
                let p = old(self).pending().unwrap();
                &&& final(self).spec_points() == old(self).spec_points().push(
                    if p.is_far() {
                        pulled
                    } else {
                        p.candidate
                    },
                )
                &&& final(self).spec_moved() == old(self).spec_moved().push(p.is_far())
            },
    {
        let waiting = self.pending;
        self.pending = None;
        match waiting {
            Some(p) => {
                if in_range && p.is_spaced() {
                    let far = p.is_far();
                    let point = if far {
                        pulled
                    } else {
                        p.candidate
                    };
                    proof {
                        let n = self.list@.len() as int;
                        assert forall|i: int| 0 <= i < n && !far implies squared_distance(
                            self.list@[i],
                            point,
                        ) >= MIN_SQUARED by {
                            lemma_nearest_is_least(point, self.root, self.list@, i);
                            lemma_distance_either_way(self.list@[i], point);
                        }
                    }
                    self.list.push(point);
                    self.moved.push(far);
                    true
                } else {
                    false
                }
            },
            None => false,
        }
    }

    /// What holds of the points of every scatter: the root comes first, no
    /// more than 97 points are accepted, and a point that was accepted where
    /// it was drawn is at least the least spacing from every point before it.
    pub proof fn lemma_spacing(&self, i: int, j: int)
        requires
            self.wf(),
            0 <= i < j < self.spec_points().len(),
            !self.spec_moved()[j],
        ensures
            squared_distance(self.spec_points()[i], self.spec_points()[j]) >= MIN_SQUARED,
            squared_distance(self.spec_points()[j], self.spec_points()[i]) >= MIN_SQUARED,
    {
        lemma_distance_either_way(self.spec_points()[i], self.spec_points()[j]);
    }

    /// The points of a scatter begin with its root, each has its flag, and
    /// there are at most as many as rounds begun and one more, of which a
    /// waiting proposal is not yet one.
    pub proof fn lemma_points(&self)
        requires
            self.wf(),
        ensures
            1 <= self.spec_points().len() <= self.rounds() + 1 <= ITERATIONS + 1,
            self.spec_points()[0] == self.root(),
            self.spec_moved().len() == self.spec_points().len(),
            self.pending().is_some() ==> self.spec_points().len() <= self.rounds(),
    {
    }
}

/// The squared distance between two points does not depend on their order.
pub proof fn lemma_distance_either_way(a: Point, b: Point)
    ensures
        squared_distance(a, b) == squared_distance(b, a),
{
    let dx = wrap(a.x - b.x) as int;
    let ex = wrap(b.x - a.x) as int;
    let dy = wrap(a.y - b.y) as int;
    let ey = wrap(b.y - a.y) as int;
    assert(ex == -dx || (ex == dx && dx == i32::MIN));
    assert(ey == -dy || (ey == dy && dy == i32::MIN));
    assert(ex * ex == dx * dx) by (nonlinear_arith)
        requires
            ex == -dx || ex == dx,
    ;
    assert(ey * ey == dy * dy) by (nonlinear_arith)
        requires
            ey == -dy || ey == dy,
    ;
}

} // verus!
