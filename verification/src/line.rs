use crate::math::{hex_distance, lemma_distance_zero, lemma_length_of_delta, Axial, Direction};
use vstd::prelude::*;

verus! {

/// The cell `steps` steps from `start` in direction `d`, in wrapping 32-bit
/// arithmetic.
pub open spec fn stepped(start: Axial, d: Direction, steps: nat) -> Axial
    decreases steps,
{
    if steps == 0 {
        start
    } else {
        stepped(start, d, (steps - 1) as nat).spec_neighbor(d)
    }
}

/// Holds where `k` is the number of steps to take from `start` in direction
/// `d` to leave the cells of `seen`: the cells before the `k`th are in
/// `seen`, and the `k`th is not.
pub open spec fn leaves_after(seen: Seq<Axial>, start: Axial, d: Direction, k: nat) -> bool {
    &&& forall|i: nat| i < k ==> seen.contains(#[trigger] stepped(start, d, i))
    &&& !seen.contains(stepped(start, d, k))
}

/// Holds where the cell at place `h` is the sample of that place, moved on in
/// direction `d` until it leaves the cells before it.
pub open spec fn placed(cells: Seq<Axial>, samples: Seq<Axial>, d: Direction, h: int) -> bool {
    exists|k: nat| #[trigger]
        leaves_after(cells.take(h), samples[h], d, k) && cells[h] == stepped(samples[h], d, k)
}

/// Holds where `cells` is the line that the samples give: each sample in
/// turn, moved on in direction `d` until it leaves the cells before it, and
/// then `end`, unless it is among them.
pub open spec fn is_line(
    cells: Seq<Axial>,
    samples: Seq<Axial>,
    d: Direction,
    end: Axial,
) -> bool {
    &&& cells.len() >= samples.len()
    &&& forall|h: int| 0 <= h < samples.len() ==> #[trigger] placed(cells, samples, d, h)
    &&& if cells.take(samples.len() as int).contains(end) {
        cells.len() == samples.len()
    } else {
        cells.len() == samples.len() + 1 && cells.last() == end
    }
}

/// A step changes each coordinate by the direction's part, up to a multiple
/// of 2^32.
proof fn lemma_stepped_coordinates(start: Axial, d: Direction, steps: nat)
    ensures
        (start.q + d.spec_delta().q * steps - stepped(start, d, steps).q) % 0x1_0000_0000 == 0,
        (start.r + d.spec_delta().r * steps - stepped(start, d, steps).r) % 0x1_0000_0000 == 0,
    decreases steps,
{
    if steps > 0 {
        let before = stepped(start, d, (steps - 1) as nat);
        lemma_stepped_coordinates(start, d, (steps - 1) as nat);
        let dq = d.spec_delta().q as int;
        let dr = d.spec_delta().r as int;
        assert(dq * steps == dq * (steps - 1) + dq) by (nonlinear_arith);
        assert(dr * steps == dr * (steps - 1) + dr) by (nonlinear_arith);
        let nq = stepped(start, d, steps).q as int;
        let nr = stepped(start, d, steps).r as int;
        assert(nq == before.q + dq || nq == before.q + dq - 0x1_0000_0000 || nq == before.q + dq
            + 0x1_0000_0000);
        assert(nr == before.r + dr || nr == before.r + dr - 0x1_0000_0000 || nr == before.r + dr
            + 0x1_0000_0000);
    }
}

/// Fewer than 2^32 steps in a direction never come back to a cell.
proof fn lemma_stepped_distinct(start: Axial, d: Direction, i: nat, j: nat)
    requires
        d != Direction::Zero,
        i < j < 0x1_0000_0000,
    ensures
        stepped(start, d, i) != stepped(start, d, j),
{
    lemma_stepped_coordinates(start, d, i);
    lemma_stepped_coordinates(start, d, j);
    let dq = d.spec_delta().q as int;
    let dr = d.spec_delta().r as int;
    assert(dq == 1 || dq == -1 || dr == 1 || dr == -1);
    if stepped(start, d, i) == stepped(start, d, j) {
        let diff = j - i;
        if dq == 1 || dq == -1 {
            assert(dq * j - dq * i == dq * diff) by (nonlinear_arith)
                requires
                    diff == j - i,
            ;
            assert((dq * diff) % 0x1_0000_0000 == 0);
            assert(false);
        } else {
            assert(dr * j - dr * i == dr * diff) by (nonlinear_arith)
                requires
                    diff == j - i,
            ;
            assert((dr * diff) % 0x1_0000_0000 == 0);
            assert(false);
        }
    }
}

/// A list that holds the first `m` cells of a ray is at least `m` long.
proof fn lemma_ray_fits(seen: Seq<Axial>, start: Axial, d: Direction, m: nat)
    requires
        d != Direction::Zero,
        m <= 0x1_0000_0000,
        forall|i: nat| i < m ==> seen.contains(#[trigger] stepped(start, d, i)),
    ensures
        m <= seen.len(),
{
    let ray = Seq::new(m, |i: int| stepped(start, d, i as nat));
    assert forall|i: int, j: int| 0 <= i < ray.len() && 0 <= j < ray.len() && i != j implies ray[i]
        != ray[j] by {
        if i < j {
            lemma_stepped_distinct(start, d, i as nat, j as nat);
        } else {
            lemma_stepped_distinct(start, d, j as nat, i as nat);
        }
    }
    ray.unique_seq_to_set();
    seen.lemma_cardinality_of_set();
    assert(ray.to_set().subset_of(seen.to_set())) by {
        assert forall|c: Axial| ray.to_set().contains(c) implies seen.to_set().contains(c) by {
            let i = choose|i: int| 0 <= i < ray.len() && ray[i] == c;
            assert(seen.contains(stepped(start, d, i as nat)));
        }
    }
    vstd::seq_lib::seq_to_set_is_finite(seen);
    vstd::set_lib::lemma_len_subset(ray.to_set(), seen.to_set());
}

/// Reports whether a list holds a cell.
fn holds(list: &Vec<Axial>, cell: &Axial) -> (b: bool)
    ensures
        b == list@.contains(*cell),
{
    let mut i: usize = 0;
    while i < list.len()
        invariant
            i <= list.len(),
            forall|j: int| 0 <= j < i ==> list@[j] != *cell,
        decreases list.len() - i,
    {
        if list[i].q == cell.q && list[i].r == cell.r {
            return true;
        }
        i = i + 1;
    }
    false
}

impl Axial {
    /// The cells of the line from `a` to `b`, given its samples: the cells
    /// nearest to the points that divide the way from `a` to `b` into as many
    /// steps as the two are apart, `a`'s own first. A sample that an earlier
    /// cell has taken moves on, in the direction of the largest part of the
    /// way from `b` to `a`, to the first cell that is free. At the end stands
    /// `b`, unless a sample has taken it. No cell comes twice.
    pub fn line(a: &Axial, b: &Axial, samples: &Vec<Axial>) -> (cells: Vec<Axial>)
        requires
            samples@.len() == a.spec_delta(*b).spec_length(),
        ensures
            is_line(cells@, samples@, a.spec_delta(*b).spec_direction(), *b),
            cells@.no_duplicates(),
            cells@.contains(*b),
            samples@.len() <= cells@.len() <= samples@.len() + 1,
            samples@.len() > 0 ==> cells@[0] == samples@[0],
    {
        let delta = a.delta(b);
        let n = delta.length();
        let dir = delta.direction();
        let mut result: Vec<Axial> = Vec::new();
        let mut h: usize = 0;
        while h < samples.len()
            invariant
                h <= samples.len(),
                samples@.len() == n,
                dir != Direction::Zero,
                result@.len() == h,
                result@.no_duplicates(),
                h > 0 ==> result@[0] == samples@[0],
                forall|g: int| 0 <= g < h ==> #[trigger] placed(result@, samples@, dir, g),
            decreases samples.len() - h,
        {
            let mut pnt = samples[h];
            let ghost mut k: nat = 0;
            while holds(&result, &pnt)
                invariant
                    h < samples.len(),
                    samples@.len() == n,
                    dir != Direction::Zero,
                    result@.len() == h,
                    pnt == stepped(samples@[h as int], dir, k),
                    k <= result@.len(),
                    forall|i: nat| i < k ==> result@.contains(#[trigger] stepped(samples@[h as int], dir, i)),
                decreases result@.len() - k,
            {
                proof {
                    lemma_ray_fits(result@, samples@[h as int], dir, k + 1);
                }
                pnt = pnt.neighbor(dir);
                proof {
                    k = k + 1;
                }
            }
            let ghost before = result@;
            result.push(pnt);
            proof {
                assert(result@.take(h as int) =~= before);
                assert(leaves_after(before, samples@[h as int], dir, k));
                assert forall|g: int| 0 <= g < h + 1 implies #[trigger] placed(
                    result@,
                    samples@,
                    dir,
                    g,
                ) by {
                    if g < h {
                        assert(placed(before, samples@, dir, g));
                        let j = choose|j: nat| #[trigger]
                            leaves_after(before.take(g), samples@[g], dir, j) && before[g]
                                == stepped(samples@[g], dir, j);
                        assert(result@.take(g) =~= before.take(g));
                        assert(result@[g] == before[g]);
                        assert(leaves_after(result@.take(g), samples@[g], dir, j));
                    }
                }
                if h == 0 {
                    assert(k == 0);
                }
            }
            h = h + 1;
        }
        let ghost walked = result@;
        if !holds(&result, b) {
            result.push(*b);
        }
        proof {
            assert(result@.take(samples@.len() as int) =~= walked);
            assert forall|g: int| 0 <= g < samples@.len() implies #[trigger] placed(
                result@,
                samples@,
                dir,
                g,
            ) by {
                assert(placed(walked, samples@, dir, g));
                let j = choose|j: nat| #[trigger]
                    leaves_after(walked.take(g), samples@[g], dir, j) && walked[g] == stepped(
                        samples@[g],
                        dir,
                        j,
                    );
                assert(result@.take(g) =~= walked.take(g));
                assert(result@[g] == walked[g]);
                assert(leaves_after(result@.take(g), samples@[g], dir, j));
            }
            if walked.contains(*b) {
                let i = choose|i: int| 0 <= i < walked.len() && walked[i] == *b;
                assert(result@[i] == *b);
            } else {
                assert(result@[walked.len() as int] == *b);
            }
        }
        result
    }
}

/// A line whose samples are all different, and none of them the end, is the
/// samples followed by the end: as long as the samples and one more, with
/// the first sample first and the end last.
pub proof fn lemma_line_of_distinct_samples(
    cells: Seq<Axial>,
    samples: Seq<Axial>,
    d: Direction,
    end: Axial,
)
    requires
        is_line(cells, samples, d, end),
        samples.no_duplicates(),
        !samples.contains(end),
    ensures
        cells == samples.push(end),
        cells.len() == samples.len() + 1,
        cells.last() == end,
        cells.first() == samples.push(end).first(),
{
    assert forall|h: int| 0 <= h < samples.len() implies cells[h] == samples[h] by {
        lemma_line_prefix(cells, samples, d, end, h);
    }
    assert(cells.take(samples.len() as int) =~= samples);
    assert(cells =~= samples.push(end));
}

/// The line between two cells has one cell more than the cells are steps
/// apart, no cell twice, the one cell first and the other last, where the
/// samples are all different, begin with the first cell and do not reach the
/// last.
pub proof fn lemma_line_from_end_to_end(a: Axial, b: Axial, samples: Seq<Axial>, cells: Seq<Axial>)
    requires
        a.near(b),
        samples.len() == a.spec_delta(b).spec_length(),
        is_line(cells, samples, a.spec_delta(b).spec_direction(), b),
        samples.no_duplicates(),
        !samples.contains(b),
        samples.len() > 0 ==> samples[0] == a,
    ensures
        cells.len() == hex_distance(a, b) + 1,
        cells.no_duplicates(),
        cells.first() == a,
        cells.last() == b,
{
    lemma_line_of_distinct_samples(cells, samples, a.spec_delta(b).spec_direction(), b);
    lemma_length_of_delta(a, b);
    lemma_distance_zero(a, b);
    assert forall|i: int, j: int| 0 <= i < cells.len() && 0 <= j < cells.len() && i != j implies cells[i]
        != cells[j] by {
        if i < samples.len() && j < samples.len() {
            assert(samples[i] != samples[j]);
        } else if i < samples.len() {
            assert(samples.contains(samples[i]));
        } else {
            assert(samples.contains(samples[j]));
        }
    }
}

/// Up to a place before which the cells are the samples, and the samples
/// are all different, the cell is the sample.
proof fn lemma_line_prefix(
    cells: Seq<Axial>,
    samples: Seq<Axial>,
    d: Direction,
    end: Axial,
    h: int,
)
    requires
        is_line(cells, samples, d, end),
        samples.no_duplicates(),
        0 <= h < samples.len(),
    ensures
        cells[h] == samples[h],
    decreases h,
{
    assert forall|g: int| 0 <= g < h implies cells[g] == samples[g] by {
        lemma_line_prefix(cells, samples, d, end, g);
    }
    assert(cells.take(h) =~= samples.take(h));
    assert(placed(cells, samples, d, h));
    let k = choose|k: nat| #[trigger]
        leaves_after(cells.take(h), samples[h], d, k) && cells[h] == stepped(samples[h], d, k);
    if k > 0 {
        assert(cells.take(h).contains(stepped(samples[h], d, 0)));
        let g = choose|g: int| 0 <= g < h && samples.take(h)[g] == samples[h];
        assert(samples[g] == samples[h]);
    }
}

} // verus!
