use crate::events::EventKey;
use crate::math::{hex_distance, Axial};
use crate::rng::{scramble, signed_draw, Shift64};
use std::collections::HashMap;
use vstd::prelude::*;

verus! {

broadcast use vstd::std_specs::hash::group_hash_axioms;

/// What the table holds for one cell: what is there, how much of it, and the
/// scene object that shows it.
#[derive(Clone, Copy, Debug, PartialEq, Eq, Structural)]
pub struct HexNode {
    pub key: EventKey,
    pub value: i32,
    pub entity: Option<u64>,
}

/// A hexagonal region of cells around the cell (0, 0), with a table of nodes
/// by cell. The table files each cell under its `cell_key`.
pub struct HexMap {
    pub radius: i32,
    pub nodes: HashMap<u64, HexNode>,
}

/// The cell in the middle of every region.
pub open spec fn origin() -> Axial {
    Axial { q: 0, r: 0 }
}

/// Holds where a cell is at most `radius` steps from the middle.
pub open spec fn in_region(hex: Axial, radius: int) -> bool {
    hex_distance(hex, origin()) <= radius
}

/// The order in which a region is walked: by `q`, and by `r` where `q` is the
/// same.
pub open spec fn walked_before(a: Axial, b: Axial) -> bool {
    a.q < b.q || (a.q == b.q && a.r < b.r)
}

/// The number under which the table files a cell: both coordinates moved to
/// the non-negative side, `q` above `r`.
pub open spec fn cell_key(hex: Axial) -> u64 {
    ((hex.q + 0x8000_0000) * 0x1_0000_0000 + (hex.r + 0x8000_0000)) as u64
}

/// The category of a point of interest, from the number drawn for it.
pub open spec fn drawn_category(draw: i32) -> EventKey {
    if draw > 92 {
        EventKey::Energy
    } else {
        EventKey::Mining
    }
}

/// A table after a list of moves: each move whose first cell has a node in
/// `other` writes that node at its second cell, in the order of the list, so
/// that the last write to a cell stays.
pub open spec fn merged(
    base: Map<Axial, HexNode>,
    other: Map<Axial, HexNode>,
    moves: Seq<(Axial, Axial)>,
) -> Map<Axial, HexNode>
    decreases moves.len(),
{
    if moves.len() == 0 {
        base
    } else {
        let before = merged(base, other, moves.drop_last());
        let (from, to) = moves.last();
        if other.contains_key(from) {
            before.insert(to, other[from])
        } else {
            before
        }
    }
}

/// A table and a generator state after points of interest were put at the
/// cells of a list, in its order. Each cell takes two draws below 256 from
/// the generator, the first for the category and the second for the value;
/// they are written where the table has a node for the cell, whose scene
/// object stays.
pub open spec fn scattered(table: Map<Axial, HexNode>, seed: i64, cells: Seq<Axial>) -> (
    Map<Axial, HexNode>,
    i64,
)
    decreases cells.len(),
{
    if cells.len() == 0 {
        (table, seed)
    } else {
        let (before, state) = scattered(table, seed, cells.drop_last());
        let first = scramble(state);
        let second = scramble(first);
        let hex = cells.last();
        if before.contains_key(hex) {
            (
                before.insert(
                    hex,
                    HexNode {
                        key: drawn_category(signed_draw(first, 256)),
                        value: signed_draw(second, 256),
                        entity: before[hex].entity,
                    },
                ),
                second,
            )
        } else {
            (before, second)
        }
    }
}

/// Holds where some move of the list writes a node at `hex`.
pub open spec fn written(other: Map<Axial, HexNode>, moves: Seq<(Axial, Axial)>, hex: Axial) -> bool {
    exists|i: int| 0 <= i < moves.len() && other.contains_key(moves[i].0) && moves[i].1 == hex
}

/// The number of cells in the columns of a region before column `q`: a
/// column has as many cells as twice the radius and one, less its distance
/// from the middle column.
pub open spec fn cells_before(radius: int, q: int) -> int
    decreases q + radius,
{
    if q <= -radius {
        0
    } else {
        cells_before(radius, q - 1) + 2 * radius + 1 - crate::math::magnitude(q - 1)
    }
}

/// The table in which every cell of the region has a blank node.
pub open spec fn blank_region(radius: int) -> Map<Axial, HexNode> {
    Map::new(|hex: Axial| in_region(hex, radius), |hex: Axial| HexNode::blank())
}

/// Holds for the cells of the region that a walk has passed when it stands
/// at column `q`, row `r`.
pub open spec fn passed(hex: Axial, radius: int, q: int, r: int) -> bool {
    in_region(hex, radius) && (hex.q < q || (hex.q == q && hex.r < r))
}

/// Holds where `now` is `before` with a blank node written at every cell that
/// the walk has passed.
pub open spec fn blanked(
    before: Map<Axial, HexNode>,
    now: Map<Axial, HexNode>,
    radius: int,
    q: int,
    r: int,
) -> bool {
    forall|hex: Axial|
        #![trigger now.contains_key(hex)]
        #![trigger now[hex]]
        if passed(hex, radius, q, r) {
            now.contains_key(hex) && now[hex] == HexNode::blank()
        } else {
            now.contains_key(hex) == before.contains_key(hex) && (before.contains_key(hex)
                ==> now[hex] == before[hex])
        }
}

/// Holds where `cells` lists the cells that the walk has passed, each once,
/// in the order of the walk.
pub open spec fn listed(cells: Seq<Axial>, radius: int, q: int, r: int) -> bool {
    &&& forall|i: int| 0 <= i < cells.len() ==> passed(#[trigger] cells[i], radius, q, r)
    &&& forall|hex: Axial| #[trigger]
        passed(hex, radius, q, r) ==> exists|i: int| 0 <= i < cells.len() && cells[i] == hex
    &&& forall|i: int, j: int|
        0 <= i < j < cells.len() ==> walked_before(#[trigger] cells[i], #[trigger] cells[j])
}

/// Two positions of a walk that have passed the same cells are alike.
proof fn lemma_same_walk(
    before: Map<Axial, HexNode>,
    now: Map<Axial, HexNode>,
    cells: Seq<Axial>,
    radius: int,
    q1: int,
    r1: int,
    q2: int,
    r2: int,
)
    requires
        blanked(before, now, radius, q1, r1),
        listed(cells, radius, q1, r1),
        forall|hex: Axial|
            #![trigger passed(hex, radius, q1, r1)]
            #![trigger passed(hex, radius, q2, r2)]
            passed(hex, radius, q1, r1) == passed(hex, radius, q2, r2),
    ensures
        blanked(before, now, radius, q2, r2),
        listed(cells, radius, q2, r2),
{
    assert forall|hex: Axial|
        #![trigger now.contains_key(hex)]
        #![trigger now[hex]]
        if passed(hex, radius, q2, r2) {
            now.contains_key(hex) && now[hex] == HexNode::blank()
        } else {
            now.contains_key(hex) == before.contains_key(hex) && (before.contains_key(hex)
                ==> now[hex] == before[hex])
        } by {
        assert(passed(hex, radius, q1, r1) == passed(hex, radius, q2, r2));
    }
    assert forall|i: int| 0 <= i < cells.len() implies passed(
        #[trigger] cells[i],
        radius,
        q2,
        r2,
    ) by {
        assert(passed(cells[i], radius, q1, r1));
    }
    assert forall|hex: Axial| #[trigger] passed(hex, radius, q2, r2) implies exists|i: int|
        0 <= i < cells.len() && cells[i] == hex by {
        assert(passed(hex, radius, q1, r1));
    }
}

/// Writing a blank node at the cell where the walk stands, and listing the
/// cell, moves the walk one row on.
proof fn lemma_walk_step(
    before: Map<Axial, HexNode>,
    table: Map<Axial, HexNode>,
    list: Seq<Axial>,
    radius: int,
    q: int,
    r: int,
)
    requires
        blanked(before, table, radius, q, r),
        listed(list, radius, q, r),
        i32::MIN <= q <= i32::MAX,
        i32::MIN <= r <= i32::MAX,
        in_region(Axial { q: q as i32, r: r as i32 }, radius),
    ensures
        blanked(
            before,
            table.insert(Axial { q: q as i32, r: r as i32 }, HexNode::blank()),
            radius,
            q,
            r + 1,
        ),
        listed(list.push(Axial { q: q as i32, r: r as i32 }), radius, q, r + 1),
{
    let hex = Axial { q: q as i32, r: r as i32 };
    let now = table.insert(hex, HexNode::blank());
    let cells = list.push(hex);
    assert forall|other: Axial|
        #![trigger now.contains_key(other)]
        #![trigger now[other]]
        if passed(other, radius, q, r + 1) {
            now.contains_key(other) && now[other] == HexNode::blank()
        } else {
            now.contains_key(other) == before.contains_key(other) && (before.contains_key(other)
                ==> now[other] == before[other])
        } by {
        if other != hex {
            assert(passed(other, radius, q, r + 1) == passed(other, radius, q, r));
            assert(now.contains_key(other) == table.contains_key(other));
            assert(table.contains_key(other) ==> now[other] == table[other]);
        }
    }
    assert forall|i: int| 0 <= i < cells.len() implies passed(
        #[trigger] cells[i],
        radius,
        q,
        r + 1,
    ) by {
        if i < list.len() {
            assert(passed(list[i], radius, q, r));
        }
    }
    assert forall|other: Axial| #[trigger] passed(other, radius, q, r + 1) implies exists|i: int|
        0 <= i < cells.len() && cells[i] == other by {
        if other == hex {
            assert(cells[list.len() as int] == hex);
        } else {
            assert(passed(other, radius, q, r));
            let i = choose|i: int| 0 <= i < list.len() && list[i] == other;
            assert(cells[i] == other);
        }
    }
    assert forall|i: int, j: int| 0 <= i < j < cells.len() implies walked_before(
        #[trigger] cells[i],
        #[trigger] cells[j],
    ) by {
        if j == list.len() {
            assert(passed(list[i], radius, q, r));
        } else {
            assert(walked_before(list[i], list[j]));
        }
    }
}

fn key_of(hex: &Axial) -> (k: u64)
    ensures
        k == cell_key(*hex),
{
    let high: u64 = (hex.q as i64 + 0x8000_0000) as u64;
    let low: u64 = (hex.r as i64 + 0x8000_0000) as u64;
    high * 0x1_0000_0000 + low
}

proof fn lemma_keys_differ(a: Axial, b: Axial)
    ensures
        cell_key(a) == cell_key(b) <==> a == b,
{
}

impl HexNode {
    /// The node of a cell that holds nothing.
    pub open spec fn blank() -> HexNode {
        HexNode { key: EventKey::Empty, value: 0, entity: None }
    }
}

impl View for HexMap {
    type V = Map<Axial, HexNode>;

    open spec fn view(&self) -> Map<Axial, HexNode> {
        Map::new(
            |hex: Axial| self.nodes@.contains_key(cell_key(hex)),
            |hex: Axial| self.nodes@[cell_key(hex)],
        )
    }
}

impl HexMap {
    /// Holds where the table has a node for just the cells of the region.
    pub open spec fn is_spawned(&self) -> bool {
        forall|hex: Axial| self@.contains_key(hex) <==> in_region(hex, self.radius as int)
    }

    /// A region of the given radius with an empty table.
    pub fn new(radius: i32) -> (map: HexMap)
        ensures
            map.radius == radius,
            map@ == Map::<Axial, HexNode>::empty(),
    {
        let map = HexMap { radius, nodes: HashMap::new() };
        assert(map@ =~= Map::<Axial, HexNode>::empty());
        map
    }

    /// The node of a cell, if the table has one.
    pub fn get(&self, hex: &Axial) -> (node: Option<HexNode>)
        ensures
            node == (if self@.contains_key(*hex) {
                Some(self@[*hex])
            } else {
                None::<HexNode>
            }),
    {
        let k = key_of(hex);
        match self.nodes.get(&k) {
            Some(n) => Some(*n),
            None => None,
        }
    }

    /// Writes the node of a cell, over the one that was there.
    pub fn insert(&mut self, hex: Axial, node: HexNode)
        ensures
            final(self).radius == old(self).radius,
            final(self)@ == old(self)@.insert(hex, node),
    {
        let k = key_of(&hex);
        self.nodes.insert(k, node);
        proof {
            assert forall|a: Axial| a != hex implies cell_key(a) != cell_key(hex) by {
                lemma_keys_differ(a, hex);
            }
            assert(self@ =~= old(self)@.insert(hex, node));
        }
    }

    /// Writes a blank node at every cell of the region, column by column from
    /// the lowest `q`, each column from its lowest `r`, and returns the cells
    /// in that order. An `r` belongs to column `q` where it lies between
    /// `max(-radius, -q - radius)` and `min(radius, -q + radius)`.
    pub fn spawn_entities(&mut self) -> (cells: Vec<Axial>)
        ensures
            final(self).radius == old(self).radius,
            final(self)@ == old(self)@.union_prefer_right(blank_region(old(self).radius as int)),
            old(self)@.dom().subset_of(blank_region(old(self).radius as int).dom())
                ==> final(self).is_spawned(),
            forall|hex: Axial|
                cells@.contains(hex) <==> in_region(hex, old(self).radius as int),
            forall|i: int, j: int|
                0 <= i < j < cells.len() ==> walked_before(#[trigger] cells[i], #[trigger] cells[j]),
            old(self).radius >= 0 ==> cells@.len() == 3 * old(self).radius * old(self).radius + 3
                * old(self).radius + 1,
            old(self).radius < 0 ==> cells@.len() == 0,
    {
        let radius: i64 = self.radius as i64;
        let mut cells: Vec<Axial> = Vec::new();
        let mut q: i64 = -radius;
        let blank = HexNode { key: EventKey::Empty, value: 0, entity: None };
        while q <= radius
            invariant
                radius == old(self).radius,
                self.radius == old(self).radius,
                blank == HexNode::blank(),
                -radius <= q,
                q <= radius + 1 || q == -radius,
                blanked(old(self)@, self@, radius as int, q as int, -radius as int),
                listed(cells@, radius as int, q as int, -radius as int),
                cells@.len() == cells_before(radius as int, q as int),
            decreases radius - q + 1,
        {
            let low: i64 = if -q - radius > -radius {
                -q - radius
            } else {
                -radius
            };
            let high: i64 = if -q + radius < radius {
                -q + radius
            } else {
                radius
            };
            let mut r: i64 = low;
            proof {
                lemma_same_walk(
                    old(self)@,
                    self@,
                    cells@,
                    radius as int,
                    q as int,
                    -radius as int,
                    q as int,
                    low as int,
                );
            }
            while r <= high
                invariant
                    radius == old(self).radius,
                    self.radius == old(self).radius,
                    blank == HexNode::blank(),
                    -radius <= q <= radius,
                    low == (if -q - radius > -radius {
                        -q - radius
                    } else {
                        -radius as int
                    }),
                    high == (if -q + radius < radius {
                        -q + radius
                    } else {
                        radius as int
                    }),
                    low <= r <= high + 1,
                    blanked(old(self)@, self@, radius as int, q as int, r as int),
                    listed(cells@, radius as int, q as int, r as int),
                    cells@.len() == cells_before(radius as int, q as int) + (r - low),
                decreases high - r + 1,
            {
                let hex = Axial { q: q as i32, r: r as i32 };
                let ghost table = self@;
                let ghost list = cells@;
                self.insert(hex, blank);
                cells.push(hex);
                proof {
                    lemma_walk_step(old(self)@, table, list, radius as int, q as int, r as int);
                }
                r = r + 1;
            }
            proof {
                lemma_same_walk(
                    old(self)@,
                    self@,
                    cells@,
                    radius as int,
                    q as int,
                    r as int,
                    q + 1,
                    -radius as int,
                );
            }
            q = q + 1;
        }
        proof {
            if radius >= 0 {
                lemma_cells_before(radius as int, radius + 1);
            }
            assert forall|other: Axial| cells@.contains(other) <==> in_region(
                other,
                radius as int,
            ) by {
                if in_region(other, radius as int) {
                    assert(passed(other, radius as int, q as int, -radius as int));
                }
            }
            assert forall|other: Axial|
                #![trigger self@.contains_key(other)]
                #![trigger self@[other]]
                passed(other, radius as int, q as int, -radius as int) == in_region(
                    other,
                    radius as int,
                ) by {}
            assert(self@ =~= old(self)@.union_prefer_right(blank_region(radius as int)));
            if old(self)@.dom().subset_of(blank_region(radius as int).dom()) {
                assert forall|other: Axial| self@.contains_key(other) <==> in_region(
                    other,
                    self.radius as int,
                ) by {
                    if old(self)@.contains_key(other) {
                        assert(blank_region(radius as int).dom().contains(other));
                    }
                }
            }
        }
        cells
    }

    /// Writes into this table the nodes that `other` has at the first cells of
    /// `moves`, each at the second cell of its move, in the order of the list:
    /// where two moves end at one cell, the later one stays.
    pub fn collect(&mut self, other: &HexMap, moves: &Vec<(Axial, Axial)>)
        ensures
            final(self).radius == old(self).radius,
            final(self)@ == merged(old(self)@, other@, moves@),
    {
        let mut i: usize = 0;
        while i < moves.len()
            invariant
                i <= moves.len(),
                self.radius == old(self).radius,
                self@ == merged(old(self)@, other@, moves@.take(i as int)),
            decreases moves.len() - i,
        {
            let (from, to) = moves[i];
            proof {
                assert(moves@.take(i + 1).drop_last() =~= moves@.take(i as int));
                assert(moves@.take(i + 1).last() == moves@[i as int]);
            }
            match other.get(&from) {
                Some(node) => {
                    self.insert(to, node);
                },
                None => {},
            }
            i = i + 1;
        }
        proof {
            assert(moves@.take(moves.len() as int) =~= moves@);
        }
    }

    /// Puts points of interest at the cells of a list, in its order, with
    /// category and value drawn from `rng`, and reports for each cell whether
    /// the table had a node for it. A cell without a node still takes its two
    /// draws, and nothing is written for it.
    pub fn spawn_points(&mut self, rng: &mut Shift64, cells: &Vec<Axial>) -> (placed: Vec<bool>)
        ensures
            final(self).radius == old(self).radius,
            final(self)@ == scattered(old(self)@, old(rng).seed, cells@).0,
            final(rng).seed == scattered(old(self)@, old(rng).seed, cells@).1,
            final(self)@.dom() == old(self)@.dom(),
            old(self).is_spawned() ==> final(self).is_spawned(),
            placed@.len() == cells@.len(),
            forall|i: int|
                0 <= i < cells@.len() ==> placed@[i] == old(self)@.contains_key(#[trigger] cells@[i]),
    {
        let mut placed: Vec<bool> = Vec::new();
        let mut i: usize = 0;
        while i < cells.len()
            invariant
                i <= cells.len(),
                self.radius == old(self).radius,
                self@ == scattered(old(self)@, old(rng).seed, cells@.take(i as int)).0,
                rng.seed == scattered(old(self)@, old(rng).seed, cells@.take(i as int)).1,
                self@.dom() == old(self)@.dom(),
                placed@.len() == i,
                forall|j: int|
                    0 <= j < i ==> placed@[j] == old(self)@.contains_key(#[trigger] cells@[j]),
            decreases cells.len() - i,
        {
            let hex = cells[i];
            proof {
                assert(cells@.take(i + 1).drop_last() =~= cells@.take(i as int));
                assert(cells@.take(i + 1).last() == cells@[i as int]);
            }
            let key = rng.i32(256);
            let value = rng.i32(256);
            match self.get(&hex) {
                Some(node) => {
                    let category = if key > 92 {
                        EventKey::Energy
                    } else {
                        EventKey::Mining
                    };
                    self.insert(hex, HexNode { key: category, value, entity: node.entity });
                    placed.push(true);
                    assert(self@.dom() =~= old(self)@.dom());
                },
                None => {
                    placed.push(false);
                },
            }
            i = i + 1;
        }
        proof {
            assert(cells@.take(cells.len() as int) =~= cells@);
        }
        placed
    }

    /// Names the scene object that shows a cell, where the table has a node
    /// for the cell, and reports whether it has.
    pub fn set_entity(&mut self, hex: Axial, entity: u64) -> (found: bool)
        ensures
            final(self).radius == old(self).radius,
            found == old(self)@.contains_key(hex),
            found ==> final(self)@ == old(self)@.insert(
                hex,
                HexNode { key: old(self)@[hex].key, value: old(self)@[hex].value, entity: Some(entity) },
            ),
            !found ==> final(self)@ == old(self)@,
    {
        match self.get(&hex) {
            Some(node) => {
                self.insert(hex, HexNode { key: node.key, value: node.value, entity: Some(entity) });
                true
            },
            None => false,
        }
    }

    /// Reports whether a cell is within the radius, counted in wrapping
    /// 32-bit arithmetic; for a cell whose distance fits in it, whether the
    /// cell belongs to the region.
    pub fn on_grid(&self, hex: &Axial) -> (b: bool)
        ensures
            b == (self.radius >= hex.spec_distance(origin())),
            hex.near(origin()) ==> b == in_region(*hex, self.radius as int),
    {
        self.radius >= hex.distance(&Axial { q: 0, r: 0 })
    }
}

} // verus!

verus! {

/// The closed form of the number of cells before a column, and with it the
/// number of cells of a region: three times the radius times its successor,
/// and one.
pub proof fn lemma_cells_before(radius: int, q: int)
    requires
        radius >= 0,
        -radius <= q <= radius + 1,
    ensures
        q <= 0 ==> 2 * cells_before(radius, q) == (q + radius) * (q + 3 * radius + 1),
        q >= 0 ==> 2 * cells_before(radius, q) == radius * (3 * radius + 1) + q * (4 * radius + 3
            - q),
        q == radius + 1 ==> cells_before(radius, q) == 3 * radius * radius + 3 * radius + 1,
    decreases q + radius,
{
    if q > -radius {
        lemma_cells_before(radius, q - 1);
        let before = cells_before(radius, q - 1);
        if q <= 0 {
            assert((q + radius) * (q + 3 * radius + 1) == (q - 1 + radius) * (q - 1 + 3 * radius
                + 1) + 2 * (2 * radius + 1 + (q - 1))) by (nonlinear_arith);
        } else {
            assert(radius * (3 * radius + 1) + q * (4 * radius + 3 - q) == radius * (3 * radius
                + 1) + (q - 1) * (4 * radius + 3 - (q - 1)) + 2 * (2 * radius + 1 - (q - 1)))
                by (nonlinear_arith);
            if q == 1 {
                assert((q - 1 + radius) * (q - 1 + 3 * radius + 1) == radius * (3 * radius + 1)
                    + (q - 1) * (4 * radius + 3 - (q - 1))) by (nonlinear_arith)
                    requires
                        q == 1,
                ;
            }
        }
    } else {
        assert((q + radius) * (q + 3 * radius + 1) == 0) by (nonlinear_arith)
            requires
                q + radius == 0,
        ;
    }
    if q == radius + 1 {
        assert(radius * (3 * radius + 1) + (radius + 1) * (4 * radius + 3 - (radius + 1)) == 2 * (3
            * radius * radius + 3 * radius + 1)) by (nonlinear_arith);
    }
    if q == 0 {
        assert((q + radius) * (q + 3 * radius + 1) == radius * (3 * radius + 1) + q * (4 * radius
            + 3 - q)) by (nonlinear_arith)
            requires
                q == 0,
        ;
    }
}

/// A cell is in a region just where its column lies within the radius on
/// both sides and its row between `max(-radius, -q - radius)` and
/// `min(radius, -q + radius)`.
pub proof fn lemma_region_bounds(hex: Axial, radius: int)
    ensures
        in_region(hex, radius) <==> {
            &&& -radius <= hex.q <= radius
            &&& -radius <= hex.r <= radius
            &&& -hex.q - radius <= hex.r <= -hex.q + radius
        },
{
}

/// The region of radius zero is the middle cell alone, and a region of
/// negative radius has no cell.
pub proof fn lemma_smallest_regions(hex: Axial, radius: int)
    ensures
        radius == 0 ==> (in_region(hex, radius) <==> hex == origin()),
        radius < 0 ==> !in_region(hex, radius),
{
}

/// The node that the last move writing at `hex` writes there, if any does.
pub open spec fn last_written(
    other: Map<Axial, HexNode>,
    moves: Seq<(Axial, Axial)>,
    hex: Axial,
) -> Option<HexNode>
    decreases moves.len(),
{
    if moves.len() == 0 {
        None
    } else if other.contains_key(moves.last().0) && moves.last().1 == hex {
        Some(other[moves.last().0])
    } else {
        last_written(other, moves.drop_last(), hex)
    }
}

/// After a merge a cell holds what the last move writing there wrote, and
/// where no move writes, what it held before.
pub proof fn lemma_merged_at(
    base: Map<Axial, HexNode>,
    other: Map<Axial, HexNode>,
    moves: Seq<(Axial, Axial)>,
    hex: Axial,
)
    ensures
        written(other, moves, hex) <==> last_written(other, moves, hex).is_some(),
        written(other, moves, hex) ==> merged(base, other, moves).contains_key(hex) && Some(
            merged(base, other, moves)[hex],
        ) == last_written(other, moves, hex),
        !written(other, moves, hex) ==> merged(base, other, moves).contains_key(hex)
            == base.contains_key(hex),
        !written(other, moves, hex) && base.contains_key(hex) ==> merged(base, other, moves)[hex]
            == base[hex],
    decreases moves.len(),
{
    if moves.len() > 0 {
        let rest = moves.drop_last();
        lemma_merged_at(base, other, rest, hex);
        let n = moves.len() - 1;
        if written(other, rest, hex) {
            let i = choose|i: int|
                0 <= i < rest.len() && other.contains_key(rest[i].0) && rest[i].1 == hex;
            assert(moves[i] == rest[i]);
        }
        if other.contains_key(moves.last().0) && moves.last().1 == hex {
            assert(moves[n] == moves.last());
        }
        if written(other, moves, hex) {
            let i = choose|i: int|
                0 <= i < moves.len() && other.contains_key(moves[i].0) && moves[i].1 == hex;
            if i < n {
                assert(rest[i] == moves[i]);
            }
        }
    }
}

/// A merge loses no cell of the table it writes into, leaves alone every
/// cell at which no move writes, and leaves a node at the end of every move
/// that starts at a node.
pub proof fn lemma_collect_keeps_cells(
    base: Map<Axial, HexNode>,
    other: Map<Axial, HexNode>,
    moves: Seq<(Axial, Axial)>,
)
    ensures
        base.dom().subset_of(merged(base, other, moves).dom()),
        forall|hex: Axial|
            #![trigger merged(base, other, moves).contains_key(hex)]
            #![trigger written(other, moves, hex)]
            merged(base, other, moves).contains_key(hex) <==> base.contains_key(hex) || written(
                other,
                moves,
                hex,
            ),
        forall|hex: Axial|
            base.contains_key(hex) && !written(other, moves, hex) ==> #[trigger] merged(
                base,
                other,
                moves,
            )[hex] == base[hex],
        forall|i: int|
            0 <= i < moves.len() && other.contains_key(moves[i].0) ==> merged(
                base,
                other,
                moves,
            ).contains_key(#[trigger] moves[i].1),
{
    let now = merged(base, other, moves);
    assert forall|i: int| 0 <= i < moves.len() && other.contains_key(moves[i].0) implies now.contains_key(
        #[trigger] moves[i].1,
    ) by {
        assert(written(other, moves, moves[i].1));
        lemma_merged_at(base, other, moves, moves[i].1);
    }
    assert forall|hex: Axial|
        #![trigger now.contains_key(hex)]
        #![trigger written(other, moves, hex)]
        #![trigger now[hex]]
        #![trigger base.contains_key(hex)]
        (now.contains_key(hex) <==> base.contains_key(hex) || written(other, moves, hex)) && (
        base.contains_key(hex) && !written(other, moves, hex) ==> now[hex] == base[hex]) by {
        lemma_merged_at(base, other, moves, hex);
    }
}

/// Two merges that write at no common cell can be made in either order: the
/// table then holds every cell it held, with its node where neither merge
/// writes, and every cell written by one of them, with what that one wrote.
pub proof fn lemma_collect_disjoint(
    base: Map<Axial, HexNode>,
    first: Map<Axial, HexNode>,
    first_moves: Seq<(Axial, Axial)>,
    second: Map<Axial, HexNode>,
    second_moves: Seq<(Axial, Axial)>,
)
    requires
        forall|hex: Axial|
            !(#[trigger] written(first, first_moves, hex) && #[trigger] written(
                second,
                second_moves,
                hex,
            )),
    ensures
        merged(merged(base, first, first_moves), second, second_moves) == merged(
            merged(base, second, second_moves),
            first,
            first_moves,
        ),
        merged(merged(base, first, first_moves), second, second_moves).dom() == base.dom().union(
            Set::new(|hex: Axial| written(first, first_moves, hex)),
        ).union(Set::new(|hex: Axial| written(second, second_moves, hex))),
        forall|hex: Axial|
            written(first, first_moves, hex) ==> Some(
                #[trigger] merged(merged(base, first, first_moves), second, second_moves)[hex],
            ) == last_written(first, first_moves, hex),
        forall|hex: Axial|
            written(second, second_moves, hex) ==> Some(
                #[trigger] merged(merged(base, first, first_moves), second, second_moves)[hex],
            ) == last_written(second, second_moves, hex),
        forall|hex: Axial|
            base.contains_key(hex) && !written(first, first_moves, hex) && !written(
                second,
                second_moves,
                hex,
            ) ==> #[trigger] merged(merged(base, first, first_moves), second, second_moves)[hex]
                == base[hex],
{
    let one = merged(base, first, first_moves);
    let two = merged(base, second, second_moves);
    let left = merged(one, second, second_moves);
    let right = merged(two, first, first_moves);
    let both = base.dom().union(Set::new(|hex: Axial| written(first, first_moves, hex))).union(
        Set::new(|hex: Axial| written(second, second_moves, hex)),
    );
    assert forall|hex: Axial|
        #![trigger left.contains_key(hex)]
        #![trigger right.contains_key(hex)]
        #![trigger left[hex]]
        #![trigger right[hex]]
        #![trigger both.contains(hex)]
        (left.contains_key(hex) == right.contains_key(hex)) && (left.contains_key(hex)
            ==> left[hex] == right[hex]) && (left.contains_key(hex) == both.contains(hex)) && (
        written(first, first_moves, hex) ==> Some(left[hex]) == last_written(
            first,
            first_moves,
            hex,
        )) && (written(second, second_moves, hex) ==> Some(left[hex]) == last_written(
            second,
            second_moves,
            hex,
        )) && (base.contains_key(hex) && !written(first, first_moves, hex) && !written(
            second,
            second_moves,
            hex,
        ) ==> left[hex] == base[hex]) by {
        assert(!(written(first, first_moves, hex) && written(second, second_moves, hex)));
        lemma_merged_at(base, first, first_moves, hex);
        lemma_merged_at(base, second, second_moves, hex);
        lemma_merged_at(one, second, second_moves, hex);
        lemma_merged_at(two, first, first_moves, hex);
    }
    assert(left =~= right);
    assert(left.dom() =~= both);
}

} // verus!
