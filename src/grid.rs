//! The lattice store: per-node positions, velocities, anchor flags and the
//! adjacency list, with the operations that keep them consistent.

use crate::topology::adjacency;
use crate::topology::build_neighbours;
use crate::topology::grid_index;
use crate::topology::index_of;
use crate::topology::lemma_index_in_range;
use crate::topology::lists_view;
use vstd::prelude::*;

verus! {

/// Vertical offset of the initial layout, in grid units.
pub const LAYOUT_Y_OFFSET: i64 = 10;

/// Why a lattice operation was refused.
#[derive(Clone, Copy, Debug, PartialEq, Eq, Structural)]
pub enum GridError {
    /// A lattice needs at least one column and one row.
    ZeroDimension,
    /// `width * height` nodes do not fit in memory (more than `isize::MAX`).
    TooLarge,
    /// A node index at or beyond the number of nodes.
    IndexOutOfRange,
    /// A replacement snapshot whose length differs from the node count.
    SnapshotMismatch,
}

/// One endpoint of a line segment handed to a renderer.
#[derive(Clone, Copy, Debug)]
pub struct Vertex<P> {
    pub position: P,
}

/// Horizontal coordinate, in grid units, of column `x` in the initial
/// layout: the lattice is centred horizontally.
pub open spec fn layout_x(width: int, x: int) -> int {
    x - width / 2
}

/// Vertical coordinate, in grid units, of row `y` in the initial layout:
/// centred, then raised by `LAYOUT_Y_OFFSET`.
pub open spec fn layout_y(height: int, y: int) -> int {
    LAYOUT_Y_OFFSET + y - height / 2
}

/// Segments drawn from node `i` to the neighbours in `row` with a larger
/// index, as consecutive pairs of endpoints.
pub open spec fn node_segments<P>(positions: Seq<P>, i: int, row: Seq<int>) -> Seq<Vertex<P>>
    decreases row.len(),
{
    if row.len() == 0 {
        Seq::empty()
    } else {
        let earlier = node_segments(positions, i, row.drop_last());
        let j = row.last();
        if i < j {
            earlier.push(Vertex { position: positions[i] }).push(Vertex { position: positions[j] })
        } else {
            earlier
        }
    }
}

/// Segments of every lattice edge `(i, j)` with `i < j` and `i < n`, in
/// order of `i` and then of the adjacency list.
pub open spec fn edge_segments<P>(positions: Seq<P>, neighbours: Seq<Seq<int>>, n: int) -> Seq<
    Vertex<P>,
>
    decreases n,
{
    if n <= 0 {
        Seq::empty()
    } else {
        edge_segments(positions, neighbours, n - 1) + node_segments(
            positions,
            n - 1,
            neighbours[n - 1],
        )
    }
}

/// The abstract state of a lattice.
pub ghost struct GridModel<P> {
    pub width: nat,
    pub height: nat,
    pub positions: Seq<P>,
    pub velocities: Seq<P>,
    pub fixed: Seq<bool>,
    pub neighbours: Seq<Seq<int>>,
}

impl<P> GridModel<P> {
    /// Number of nodes.
    pub open spec fn len(self) -> nat {
        self.width * self.height
    }

    /// Both dimensions positive, the node count within memory limits, every
    /// per-node array of one length, and the adjacency list that of the
    /// four-connected lattice.
    pub open spec fn wf(self) -> bool {
        &&& self.width > 0
        &&& self.height > 0
        &&& self.len() <= isize::MAX
        &&& self.positions.len() == self.len()
        &&& self.velocities.len() == self.len()
        &&& self.fixed.len() == self.len()
        &&& self.neighbours == adjacency(self.width as int, self.height as int)
    }

    /// The lattice after a step whose output is `positions` and `velocities`:
    /// free nodes take the output, anchors keep their values.
    pub open spec fn after_step(self, positions: Seq<P>, velocities: Seq<P>) -> GridModel<P> {
        GridModel {
            positions: Seq::new(
                self.len(),
                |i: int|
                    if self.fixed[i] {
                        self.positions[i]
                    } else {
                        positions[i]
                    },
            ),
            velocities: Seq::new(
                self.len(),
                |i: int|
                    if self.fixed[i] {
                        self.velocities[i]
                    } else {
                        velocities[i]
                    },
            ),
            ..self
        }
    }

    /// `next` keeps the dimensions, anchors and adjacency of `self`, and
    /// every anchor's position and velocity.
    pub open spec fn keeps_anchors(self, next: GridModel<P>) -> bool {
        &&& next.width == self.width
        &&& next.height == self.height
        &&& next.fixed == self.fixed
        &&& next.neighbours == self.neighbours
        &&& next.positions.len() == self.positions.len()
        &&& next.velocities.len() == self.velocities.len()
        &&& forall|i: int|
            0 <= i < self.fixed.len() && #[trigger] self.fixed[i] ==> next.positions[i]
                == self.positions[i] && next.velocities[i] == self.velocities[i]
    }
}

/// A `width × height` lattice of point masses, with points of type `P`.
pub struct Grid<P> {
    width: usize,
    height: usize,
    positions: Vec<P>,
    velocities: Vec<P>,
    fixed: Vec<bool>,
    neighbours: Vec<Vec<usize>>,
}

impl<P> View for Grid<P> {
    type V = GridModel<P>;

    closed spec fn view(&self) -> GridModel<P> {
        GridModel {
            width: self.width as nat,
            height: self.height as nat,
            positions: self.positions@,
            velocities: self.velocities@,
            fixed: self.fixed@,
            neighbours: lists_view(self.neighbours@),
        }
    }
}

impl<P: Copy> Grid<P> {
    /// The lattice is well formed.
    pub open spec fn wf(&self) -> bool {
        self@.wf()
    }

    /// Creates a `width × height` lattice: node `x * height + y` sits at
    /// `place(x - width / 2, LAYOUT_Y_OFFSET + y - height / 2)`, every
    /// velocity is `rest`, no node is fixed, and the adjacency list is built.
    pub fn new<F: Fn(i64, i64) -> P>(width: usize, height: usize, place: F, rest: P) -> (r: Result<
        Grid<P>,
        GridError,
    >)
        requires
            forall|a: i64, b: i64| place.requires((a, b)),
        ensures
            width == 0 || height == 0 ==> r == Err::<Grid<P>, GridError>(GridError::ZeroDimension),
            width > 0 && height > 0 && width * height > isize::MAX ==> r == Err::<
                Grid<P>,
                GridError,
            >(GridError::TooLarge),
            width > 0 && height > 0 && width * height <= isize::MAX ==> r is Ok,
            r matches Ok(g) ==> {
                &&& g.wf()
                &&& g@.width == width
                &&& g@.height == height
                &&& forall|i: int|
                    0 <= i < g@.len() ==> place.ensures(
                        (
                            layout_x(width as int, i / height as int) as i64,
                            layout_y(height as int, i % height as int) as i64,
                        ),
                        #[trigger] g@.positions[i],
                    )
                &&& forall|i: int| 0 <= i < g@.len() ==> #[trigger] g@.velocities[i] == rest
                &&& forall|i: int| 0 <= i < g@.len() ==> !#[trigger] g@.fixed[i]
            },
    {
        if width == 0 || height == 0 {
            return Err(GridError::ZeroDimension);
        }
        let size = match width.checked_mul(height) {
            Some(n) => n,
            None => {
                return Err(GridError::TooLarge);
            },
        };
        if size > isize::MAX as usize {
            return Err(GridError::TooLarge);
        }
        let ghost (w, h) = (width as int, height as int);
        let half_w = (width / 2) as i64;
        let half_h = (height / 2) as i64;
        let mut positions: Vec<P> = Vec::new();
        let mut velocities: Vec<P> = Vec::new();
        let mut fixed: Vec<bool> = Vec::new();
        let mut x: usize = 0;
        while x < width
            invariant
                x <= width,
                w == width,
                h == height,
                width > 0,
                height > 0,
                size == width * height,
                size <= isize::MAX,
                half_w == width / 2,
                half_h == height / 2,
                forall|a: i64, b: i64| place.requires((a, b)),
                positions.len() == x * height,
                velocities.len() == x * height,
                fixed.len() == x * height,
                forall|i: int|
                    0 <= i < positions.len() ==> place.ensures(
                        (layout_x(w, i / h) as i64, layout_y(h, i % h) as i64),
                        #[trigger] positions@[i],
                    ),
                forall|i: int| 0 <= i < velocities.len() ==> #[trigger] velocities@[i] == rest,
                forall|i: int| 0 <= i < fixed.len() ==> !#[trigger] fixed@[i],
            decreases width - x,
        {
            let mut y: usize = 0;
            while y < height
                invariant
                    x < width,
                    y <= height,
                    w == width,
                    h == height,
                    width > 0,
                    height > 0,
                    size == width * height,
                    size <= isize::MAX,
                    half_w == width / 2,
                    half_h == height / 2,
                    forall|a: i64, b: i64| place.requires((a, b)),
                    positions.len() == x * height + y,
                    velocities.len() == x * height + y,
                    fixed.len() == x * height + y,
                    forall|i: int|
                        0 <= i < positions.len() ==> place.ensures(
                            (layout_x(w, i / h) as i64, layout_y(h, i % h) as i64),
                            #[trigger] positions@[i],
                        ),
                    forall|i: int|
                        0 <= i < velocities.len() ==> #[trigger] velocities@[i] == rest,
                    forall|i: int| 0 <= i < fixed.len() ==> !#[trigger] fixed@[i],
                decreases height - y,
            {
                proof {
                    lemma_index_in_range(w, h, x as int, y as int);
                }
                let px = x as i64 - half_w;
                let py = y as i64 - half_h + LAYOUT_Y_OFFSET;
                let p = place(px, py);
                positions.push(p);
                velocities.push(rest);
                fixed.push(false);
                y += 1;
            }
            assert(x * height + height == (x + 1) * height) by (nonlinear_arith);
            x += 1;
        }
        let neighbours = build_neighbours(width, height);
        Ok(Grid { width, height, positions, velocities, fixed, neighbours })
    }

    /// Number of columns.
    pub fn width(&self) -> (r: usize)
        ensures
            r == self@.width,
    {
        self.width
    }

    /// Number of rows.
    pub fn height(&self) -> (r: usize)
        ensures
            r == self@.height,
    {
        self.height
    }

    /// Number of nodes.
    pub fn node_count(&self) -> (r: usize)
        requires
            self.wf(),
        ensures
            r == self@.len(),
    {
        self.positions.len()
    }

    /// Current node positions, by index.
    pub fn positions(&self) -> (r: &Vec<P>)
        ensures
            r@ == self@.positions,
    {
        &self.positions
    }

    /// Current node velocities, by index.
    pub fn velocities(&self) -> (r: &Vec<P>)
        ensures
            r@ == self@.velocities,
    {
        &self.velocities
    }

    /// Anchor flags, by index.
    pub fn fixed(&self) -> (r: &Vec<bool>)
        ensures
            r@ == self@.fixed,
    {
        &self.fixed
    }

    /// The adjacency list, by index.
    pub fn neighbours(&self) -> (r: &Vec<Vec<usize>>)
        ensures
            lists_view(r@) == self@.neighbours,
    {
        &self.neighbours
    }

    /// Linear index of the node at `(x, y)`; the coordinates are recovered
    /// from it by division and remainder by the height.
    pub fn get_index(&self, x: usize, y: usize) -> (r: usize)
        requires
            self.wf(),
            x < self@.width,
            y < self@.height,
        ensures
            r as int == index_of(self@.height as int, x as int, y as int),
            r < self@.len(),
            r as int / self@.height as int == x,
            r as int % self@.height as int == y,
    {
        proof {
            lemma_index_in_range(self.width as int, self.height as int, x as int, y as int);
        }
        grid_index(self.width, self.height, x, y)
    }

    /// Rebuilds the adjacency list from the dimensions. The graph depends on
    /// the dimensions alone, so the lattice is unchanged.
    pub fn get_neighbors(&mut self)
        requires
            old(self).wf(),
        ensures
            final(self).wf(),
            final(self)@ == old(self)@,
    {
        self.neighbours = build_neighbours(self.width, self.height);
    }

    /// Marks the nodes at `indices` as anchors. If any index is out of range
    /// nothing is marked and `IndexOutOfRange` is returned.
    pub fn fix_nodes(&mut self, indices: &Vec<usize>) -> (r: Result<(), GridError>)
        requires
            old(self).wf(),
        ensures
            final(self).wf(),
            (exists|k: int| 0 <= k < indices.len() && indices@[k] >= old(self)@.len()) ==> r == Err::<
                (),
                GridError,
            >(GridError::IndexOutOfRange) && final(self)@ == old(self)@,
            (forall|k: int| 0 <= k < indices.len() ==> indices@[k] < old(self)@.len()) ==> {
                &&& r is Ok
                &&& final(self)@ == (GridModel {
                    fixed: Seq::new(
                        old(self)@.len(),
                        |i: int| old(self)@.fixed[i] || indices@.contains(i as usize),
                    ),
                    ..old(self)@
                })
            },
    {
        let n = self.fixed.len();
        let ghost before = self@;
        let mut k: usize = 0;
        while k < indices.len()
            invariant
                k <= indices.len(),
                n == self@.len(),
                self.wf(),
                self@ == before,
                before == old(self)@,
                forall|j: int| 0 <= j < k ==> indices@[j] < n,
            decreases indices.len() - k,
        {
            if indices[k] >= n {
                return Err(GridError::IndexOutOfRange);
            }
            k += 1;
        }
        assert(self.fixed@ =~= Seq::new(
            before.len(),
            |i: int| before.fixed[i] || indices@.take(0).contains(i as usize),
        ));
        let mut k: usize = 0;
        while k < indices.len()
            invariant
                k <= indices.len(),
                n == before.len(),
                before == old(self)@,
                self.wf(),
                forall|j: int| 0 <= j < indices.len() ==> indices@[j] < n,
                self@ == (GridModel {
                    fixed: Seq::new(
                        before.len(),
                        |i: int| before.fixed[i] || indices@.take(k as int).contains(i as usize),
                    ),
                    ..before
                }),
            decreases indices.len() - k,
        {
            let idx = indices[k];
            self.fixed[idx] = true;
            proof {
                assert(indices@.take(k + 1) == indices@.take(k as int).push(idx));
                assert forall|i: int| 0 <= i < n implies #[trigger] self.fixed@[i] == (before.fixed[i]
                    || indices@.take(k + 1).contains(i as usize)) by {
                    vstd::seq_lib::lemma_seq_contains_after_push(
                        indices@.take(k as int),
                        idx,
                        i as usize,
                    );
                }
                assert(self.fixed@ =~= Seq::new(
                    before.len(),
                    |i: int| before.fixed[i] || indices@.take(k + 1).contains(i as usize),
                ));
            }
            k += 1;
        }
        assert(indices@.take(indices.len() as int) =~= indices@);
        Ok(())
    }

    /// The line list of the lattice: for every edge `(i, j)` of the
    /// adjacency graph, once, the endpoints `positions[i]`, `positions[j]`.
    pub fn create_grid(&self) -> (r: Vec<Vertex<P>>)
        requires
            self.wf(),
        ensures
            r@ == edge_segments(self@.positions, self@.neighbours, self@.len() as int),
    {
        let n = self.positions.len();
        let mut lines: Vec<Vertex<P>> = Vec::new();
        let mut i: usize = 0;
        while i < n
            invariant
                i <= n,
                n == self@.len(),
                self.wf(),
                lines@ == edge_segments(self@.positions, self@.neighbours, i as int),
            decreases n - i,
        {
            assert(lists_view(self.neighbours@).len() == self.neighbours@.len());
            let row = &self.neighbours[i];
            let ghost nrow = self@.neighbours[i as int];
            assert(nrow == crate::topology::row_view(self.neighbours@[i as int]@));
            let ghost start = lines@;
            let mut k: usize = 0;
            while k < row.len()
                invariant
                    i < n,
                    n == self@.len(),
                    self.wf(),
                    k <= row.len(),
                    nrow == crate::topology::row_view(row@),
                    nrow == self@.neighbours[i as int],
                    start == edge_segments(self@.positions, self@.neighbours, i as int),
                    lines@ == start + node_segments(self@.positions, i as int, nrow.take(k as int)),
                decreases row.len() - k,
            {
                let j = row[k];
                assert(nrow.take(k + 1).drop_last() =~= nrow.take(k as int));
                proof {
                    assert(nrow[k as int] == j as int);
                    nrow.lemma_index_contains(k as int);
                    assert(self@.neighbours[i as int].contains(j as int));
                    crate::topology::lemma_adjacency_symmetric(
                        self@.width as int,
                        self@.height as int,
                        i as int,
                        j as int,
                    );
                }
                if i < j {
                    lines.push(Vertex { position: self.positions[i] });
                    lines.push(Vertex { position: self.positions[j] });
                }
                k += 1;
            }
            assert(nrow.take(row.len() as int) =~= nrow);
            i += 1;
        }
        lines
    }

    /// Replaces the positions and velocities wholesale with a step's output.
    /// Anchors keep their position and velocity whatever the snapshot holds
    /// for them. A snapshot whose lengths differ from the node count is
    /// refused and the lattice is left unchanged.
    pub fn commit_step(&mut self, positions: Vec<P>, velocities: Vec<P>) -> (r: Result<
        (),
        GridError,
    >)
        requires
            old(self).wf(),
        ensures
            final(self).wf(),
            r is Err <==> positions.len() != old(self)@.len() || velocities.len()
                != old(self)@.len(),
            r is Err ==> r == Err::<(), GridError>(GridError::SnapshotMismatch) && final(self)@
                == old(self)@,
            r is Ok ==> final(self)@ == old(self)@.after_step(positions@, velocities@),
    {
        let n = self.fixed.len();
        if positions.len() != n || velocities.len() != n {
            return Err(GridError::SnapshotMismatch);
        }
        let mut next_positions: Vec<P> = Vec::new();
        let mut next_velocities: Vec<P> = Vec::new();
        let mut i: usize = 0;
        while i < n
            invariant
                i <= n,
                n == self@.len(),
                self.wf(),
                self@ == old(self)@,
                positions.len() == n,
                velocities.len() == n,
                next_positions.len() == i,
                next_velocities.len() == i,
                forall|j: int|
                    0 <= j < i ==> #[trigger] next_positions@[j] == if self@.fixed[j] {
                        self@.positions[j]
                    } else {
                        positions@[j]
                    },
                forall|j: int|
                    0 <= j < i ==> #[trigger] next_velocities@[j] == if self@.fixed[j] {
                        self@.velocities[j]
                    } else {
                        velocities@[j]
                    },
            decreases n - i,
        {
            if self.fixed[i] {
                next_positions.push(self.positions[i]);
                next_velocities.push(self.velocities[i]);
            } else {
                next_positions.push(positions[i]);
                next_velocities.push(velocities[i]);
            }
            i += 1;
        }
        self.positions = next_positions;
        self.velocities = next_velocities;
        assert(self.positions@ =~= old(self)@.after_step(positions@, velocities@).positions);
        assert(self.velocities@ =~= old(self)@.after_step(positions@, velocities@).velocities);
        Ok(())
    }
}

/// Every per-node array of a well-formed lattice has one entry per node.
pub proof fn lemma_array_lengths<P>(g: GridModel<P>)
    requires
        g.wf(),
    ensures
        g.positions.len() == g.width * g.height,
        g.velocities.len() == g.width * g.height,
        g.fixed.len() == g.width * g.height,
        g.neighbours.len() == g.width * g.height,
{
}

/// Adjacency is symmetric: if `j` is a neighbour of `i` then `j` is a node
/// and `i` is a neighbour of `j`.
pub proof fn lemma_neighbours_symmetric<P>(g: GridModel<P>, i: int, j: int)
    requires
        g.wf(),
        0 <= i < g.len(),
        g.neighbours[i].contains(j),
    ensures
        0 <= j < g.len(),
        g.neighbours[j].contains(i),
{
    crate::topology::lemma_adjacency_symmetric(g.width as int, g.height as int, i, j);
}

/// On a lattice of at least two columns and two rows, corners have two
/// neighbours, other border nodes three and interior nodes four; the single
/// node of a `1 × 1` lattice has none.
pub proof fn lemma_degree_distribution<P>(g: GridModel<P>, x: int, y: int)
    requires
        g.wf(),
        0 <= x < g.width,
        0 <= y < g.height,
    ensures
        ({
            let w = g.width as int;
            let h = g.height as int;
            let degree = g.neighbours[index_of(h, x, y)].len();
            let on_column_border = x == 0 || x == w - 1;
            let on_row_border = y == 0 || y == h - 1;
            &&& w >= 2 && h >= 2 && on_column_border && on_row_border ==> degree == 2
            &&& w >= 2 && h >= 2 && (on_column_border != on_row_border) ==> degree == 3
            &&& w >= 2 && h >= 2 && !on_column_border && !on_row_border ==> degree == 4
            &&& w == 1 && h == 1 ==> degree == 0
        }),
{
    crate::topology::lemma_degree(g.width as int, g.height as int, x, y);
}

/// A step keeps every anchor's position and velocity, and the lattice stays
/// well formed.
pub proof fn lemma_step_keeps_anchors<P>(g: GridModel<P>, positions: Seq<P>, velocities: Seq<P>)
    requires
        g.wf(),
    ensures
        g.after_step(positions, velocities).wf(),
        g.keeps_anchors(g.after_step(positions, velocities)),
{
}

/// Over any number of steps, whatever each step's output, an anchor's
/// position and velocity stay those it had when the run began.
pub proof fn lemma_anchors_persist<P>(
    history: Seq<GridModel<P>>,
    positions: Seq<Seq<P>>,
    velocities: Seq<Seq<P>>,
    i: int,
)
    requires
        history.len() > 0,
        history[0].wf(),
        positions.len() >= history.len() - 1,
        velocities.len() >= history.len() - 1,
        forall|k: int|
            0 <= k < history.len() - 1 ==> history[k + 1] == #[trigger] history[k].after_step(
                positions[k],
                velocities[k],
            ),
        0 <= i < history[0].len(),
        history[0].fixed[i],
    ensures
        history.last().positions[i] == history[0].positions[i],
        history.last().velocities[i] == history[0].velocities[i],
    decreases history.len(),
{
    if history.len() > 1 {
        let earlier = history.drop_last();
        assert forall|k: int| 0 <= k < earlier.len() - 1 implies earlier[k + 1]
            == #[trigger] earlier[k].after_step(positions[k], velocities[k]) by {
            assert(history[k + 1] == history[k].after_step(positions[k], velocities[k]));
        }
        lemma_anchors_persist(earlier, positions, velocities, i);
        let m = history.len() - 2;
        assert(earlier.last() == history[m]);
        lemma_wf_along(history, positions, velocities, m);
        lemma_step_keeps_anchors(history[m], positions[m], velocities[m]);
        assert(history[m + 1] == history[m].after_step(positions[m], velocities[m]));
        assert(history.last() == history[m + 1]);
        assert(history[m].wf() && history[m].fixed == history[0].fixed);
        assert(history[m].fixed[i]);
        assert(history[m].keeps_anchors(history[m + 1]));
    }
}

/// Every lattice along a run of steps is well formed and has the anchors of
/// the first.
proof fn lemma_wf_along<P>(
    history: Seq<GridModel<P>>,
    positions: Seq<Seq<P>>,
    velocities: Seq<Seq<P>>,
    k: int,
)
    requires
        history.len() > 0,
        history[0].wf(),
        forall|j: int|
            0 <= j < history.len() - 1 ==> history[j + 1] == #[trigger] history[j].after_step(
                positions[j],
                velocities[j],
            ),
        0 <= k < history.len(),
    ensures
        history[k].wf(),
        history[k].fixed == history[0].fixed,
    decreases k,
{
    if k > 0 {
        lemma_wf_along(history, positions, velocities, k - 1);
        lemma_step_keeps_anchors(history[k - 1], positions[k - 1], velocities[k - 1]);
        assert(history[k] == history[k - 1].after_step(positions[k - 1], velocities[k - 1]));
    }
}

/// The neighbour graph depends on the dimensions alone: two well-formed
/// lattices of the same dimensions have identical adjacency lists.
pub proof fn lemma_topology_reproducible<P>(a: GridModel<P>, b: GridModel<P>)
    requires
        a.wf(),
        b.wf(),
        a.width == b.width,
        a.height == b.height,
    ensures
        a.neighbours == b.neighbours,
{
}

} // verus!
