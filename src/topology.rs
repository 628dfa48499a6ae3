//! Node indexing and the four-connected neighbour graph of a `width × height`
//! lattice.

use vstd::arithmetic::div_mod::lemma_fundamental_div_mod_converse;
use vstd::prelude::*;

verus! {

/// Linear index of the node at grid coordinates `(x, y)`.
pub open spec fn index_of(height: int, x: int, y: int) -> int {
    x * height + y
}

/// Neighbours of `(x, y)`, in the order right, left, up, down; each present
/// only when its coordinate lies inside the lattice.
pub open spec fn neighbours_of(width: int, height: int, x: int, y: int) -> Seq<int> {
    let s0 = Seq::<int>::empty();
    let s1 = if x + 1 < width { s0.push(index_of(height, x + 1, y)) } else { s0 };
    let s2 = if x > 0 { s1.push(index_of(height, x - 1, y)) } else { s1 };
    let s3 = if y + 1 < height { s2.push(index_of(height, x, y + 1)) } else { s2 };
    if y > 0 { s3.push(index_of(height, x, y - 1)) } else { s3 }
}

/// The adjacency list of a `width × height` lattice: entry `i` lists the
/// neighbours of the node at `(i / height, i % height)`.
pub open spec fn adjacency(width: int, height: int) -> Seq<Seq<int>> {
    Seq::new(
        (width * height) as nat,
        |i: int| neighbours_of(width, height, i / height, i % height),
    )
}

/// An index list seen as a sequence of integers.
pub open spec fn row_view(row: Seq<usize>) -> Seq<int> {
    row.map_values(|e: usize| e as int)
}

/// An adjacency list seen as a sequence of integer sequences.
pub open spec fn lists_view(lists: Seq<Vec<usize>>) -> Seq<Seq<int>> {
    Seq::new(lists.len(), |i: int| row_view(lists[i]@))
}

/// The node at `(x, y)` lies at `x * height + y`, and that index maps back
/// to the same coordinates.
pub proof fn lemma_index_in_range(width: int, height: int, x: int, y: int)
    requires
        0 <= x < width,
        0 <= y < height,
    ensures
        0 <= index_of(height, x, y) < width * height,
        index_of(height, x, y) / height == x,
        index_of(height, x, y) % height == y,
{
    assert(0 <= x * height + y < width * height) by (nonlinear_arith)
        requires
            0 <= x < width,
            0 <= y < height,
    ;
    lemma_fundamental_div_mod_converse(x * height + y, height, x, y);
}

/// Every index below `width * height` is the index of the coordinates
/// `(i / height, i % height)`, both inside the lattice.
pub proof fn lemma_coordinates_in_range(width: int, height: int, i: int)
    requires
        width > 0,
        height > 0,
        0 <= i < width * height,
    ensures
        0 <= i / height < width,
        0 <= i % height < height,
        index_of(height, i / height, i % height) == i,
{
    vstd::arithmetic::div_mod::lemma_fundamental_div_mod(i, height);
    let x = i / height;
    let y = i % height;
    assert(0 <= x) by (nonlinear_arith)
        requires
            i >= 0,
            height > 0,
            x == i / height,
    ;
    assert(x < width) by (nonlinear_arith)
        requires
            i == height * x + y,
            0 <= y < height,
            i < width * height,
            height > 0,
    ;
    vstd::arithmetic::mul::lemma_mul_is_commutative(x, height);
}

/// Index of `(x, y)` on a lattice of `width * height` nodes.
pub fn grid_index(width: usize, height: usize, x: usize, y: usize) -> (r: usize)
    requires
        x < width,
        y < height,
        width * height <= usize::MAX,
    ensures
        r as int == index_of(height as int, x as int, y as int),
        r < width * height,
{
    proof {
        lemma_index_in_range(width as int, height as int, x as int, y as int);
    }
    x * height + y
}

/// `(x2, y2)` is one step from `(x, y)` along an axis.
pub open spec fn adjacent(x: int, y: int, x2: int, y2: int) -> bool {
    ||| x2 == x + 1 && y2 == y
    ||| x2 == x - 1 && y2 == y
    ||| x2 == x && y2 == y + 1
    ||| x2 == x && y2 == y - 1
}

/// Number of neighbours that a node at `(x, y)` has inside the lattice.
pub open spec fn degree_of(width: int, height: int, x: int, y: int) -> int {
    (if x + 1 < width { 1int } else { 0 }) + (if x > 0 { 1int } else { 0 }) + (if y + 1 < height {
        1int
    } else {
        0
    }) + (if y > 0 { 1int } else { 0 })
}

/// Every listed neighbour of `(x, y)` is a node of the lattice one step away.
proof fn lemma_members_adjacent(width: int, height: int, x: int, y: int, j: int)
    requires
        0 <= x < width,
        0 <= y < height,
        neighbours_of(width, height, x, y).contains(j),
    ensures
        0 <= j < width * height,
        0 <= j / height < width,
        0 <= j % height < height,
        adjacent(x, y, j / height, j % height),
{
    broadcast use vstd::seq_lib::lemma_seq_contains_after_push;
    broadcast use vstd::seq_lib::lemma_seq_empty_contains_nothing;

    if x + 1 < width && j == index_of(height, x + 1, y) {
        lemma_index_in_range(width, height, x + 1, y);
    } else if x > 0 && j == index_of(height, x - 1, y) {
        lemma_index_in_range(width, height, x - 1, y);
    } else if y + 1 < height && j == index_of(height, x, y + 1) {
        lemma_index_in_range(width, height, x, y + 1);
    } else {
        lemma_index_in_range(width, height, x, y - 1);
    }
}

/// Every node of the lattice one step away from `(x, y)` is listed among its
/// neighbours.
proof fn lemma_adjacent_listed(width: int, height: int, x: int, y: int, x2: int, y2: int)
    requires
        0 <= x < width,
        0 <= y < height,
        0 <= x2 < width,
        0 <= y2 < height,
        adjacent(x, y, x2, y2),
    ensures
        neighbours_of(width, height, x, y).contains(index_of(height, x2, y2)),
{
    broadcast use vstd::seq_lib::lemma_seq_contains_after_push;

}

/// The adjacency list is symmetric: `j` is a neighbour of `i` exactly when
/// `i` is a neighbour of `j`, and every listed neighbour is a node.
pub proof fn lemma_adjacency_symmetric(width: int, height: int, i: int, j: int)
    requires
        width > 0,
        height > 0,
        0 <= i < width * height,
        adjacency(width, height)[i].contains(j),
    ensures
        0 <= j < width * height,
        adjacency(width, height)[j].contains(i),
{
    lemma_coordinates_in_range(width, height, i);
    let (x, y) = (i / height, i % height);
    lemma_members_adjacent(width, height, x, y, j);
    lemma_adjacent_listed(width, height, j / height, j % height, x, y);
}

/// Each node has one neighbour for each side on which the lattice goes on.
pub proof fn lemma_degree(width: int, height: int, x: int, y: int)
    requires
        0 <= x < width,
        0 <= y < height,
    ensures
        adjacency(width, height)[index_of(height, x, y)].len() == degree_of(width, height, x, y),
{
    lemma_index_in_range(width, height, x, y);
}

/// Neighbour indices of `(x, y)`, in the order of `neighbours_of`.
fn node_neighbours(width: usize, height: usize, x: usize, y: usize) -> (r: Vec<usize>)
    requires
        x < width,
        y < height,
        width * height <= usize::MAX,
    ensures
        row_view(r@) == neighbours_of(width as int, height as int, x as int, y as int),
{
    let ghost (w, h, gx, gy) = (width as int, height as int, x as int, y as int);
    let mut r: Vec<usize> = Vec::new();
    let ghost mut s = Seq::<int>::empty();
    if x + 1 < width {
        r.push(grid_index(width, height, x + 1, y));
        proof {
            s = s.push(index_of(h, gx + 1, gy));
        }
    }
    assert(row_view(r@) =~= s);
    if x > 0 {
        r.push(grid_index(width, height, x - 1, y));
        proof {
            s = s.push(index_of(h, gx - 1, gy));
        }
    }
    assert(row_view(r@) =~= s);
    if y + 1 < height {
        r.push(grid_index(width, height, x, y + 1));
        proof {
            s = s.push(index_of(h, gx, gy + 1));
        }
    }
    assert(row_view(r@) =~= s);
    if y > 0 {
        r.push(grid_index(width, height, x, y - 1));
        proof {
            s = s.push(index_of(h, gx, gy - 1));
        }
    }
    assert(row_view(r@) =~= s);
    r
}

/// Builds the adjacency list of a `width × height` lattice.
pub fn build_neighbours(width: usize, height: usize) -> (r: Vec<Vec<usize>>)
    requires
        width > 0,
        height > 0,
        width * height <= usize::MAX,
    ensures
        lists_view(r@) == adjacency(width as int, height as int),
{
    let ghost (w, h) = (width as int, height as int);
    let mut lists: Vec<Vec<usize>> = Vec::new();
    let mut x: usize = 0;
    while x < width
        invariant
            x <= width,
            width > 0,
            height > 0,
            w == width,
            h == height,
            width * height <= usize::MAX,
            lists.len() == x * height,
            forall|i: int|
                0 <= i < lists.len() ==> #[trigger] row_view(lists@[i]@) == adjacency(w, h)[i],
        decreases width - x,
    {
        let mut y: usize = 0;
        while y < height
            invariant
                x < width,
                y <= height,
                width > 0,
                height > 0,
                w == width,
                h == height,
                width * height <= usize::MAX,
                lists.len() == x * height + y,
                forall|i: int|
                    0 <= i < lists.len() ==> #[trigger] row_view(lists@[i]@) == adjacency(w, h)[i],
            decreases height - y,
        {
            let row = node_neighbours(width, height, x, y);
            proof {
                lemma_index_in_range(w, h, x as int, y as int);
            }
            lists.push(row);
            y += 1;
        }
        assert(x * height + height == (x + 1) * height) by (nonlinear_arith);
        x += 1;
    }
    assert(lists_view(lists@) =~= adjacency(w, h));
    lists
}

} // verus!
