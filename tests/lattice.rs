use softbody::grid::LAYOUT_Y_OFFSET;
use softbody::schedule::substeps_per_tick;
use softbody::{Grid, GridError};

type Point = (f32, f32);

fn lattice(width: usize, height: usize) -> Grid<Point> {
    Grid::new(width, height, |x: i64, y: i64| (x as f32, y as f32), (0.0, 0.0)).unwrap()
}

fn coordinates(width: usize, height: usize) -> Grid<(i64, i64)> {
    Grid::new(width, height, |x: i64, y: i64| (x, y), (0, 0)).unwrap()
}

#[test]
fn new_rejects_zero_width() {
    let r = Grid::new(0, 5, |x: i64, y: i64| (x, y), (0, 0));
    assert_eq!(r.err(), Some(GridError::ZeroDimension));
}

#[test]
fn new_rejects_zero_height() {
    let r = Grid::new(5, 0, |x: i64, y: i64| (x, y), (0, 0));
    assert_eq!(r.err(), Some(GridError::ZeroDimension));
}

#[test]
fn new_rejects_oversized_lattice() {
    let r = Grid::new(usize::MAX, 2, |x: i64, y: i64| (x, y), (0, 0));
    assert_eq!(r.err(), Some(GridError::TooLarge));
    let r = Grid::new((isize::MAX as usize) / 2 + 1, 2, |x: i64, y: i64| (x, y), (0, 0));
    assert_eq!(r.err(), Some(GridError::TooLarge));
}

#[test]
fn new_lays_out_centred_grid() {
    let g = coordinates(3, 2);
    assert_eq!(g.width(), 3);
    assert_eq!(g.height(), 2);
    assert_eq!(g.node_count(), 6);
    let expected: Vec<(i64, i64)> = vec![
        (-1, LAYOUT_Y_OFFSET - 1),
        (-1, LAYOUT_Y_OFFSET),
        (0, LAYOUT_Y_OFFSET - 1),
        (0, LAYOUT_Y_OFFSET),
        (1, LAYOUT_Y_OFFSET - 1),
        (1, LAYOUT_Y_OFFSET),
    ];
    assert_eq!(g.positions(), &expected);
    assert!(g.velocities().iter().all(|v| *v == (0, 0)));
    assert!(g.fixed().iter().all(|f| !*f));
}

#[test]
fn two_by_one_layout_matches_equilibrium_setup() {
    let g = lattice(2, 1);
    assert_eq!(g.positions(), &vec![(-1.0, 10.0), (0.0, 10.0)]);
}

#[test]
fn array_lengths_match_node_count() {
    for (w, h) in [(1usize, 1usize), (2, 3), (30, 30), (7, 1)] {
        let g = lattice(w, h);
        assert_eq!(g.positions().len(), w * h);
        assert_eq!(g.velocities().len(), w * h);
        assert_eq!(g.fixed().len(), w * h);
        assert_eq!(g.neighbours().len(), w * h);
    }
}

#[test]
fn index_is_column_major() {
    let g = lattice(4, 3);
    assert_eq!(g.get_index(0, 0), 0);
    assert_eq!(g.get_index(0, 2), 2);
    assert_eq!(g.get_index(1, 0), 3);
    assert_eq!(g.get_index(3, 2), 11);
    for x in 0..4 {
        for y in 0..3 {
            let i = g.get_index(x, y);
            assert_eq!((i / 3, i % 3), (x, y));
        }
    }
}

#[test]
fn neighbours_in_fixed_order() {
    let g = lattice(3, 3);
    // centre (1, 1): right, left, up, down
    assert_eq!(g.neighbours()[4], vec![7, 1, 5, 3]);
    // corner (0, 0): right, up
    assert_eq!(g.neighbours()[0], vec![3, 1]);
}

#[test]
fn adjacency_is_symmetric() {
    let g = lattice(5, 4);
    let n = g.neighbours();
    for i in 0..n.len() {
        for &j in &n[i] {
            assert!(n[j].contains(&i));
        }
    }
}

#[test]
fn degree_distribution() {
    let g = lattice(4, 3);
    for x in 0..4usize {
        for y in 0..3usize {
            let border_x = x == 0 || x == 3;
            let border_y = y == 0 || y == 2;
            let expected = match (border_x, border_y) {
                (true, true) => 2,
                (true, false) | (false, true) => 3,
                (false, false) => 4,
            };
            assert_eq!(g.neighbours()[g.get_index(x, y)].len(), expected);
        }
    }
    let single = lattice(1, 1);
    assert_eq!(single.neighbours()[0].len(), 0);
}

#[test]
fn rebuilding_neighbours_is_identical() {
    let mut g = lattice(6, 5);
    let first = g.neighbours().clone();
    g.get_neighbors();
    assert_eq!(g.neighbours(), &first);
    let other = lattice(6, 5);
    assert_eq!(other.neighbours(), &first);
}

#[test]
fn fix_nodes_marks_anchors() {
    let mut g = lattice(3, 3);
    let a = g.get_index(0, 2);
    let b = g.get_index(2, 2);
    assert_eq!(g.fix_nodes(&vec![a, b]), Ok(()));
    for i in 0..9 {
        assert_eq!(g.fixed()[i], i == a || i == b);
    }
}

#[test]
fn fix_nodes_rejects_out_of_range() {
    let mut g = lattice(3, 3);
    assert_eq!(g.fix_nodes(&vec![1, 9]), Err(GridError::IndexOutOfRange));
    assert!(g.fixed().iter().all(|f| !*f));
}

#[test]
fn commit_step_keeps_anchors_and_takes_free_nodes() {
    let mut g = lattice(2, 1);
    g.fix_nodes(&vec![0]).unwrap();
    let positions = vec![(5.0, 5.0), (6.0, 7.0)];
    let velocities = vec![(1.0, 1.0), (2.0, -3.0)];
    assert_eq!(g.commit_step(positions, velocities), Ok(()));
    assert_eq!(g.positions(), &vec![(-1.0, 10.0), (6.0, 7.0)]);
    assert_eq!(g.velocities(), &vec![(0.0, 0.0), (2.0, -3.0)]);
}

#[test]
fn commit_step_rejects_wrong_length() {
    let mut g = lattice(2, 2);
    let r = g.commit_step(vec![(1.0, 1.0)], vec![(0.0, 0.0); 4]);
    assert_eq!(r, Err(GridError::SnapshotMismatch));
    let r = g.commit_step(vec![(1.0, 1.0); 4], vec![(0.0, 0.0); 5]);
    assert_eq!(r, Err(GridError::SnapshotMismatch));
    assert_eq!(g.positions(), lattice(2, 2).positions());
}

#[test]
fn anchors_unchanged_over_many_steps() {
    let mut g = lattice(3, 2);
    let anchor = g.get_index(2, 1);
    g.fix_nodes(&vec![anchor]).unwrap();
    let start = g.positions()[anchor];
    for step in 0..50 {
        let s = step as f32;
        let positions: Vec<Point> = (0..6).map(|i| (i as f32 + s, -s)).collect();
        let velocities: Vec<Point> = (0..6).map(|_| (s, s)).collect();
        g.commit_step(positions, velocities).unwrap();
        assert_eq!(g.positions()[anchor], start);
        assert_eq!(g.velocities()[anchor], (0.0, 0.0));
        assert_eq!(g.positions()[0], (s, -s));
    }
}

#[test]
fn create_grid_lists_each_edge_once() {
    let g = coordinates(2, 2);
    let lines: Vec<(i64, i64)> = g.create_grid().iter().map(|v| v.position).collect();
    // edges 0-2, 0-1, 1-3, 2-3
    let p = g.positions();
    assert_eq!(lines, vec![p[0], p[2], p[0], p[1], p[1], p[3], p[2], p[3]]);
}

#[test]
fn create_grid_on_single_row() {
    let g = lattice(2, 1);
    let lines = g.create_grid();
    assert_eq!(lines.len(), 2);
    assert_eq!(lines[0].position, (-1.0, 10.0));
    assert_eq!(lines[1].position, (0.0, 10.0));
    assert!(lattice(1, 1).create_grid().is_empty());
}

#[test]
fn create_grid_counts_all_edges() {
    let (w, h) = (30usize, 30usize);
    let g = lattice(w, h);
    let edges = (w - 1) * h + w * (h - 1);
    assert_eq!(g.create_grid().len(), 2 * edges);
}

#[test]
fn substeps_depend_on_height() {
    assert_eq!(substeps_per_tick(30), 20);
    assert_eq!(substeps_per_tick(99), 20);
    assert_eq!(substeps_per_tick(100), 1);
    assert_eq!(substeps_per_tick(1000), 1);
}
