use life::{Life, LifeGrid};

fn live_count<const W: usize, const H: usize>(g: &LifeGrid<W, H>) -> usize {
    g.rows().iter().map(|row| row.iter().filter(|c| **c).count()).sum()
}

fn with_cells<const W: usize, const H: usize>(cells: &[(usize, usize)]) -> LifeGrid<W, H> {
    let mut g = LifeGrid::<W, H>::new();
    for &(x, y) in cells {
        g.set_cell(x, y, true);
    }
    g
}

fn filled<const W: usize, const H: usize>() -> LifeGrid<W, H> {
    let mut g = LifeGrid::<W, H>::new();
    for y in 0..H {
        for x in 0..W {
            g.set_cell(x, y, true);
        }
    }
    g
}

#[test]
fn dimensions_are_the_type_parameters() {
    let g = LifeGrid::<64, 36>::default();
    assert_eq!(g.width(), 64);
    assert_eq!(g.height(), 36);
    assert_eq!(live_count(&g), 0);
}

#[test]
fn set_cell_then_read_back() {
    let mut g = LifeGrid::<5, 4>::new();
    g.set_cell(4, 3, true);
    assert!(g.is_alive(4, 3));
    assert!(g.rows()[3][4]);
    assert!(!g.is_alive(3, 4));
    g.set_cell(4, 3, false);
    assert!(!g.is_alive(4, 3));
    assert_eq!(live_count(&g), 0);
}

#[test]
fn empty_grid_stays_empty() {
    let g = LifeGrid::<8, 6>::new();
    let mut next = filled::<8, 6>();
    g.next_generation(&mut next);
    assert_eq!(live_count(&next), 0);
}

#[test]
fn lone_cell_dies() {
    let g = with_cells::<7, 7>(&[(3, 3)]);
    assert_eq!(g.number_of_neighbors(3, 3), 0);
    let mut next = LifeGrid::<7, 7>::new();
    g.next_generation(&mut next);
    for y in 2..5 {
        for x in 2..5 {
            assert!(!next.is_alive(x, y));
        }
    }
    assert_eq!(live_count(&next), 0);
}

#[test]
fn block_is_a_still_life() {
    let g = with_cells::<6, 6>(&[(2, 2), (3, 2), (2, 3), (3, 3)]);
    for &(x, y) in &[(2, 2), (3, 2), (2, 3), (3, 3)] {
        assert_eq!(g.number_of_neighbors(x, y), 3);
    }
    let mut next = LifeGrid::<6, 6>::new();
    g.next_generation(&mut next);
    assert_eq!(next.rows(), g.rows());
}

#[test]
fn blinker_has_period_two() {
    let g = with_cells::<5, 5>(&[(1, 2), (2, 2), (3, 2)]);
    let mut once = LifeGrid::<5, 5>::new();
    g.next_generation(&mut once);
    assert_ne!(once.rows(), g.rows());
    assert!(once.is_alive(2, 1) && once.is_alive(2, 2) && once.is_alive(2, 3));
    assert_eq!(live_count(&once), 3);
    let mut twice = LifeGrid::<5, 5>::new();
    once.next_generation(&mut twice);
    assert_eq!(twice.rows(), g.rows());
}

#[test]
fn out_of_range_reads_are_dead_and_writes_ignored() {
    let mut g = filled::<4, 3>();
    assert!(!g.is_alive(4, 0));
    assert!(!g.is_alive(0, 3));
    assert!(!g.is_alive(usize::MAX, usize::MAX));
    let mut e = LifeGrid::<4, 3>::new();
    let before = *e.rows();
    e.set_cell(4, 0, true);
    e.set_cell(0, 3, true);
    e.set_cell(usize::MAX, 1, true);
    assert_eq!(*e.rows(), before);
    let before = *g.rows();
    g.set_cell(10, 10, false);
    assert_eq!(*g.rows(), before);
}

#[test]
fn corner_counting_does_not_wrap() {
    let g = with_cells::<6, 5>(&[(1, 1)]);
    assert_eq!(g.number_of_neighbors(0, 0), 1);
    let g = with_cells::<6, 5>(&[(1, 1), (5, 4), (5, 0), (0, 4)]);
    assert_eq!(g.number_of_neighbors(0, 0), 1);
    assert_eq!(g.number_of_neighbors(5, 4), 0);
}

#[test]
fn neighbor_counts_on_a_full_grid() {
    let g = filled::<3, 3>();
    assert_eq!(g.number_of_neighbors(1, 1), 8);
    assert_eq!(g.number_of_neighbors(0, 0), 3);
    assert_eq!(g.number_of_neighbors(1, 0), 5);
    assert_eq!(g.number_of_neighbors(2, 2), 3);
    assert_eq!(g.number_of_neighbors(5, 5), 0);
    assert_eq!(g.number_of_neighbors(3, 1), 3);
}

#[test]
fn full_grid_keeps_only_its_corners() {
    let g = filled::<3, 3>();
    let mut next = LifeGrid::<3, 3>::new();
    g.next_generation(&mut next);
    assert!(next.is_alive(0, 0) && next.is_alive(2, 0) && next.is_alive(0, 2) && next.is_alive(2, 2));
    assert_eq!(live_count(&next), 4);
}

#[test]
fn birth_on_three_and_stasis_on_two() {
    // (1, 1) is dead with three live neighbors: it is born.
    let g = with_cells::<4, 4>(&[(0, 0), (2, 0), (0, 2)]);
    let mut next = LifeGrid::<4, 4>::new();
    g.next_generation(&mut next);
    assert!(next.is_alive(1, 1));
    // A live cell with two live neighbors survives; a dead one stays dead.
    let g = with_cells::<5, 5>(&[(1, 1), (2, 2), (3, 3)]);
    let mut next = filled::<5, 5>();
    g.next_generation(&mut next);
    assert!(next.is_alive(2, 2));
    assert!(!next.is_alive(1, 1));
    assert!(!next.is_alive(3, 2));
}

#[test]
fn step_overwrites_the_whole_target() {
    let g = with_cells::<6, 4>(&[(1, 1), (2, 1), (1, 2), (2, 2)]);
    let mut next = filled::<6, 4>();
    g.next_generation(&mut next);
    assert_eq!(next.rows(), g.rows());
}

#[test]
fn deref_reads_and_writes_the_rows() {
    let mut g = LifeGrid::<4, 3>::new();
    g[2][3] = true;
    assert!(g.is_alive(3, 2));
    assert!((*g)[2][3]);
    assert_eq!(&*g, g.rows());
    g.set_cell(0, 1, true);
    assert!(g[1][0]);
    g[1][0] = false;
    assert!(!g.is_alive(0, 1));
}
