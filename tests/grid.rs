use lifegame::grid::Grid;
use lifegame::rule::{next_cell_state, wrap};

fn live_cells(grid: &Grid) -> Vec<(u32, u32)> {
    let mut r = Vec::new();
    for y in 0..grid.height() {
        for x in 0..grid.width() {
            if grid.get_cell((x, y)) {
                r.push((x, y));
            }
        }
    }
    r
}

fn grid_with(w: u32, h: u32, live: &[(u32, u32)]) -> Grid {
    let mut grid = Grid::new(w, h);
    for &pos in live {
        grid.set_cell(pos, true);
    }
    grid
}

#[test]
fn test_grid_iter() {
    assert!(true);

    let grid = Grid::new(2, 2);

    {
        let mut iter = grid.get_iter();
        assert!(iter.next() == Some(false));
        assert!(iter.next() == Some(false));
        assert!(iter.next() == Some(false));
        assert!(iter.next() == Some(false));
        assert!(iter.next() == None);
    }

    let mut iter = grid.get_iter();
    while let Some(item) = iter.next() {
        assert!(item == false);
    }
}

#[test]
fn wrap_at_the_boundaries() {
    for n in [1i64, 2, 3, 5, 16, 20] {
        assert_eq!(wrap(-1, n), n - 1);
        assert_eq!(wrap(0, n), 0);
        assert_eq!(wrap(n - 1, n), n - 1);
        assert_eq!(wrap(n, n), 0);
    }
    assert_eq!(wrap(2, 5), 2);
}

#[test]
fn position_and_index_round_trip() {
    let grid = Grid::new(3, 4);
    assert_eq!(grid.get_position_with_index(7), (1, 2));
    assert_eq!(grid.get_index_from_position((1, 2)), 7);
    assert_eq!(grid.get_position_with_index(11), (2, 3));
    for index in 0..12u32 {
        let pos = grid.get_position_with_index(index);
        assert!(pos.0 < 3 && pos.1 < 4);
        assert_eq!(grid.get_index_from_position(pos), index as usize);
    }
}

#[test]
fn fresh_grid_is_dead() {
    let grid = Grid::new(4, 3);
    assert_eq!(grid.width(), 4);
    assert_eq!(grid.height(), 3);
    assert!(live_cells(&grid).is_empty());
    assert_eq!(grid.new_cells(), vec![false; 12]);
}

#[test]
fn set_and_toggle() {
    let mut grid = Grid::new(3, 3);
    grid.set_cell((2, 1), true);
    assert_eq!(live_cells(&grid), vec![(2, 1)]);
    grid.set_cell((2, 1), false);
    assert!(live_cells(&grid).is_empty());

    grid.toggle_cell((0, 2));
    assert!(grid.get_cell((0, 2)));
    grid.toggle_cell((0, 2));
    assert!(!grid.get_cell((0, 2)));

    grid.set_cell((1, 1), true);
    grid.toggle_cell((1, 1));
    grid.toggle_cell((1, 1));
    assert_eq!(live_cells(&grid), vec![(1, 1)]);
}

#[test]
fn iter_gives_cells_in_row_major_order() {
    let grid = grid_with(3, 2, &[(1, 0), (0, 1), (2, 1)]);
    let mut iter = grid.get_iter();
    let mut n: u32 = 0;
    while let Some(b) = iter.next() {
        assert_eq!(b, grid.get_cell(grid.get_position_with_index(n)));
        n += 1;
    }
    assert_eq!(n, 6);
    assert_eq!(iter.next(), None);
    assert_eq!(iter.next(), None);
}

#[test]
fn rule_table() {
    for count in 0..=8u32 {
        assert_eq!(next_cell_state(true, count), count == 2 || count == 3);
        assert_eq!(next_cell_state(false, count), count == 3);
    }
}

#[test]
fn dead_grid_stays_dead() {
    let mut grid = Grid::new(3, 3);
    grid.next_generation();
    assert!(live_cells(&grid).is_empty());
}

#[test]
fn lone_cell_dies() {
    let mut grid = grid_with(3, 3, &[(1, 1)]);
    assert_eq!(grid.live_neighbors((1, 1)), 0);
    grid.next_generation();
    assert!(live_cells(&grid).is_empty());

    let mut grid = grid_with(6, 5, &[(3, 2)]);
    grid.next_generation();
    assert!(live_cells(&grid).is_empty());
}

#[test]
fn block_is_still() {
    let block = [(1, 1), (2, 1), (1, 2), (2, 2)];
    let mut grid = grid_with(4, 4, &block);
    grid.next_generation();
    assert_eq!(live_cells(&grid), vec![(1, 1), (2, 1), (1, 2), (2, 2)]);
}

#[test]
fn blinker_oscillates() {
    let mut grid = grid_with(5, 5, &[(1, 2), (2, 2), (3, 2)]);
    grid.next_generation();
    assert_eq!(live_cells(&grid), vec![(2, 1), (2, 2), (2, 3)]);
    grid.next_generation();
    assert_eq!(live_cells(&grid), vec![(1, 2), (2, 2), (3, 2)]);
}

#[test]
fn neighbours_across_the_edges() {
    let grid = grid_with(5, 5, &[(0, 0), (4, 0)]);
    assert_eq!(grid.live_neighbors((0, 0)), 1);
    assert_eq!(grid.live_neighbors((4, 0)), 1);
    // (0, 4) touches both through the bottom edge, (4, 4) through both edges.
    assert_eq!(grid.live_neighbors((0, 4)), 2);
    assert_eq!(grid.live_neighbors((4, 4)), 2);
    assert_eq!(grid.live_neighbors((2, 2)), 0);
}

#[test]
fn birth_across_the_edges() {
    // Three live cells around the corner (0, 0), each reached through an edge.
    let mut grid = grid_with(5, 5, &[(4, 4), (4, 0), (0, 4)]);
    assert_eq!(grid.live_neighbors((0, 0)), 3);
    grid.next_generation();
    assert!(grid.get_cell((0, 0)));
}

#[test]
fn randomize_mixes_values() {
    let mut grid = Grid::new(64, 64);
    grid.random_cells();
    assert_eq!(grid.width(), 64);
    assert_eq!(grid.height(), 64);
    let live = live_cells(&grid).len();
    assert!(live > 0 && live < 64 * 64);
}

#[test]
fn set_cells_writes_in_row_major_order() {
    let mut grid = Grid::new(3, 2);
    grid.set_cells(vec![true, false, false, false, true, true]);
    assert_eq!(grid.width(), 3);
    assert_eq!(grid.height(), 2);
    assert_eq!(live_cells(&grid), vec![(0, 0), (1, 1), (2, 1)]);
    grid.set_cells(vec![false; 6]);
    assert!(live_cells(&grid).is_empty());
}

#[test]
fn randomize_keeps_size() {
    let mut grid = Grid::new(5, 3);
    grid.random_cells();
    let mut iter = grid.get_iter();
    let mut n = 0;
    while iter.next().is_some() {
        n += 1;
    }
    assert_eq!(n, 15);
}

#[test]
fn lone_cell_dies_on_larger_grids() {
    for (w, h) in [(3u32, 3u32), (3, 7), (8, 4)] {
        for pos in [(0, 0), (w - 1, h - 1), (1, h - 1)] {
            let mut grid = grid_with(w, h, &[pos]);
            grid.next_generation();
            assert!(live_cells(&grid).is_empty());
        }
    }
}

#[test]
fn row_across_the_side_edge_turns() {
    for (w, h) in [(5u32, 5u32), (7, 6)] {
        let mut grid = grid_with(w, h, &[(w - 1, 0), (0, 0), (1, 0)]);
        grid.next_generation();
        assert_eq!(live_cells(&grid), vec![(0, 0), (0, 1), (0, h - 1)]);
        grid.next_generation();
        assert_eq!(live_cells(&grid), vec![(0, 0), (1, 0), (w - 1, 0)]);
    }
}
