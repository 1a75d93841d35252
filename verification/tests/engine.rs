use game_of_life::cell::Cell;
use game_of_life::grid::{GridError, Universe};

fn dead_grid(width: u32, height: u32) -> Universe {
    Universe::new(width, height, vec![Cell::Dead; (width * height) as usize])
}

fn alive_indices(u: &Universe) -> Vec<usize> {
    u.get_cells()
        .iter()
        .enumerate()
        .filter(|(_, c)| **c == Cell::Alive)
        .map(|(i, _)| i)
        .collect()
}

#[test]
fn new_sets_dimensions_and_cells() {
    let mut cells = vec![Cell::Dead; 6];
    cells[4] = Cell::Alive;
    let u = Universe::new(3, 2, cells);
    assert_eq!(u.width(), 3);
    assert_eq!(u.height(), 2);
    assert_eq!(u.get_cells().len(), 6);
    assert_eq!(alive_indices(&u), vec![4]);
    assert_eq!(u.cells().len(), 6);
}

#[test]
fn get_index_is_row_major() {
    let u = dead_grid(3, 2);
    assert_eq!(u.get_index(0, 0), 0);
    assert_eq!(u.get_index(0, 2), 2);
    assert_eq!(u.get_index(1, 0), 3);
    assert_eq!(u.get_index(1, 2), 5);
}

#[test]
fn toggle_cell_flips_one_cell() {
    let mut u = dead_grid(4, 4);
    assert_eq!(u.toggle_cell(2, 1), Ok(()));
    assert_eq!(alive_indices(&u), vec![2 * 4 + 1]);
    assert_eq!(u.toggle_cell(2, 1), Ok(()));
    assert_eq!(alive_indices(&u), Vec::<usize>::new());
}

#[test]
fn toggle_cell_rejects_out_of_range() {
    let mut u = dead_grid(4, 3);
    assert_eq!(u.toggle_cell(3, 0), Err(GridError::OutOfRange));
    assert_eq!(u.toggle_cell(0, 4), Err(GridError::OutOfRange));
    assert_eq!(alive_indices(&u), Vec::<usize>::new());
    assert_eq!(u.width(), 4);
    assert_eq!(u.height(), 3);
}

#[test]
fn toggle_cell_is_self_inverse() {
    let mut u = dead_grid(5, 5);
    u.toggle_cell(1, 1).unwrap();
    u.toggle_cell(3, 4).unwrap();
    let before = u.get_cells().to_vec();
    u.toggle_cell(3, 4).unwrap();
    u.toggle_cell(3, 4).unwrap();
    assert_eq!(u.get_cells(), before.as_slice());
}

#[test]
fn neighbor_count_is_at_most_eight() {
    let u = Universe::new(4, 4, vec![Cell::Alive; 16]);
    for row in 0..4 {
        for col in 0..4 {
            assert_eq!(u.live_neighbor_count(row, col), 8);
        }
    }
}

#[test]
fn neighbor_count_wraps_around_the_corners() {
    let mut u = dead_grid(4, 5);
    u.toggle_cell(0, 0).unwrap();
    assert_eq!(u.live_neighbor_count(4, 3), 1);
    assert_eq!(u.live_neighbor_count(4, 0), 1);
    assert_eq!(u.live_neighbor_count(0, 3), 1);
    assert_eq!(u.live_neighbor_count(2, 2), 0);
}

#[test]
fn clear_kills_every_cell_and_keeps_dimensions() {
    let mut u = dead_grid(3, 3);
    u.toggle_cell(0, 0).unwrap();
    u.toggle_cell(2, 2).unwrap();
    u.clear();
    assert_eq!(u.width(), 3);
    assert_eq!(u.height(), 3);
    assert_eq!(u.get_cells(), vec![Cell::Dead; 9].as_slice());
}

#[test]
fn set_width_resets_all_cells() {
    let mut u = dead_grid(3, 2);
    u.toggle_cell(1, 1).unwrap();
    u.set_width(5);
    assert_eq!(u.width(), 5);
    assert_eq!(u.height(), 2);
    assert_eq!(u.get_cells(), vec![Cell::Dead; 10].as_slice());
}

#[test]
fn set_height_resets_all_cells() {
    let mut u = dead_grid(3, 2);
    u.toggle_cell(1, 1).unwrap();
    u.set_height(4);
    assert_eq!(u.width(), 3);
    assert_eq!(u.height(), 4);
    assert_eq!(u.get_cells(), vec![Cell::Dead; 12].as_slice());
}

#[test]
fn set_dimensions_resets_all_cells() {
    let mut u = dead_grid(6, 6);
    u.toggle_cell(2, 3).unwrap();
    u.toggle_cell(0, 0).unwrap();
    u.set_dimensions(4, 7);
    assert_eq!(u.width(), 4);
    assert_eq!(u.height(), 7);
    assert_eq!(u.get_cells(), vec![Cell::Dead; 28].as_slice());
}

#[test]
fn tick_on_degenerate_grid_is_a_no_op() {
    let mut u = dead_grid(0, 0);
    u.tick();
    assert_eq!(u.get_cells().len(), 0);
    let mut v = dead_grid(0, 5);
    v.tick();
    assert_eq!(v.get_cells().len(), 0);
    assert_eq!(v.height(), 5);
}

#[test]
fn neighbor_count_on_single_cell_grid_wraps_to_itself() {
    // on a 1x1 torus every one of the eight wrapped neighbor offsets lands
    // back on the cell itself
    let mut u = dead_grid(1, 1);
    u.toggle_cell(0, 0).unwrap();
    assert_eq!(u.live_neighbor_count(0, 0), 8);
    u.tick();
    assert_eq!(alive_indices(&u), Vec::<usize>::new());
}

#[test]
fn tick_keeps_a_block_still_life() {
    let mut u = dead_grid(6, 6);
    u.toggle_cell(1, 1).unwrap();
    u.toggle_cell(1, 2).unwrap();
    u.toggle_cell(2, 1).unwrap();
    u.toggle_cell(2, 2).unwrap();
    let before = u.get_cells().to_vec();
    u.tick();
    assert_eq!(u.get_cells(), before.as_slice());
}

#[test]
fn tick_oscillates_a_blinker_with_period_two() {
    let mut u = dead_grid(5, 5);
    u.toggle_cell(2, 1).unwrap();
    u.toggle_cell(2, 2).unwrap();
    u.toggle_cell(2, 3).unwrap();
    let horizontal = u.get_cells().to_vec();
    u.tick();
    let vertical: Vec<usize> = alive_indices(&u);
    assert_eq!(vertical, vec![1 * 5 + 2, 2 * 5 + 2, 3 * 5 + 2]);
    u.tick();
    assert_eq!(u.get_cells(), horizontal.as_slice());
}

#[test]
fn tick_matches_manual_rule_application() {
    let mut u = dead_grid(6, 6);
    u.set_cells(&[(1, 0), (2, 0), (0, 1)]);
    assert_eq!(alive_indices(&u), vec![22, 23, 27]);
    u.tick();
    assert_eq!(alive_indices(&u), vec![22, 28]);
}

#[test]
fn tick_underpopulation_and_reproduction() {
    let mut u = dead_grid(6, 6);
    u.toggle_cell(1, 1).unwrap();
    u.toggle_cell(1, 2).unwrap();
    u.tick();
    assert_eq!(alive_indices(&u), Vec::<usize>::new());
    let mut v = dead_grid(6, 6);
    v.toggle_cell(1, 1).unwrap();
    v.toggle_cell(1, 3).unwrap();
    v.toggle_cell(3, 2).unwrap();
    v.tick();
    assert_eq!(alive_indices(&v), vec![2 * 6 + 2]);
}
