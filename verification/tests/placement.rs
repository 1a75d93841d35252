use game_of_life::cell::Cell;
use game_of_life::grid::Universe;

fn dead_grid(width: u32, height: u32) -> Universe {
    Universe::new(width, height, vec![Cell::Dead; (width * height) as usize])
}

fn alive_indices(u: &Universe) -> Vec<usize> {
    u.get_cells()
        .iter()
        .enumerate()
        .filter(|(_, c)| **c == Cell::Alive)
        .map(|(i, _)| i)
        .collect()
}

#[test]
fn set_cells_centers_the_pattern() {
    let mut u = dead_grid(6, 6);
    u.toggle_cell(5, 5).unwrap();
    u.set_cells(&[(0, 0)]);
    // midpoint of a 6x6 grid is (3, 3), flat index 21; prior content is gone
    assert_eq!(alive_indices(&u), vec![21]);
}

#[test]
fn set_cells_with_empty_pattern_clears_the_grid() {
    let mut u = dead_grid(4, 4);
    u.toggle_cell(0, 0).unwrap();
    u.toggle_cell(3, 3).unwrap();
    u.set_cells(&[]);
    assert_eq!(alive_indices(&u), Vec::<usize>::new());
}

#[test]
fn set_cells_skips_targets_outside_the_buffer() {
    let mut u = dead_grid(2, 2);
    u.set_cells(&[(1, 2), (2, 3), (3, 1), (3, 2), (3, 3)]);
    assert_eq!(alive_indices(&u), Vec::<usize>::new());
}

#[test]
fn make_glider_places_the_expected_cells() {
    let mut u = dead_grid(8, 8);
    u.make_glider();
    let mut expected = vec![47, 53, 55, 62, 63];
    expected.sort();
    assert_eq!(alive_indices(&u), expected);
}

#[test]
fn make_glider_twice_equals_once() {
    let mut once = dead_grid(8, 8);
    once.toggle_cell(0, 7).unwrap();
    once.make_glider();
    let snapshot = once.get_cells().to_vec();
    once.make_glider();
    assert_eq!(once.get_cells(), snapshot.as_slice());
}

#[test]
fn make_spaceship_places_the_expected_cells() {
    let mut u = dead_grid(10, 10);
    u.make_spaceship();
    let expected = vec![55, 56, 57, 58, 65, 69, 75, 86, 89];
    assert_eq!(alive_indices(&u), expected);
}

#[test]
fn make_piheptomino_places_the_expected_cells() {
    let mut u = dead_grid(8, 8);
    u.make_piheptomino();
    let expected = vec![36, 37, 38, 44, 46, 52, 54];
    assert_eq!(alive_indices(&u), expected);
}

#[test]
fn make_rpentamino_replaces_prior_content() {
    let mut u = dead_grid(8, 8);
    u.make_spaceship();
    u.make_rpentamino();
    let expected = vec![36, 44, 45, 46, 53];
    assert_eq!(alive_indices(&u), expected);
}

#[test]
fn render_uses_one_glyph_line_per_row() {
    let mut u = dead_grid(2, 2);
    u.toggle_cell(0, 1).unwrap();
    assert_eq!(u.render(), "◻◼\n\n◻◻\n\n");
}

#[test]
fn render_of_empty_grid_is_empty() {
    let u = dead_grid(0, 0);
    assert_eq!(u.render(), "");
}
