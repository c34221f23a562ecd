use game_of_life::{get_next, get_next_state_from, Point};

fn get_test_grid() -> Vec<Vec<bool>> {
    vec![
        vec![false, true, false],
        vec![false, false, true],
        vec![true, true, true],
        vec![false, false, false],
    ]
}

#[test]
fn test_point_is_in() {
    let grid = get_test_grid();
    assert!(Point { x: 0, y: 0 }.is_in(&grid));
    assert!(Point { x: 2, y: 3 }.is_in(&grid));
    assert!(!Point { x: -1, y: 0 }.is_in(&grid));
    assert!(!Point { x: 0, y: -1 }.is_in(&grid));
    assert!(!Point { x: 3, y: 0 }.is_in(&grid));
    assert!(!Point { x: 0, y: 4 }.is_in(&grid));
}

#[test]
fn test_point_get_state_in() {
    let grid = get_test_grid();
    assert!(!Point { x: 0, y: 0 }.get_state_in(&grid));
    assert!(Point { x: 1, y: 0 }.get_state_in(&grid));
    assert!(!Point { x: 2, y: 0 }.get_state_in(&grid));
}

#[test]
fn test_point_get_neighbour_states_in() {
    let grid = get_test_grid();
    let expected = vec![true, false, false];
    assert_eq!(expected, Point { x: 0, y: 0 }.get_neighbour_states_in(&grid));
    let expected = vec![true, true, false];
    assert_eq!(expected, Point { x: 2, y: 3 }.get_neighbour_states_in(&grid));
    let expected = vec![false, true, false, false, true, true, true, true];
    assert_eq!(expected, Point { x: 1, y: 1 }.get_neighbour_states_in(&grid));
}

#[test]
fn test_point_get_next_state_in() {
    let grid = get_test_grid();
    assert!(!Point { x: 0, y: 0 }.get_next_state_in(&grid));
    assert!(!Point { x: 1, y: 0 }.get_next_state_in(&grid));
    assert!(!Point { x: 2, y: 0 }.get_next_state_in(&grid));
    assert!(Point { x: 0, y: 1 }.get_next_state_in(&grid));
    assert!(!Point { x: 1, y: 1 }.get_next_state_in(&grid));
    assert!(Point { x: 2, y: 1 }.get_next_state_in(&grid));
}

#[test]
fn test_get_next_state_from() {
    assert!(!get_next_state_from(true, 0));
    assert!(!get_next_state_from(true, 1));
    assert!(get_next_state_from(true, 2));
    assert!(get_next_state_from(true, 3));
    assert!(!get_next_state_from(true, 4));
    assert!(!get_next_state_from(true, 5));
    assert!(!get_next_state_from(true, 6));
    assert!(!get_next_state_from(true, 7));
    assert!(!get_next_state_from(true, 8));
    assert!(!get_next_state_from(false, 0));
    assert!(!get_next_state_from(false, 1));
    assert!(!get_next_state_from(false, 2));
    assert!(get_next_state_from(false, 3));
    assert!(!get_next_state_from(false, 4));
    assert!(!get_next_state_from(false, 5));
    assert!(!get_next_state_from(false, 6));
    assert!(!get_next_state_from(false, 7));
    assert!(!get_next_state_from(false, 8));
}

#[test]
fn test_get_next() {
    let grid = get_test_grid();
    let expected = vec![
        vec![false, false, false],
        vec![true, false, true],
        vec![false, true, true],
        vec![false, true, false],
    ];
    assert_eq!(expected, get_next(&grid));
}

#[test]
fn test_block_is_still_life() {
    let grid = vec![
        vec![false, false, false, false],
        vec![false, true, true, false],
        vec![false, true, true, false],
        vec![false, false, false, false],
    ];
    assert_eq!(grid, get_next(&grid));
}

#[test]
fn test_lone_cell_dies() {
    let grid = vec![vec![true]];
    assert_eq!(vec![vec![false]], get_next(&grid));
}

#[test]
fn test_empty_grid_stays_empty() {
    let grid: Vec<Vec<bool>> = vec![];
    assert_eq!(Vec::<Vec<bool>>::new(), get_next(&grid));
}

#[test]
fn test_zero_width_rows_keep_shape() {
    let grid: Vec<Vec<bool>> = vec![vec![], vec![]];
    assert_eq!(grid, get_next(&grid));
}

#[test]
fn test_point_is_in_empty_grid() {
    let grid: Vec<Vec<bool>> = vec![];
    assert!(!Point { x: 0, y: 0 }.is_in(&grid));
}

#[test]
fn test_corner_has_three_neighbour_states() {
    let grid = vec![vec![true, true], vec![true, true]];
    assert_eq!(3, Point { x: 1, y: 1 }.get_neighbour_states_in(&grid).len());
}

#[test]
fn test_edge_has_five_neighbour_states() {
    let grid = get_test_grid();
    assert_eq!(5, Point { x: 0, y: 1 }.get_neighbour_states_in(&grid).len());
}

#[test]
fn test_interior_has_eight_neighbour_states() {
    let grid = get_test_grid();
    assert_eq!(8, Point { x: 1, y: 2 }.get_neighbour_states_in(&grid).len());
}

#[test]
fn test_dimensions_preserved() {
    let grid = get_test_grid();
    let next = get_next(&grid);
    assert_eq!(grid.len(), next.len());
    for y in 0..grid.len() {
        assert_eq!(grid[y].len(), next[y].len());
    }
}

#[test]
fn test_blinker_oscillates() {
    let horizontal = vec![
        vec![false, false, false],
        vec![true, true, true],
        vec![false, false, false],
    ];
    let vertical = vec![
        vec![false, true, false],
        vec![false, true, false],
        vec![false, true, false],
    ];
    assert_eq!(vertical, get_next(&horizontal));
    assert_eq!(horizontal, get_next(&vertical));
}
