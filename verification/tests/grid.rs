use cosmic_viewer::grid::{clamp_columns, grid_rows, item_in_cell};

#[test]
fn columns_are_clamped() {
    assert_eq!(clamp_columns(5, 1, None, 100), 5);
    assert_eq!(clamp_columns(0, 2, None, 100), 2);
    assert_eq!(clamp_columns(9, 1, Some(4), 100), 4);
    assert_eq!(clamp_columns(9, 1, None, 3), 3);
    assert_eq!(clamp_columns(9, 1, None, 0), 1);
    assert_eq!(clamp_columns(0, 0, Some(0), 10), 1);
}

#[test]
fn rows_round_up() {
    assert_eq!(grid_rows(0, 4), 0);
    assert_eq!(grid_rows(8, 4), 2);
    assert_eq!(grid_rows(9, 4), 3);
    assert_eq!(grid_rows(1, 1), 1);
    assert_eq!(grid_rows(usize::MAX, 2), usize::MAX / 2 + 1);
}

#[test]
fn cells_map_to_items() {
    assert_eq!(item_in_cell(1, 2, 4, 3, 10), Some(9));
    assert_eq!(item_in_cell(2, 2, 4, 3, 10), None);
    assert_eq!(item_in_cell(4, 0, 4, 3, 10), None);
    assert_eq!(item_in_cell(0, 3, 4, 3, 10), None);
    for i in 0..10usize {
        assert_eq!(item_in_cell(i % 4, i / 4, 4, grid_rows(10, 4), 10), Some(i));
    }
}
