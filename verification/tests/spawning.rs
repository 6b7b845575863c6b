use breakout::constants::{BRICK_COLS, BRICK_ROWS, BRICK_VALUE_STEP};
use breakout::spawning::{brick_grid_cells, brick_value, playfield_layout};
use breakout::types::GameMode;

#[test]
fn brick_grid_spawns_full_rainbow_grid() {
    let cells = brick_grid_cells();
    assert_eq!(cells.len(), BRICK_ROWS * BRICK_COLS);
}

#[test]
fn top_row_bricks_pay_the_most() {
    assert_eq!(brick_value(0), BRICK_ROWS as u32 * BRICK_VALUE_STEP);
    assert_eq!(brick_value(BRICK_ROWS - 1), BRICK_VALUE_STEP);
    for row in 1..BRICK_ROWS {
        assert!(brick_value(row - 1) > brick_value(row));
    }
}

#[test]
fn coop_playfield_swaps_top_wall_for_sensor_and_paddle() {
    let solo = playfield_layout(GameMode::SinglePlayer);
    assert_eq!(solo.walls, 3, "solo keeps the top wall");
    assert!(solo.top_wall);
    assert!(!solo.top_sensor);
    assert!(!solo.top_paddle);

    let coop = playfield_layout(GameMode::TwoPlayerCoop);
    assert_eq!(coop.walls, 2, "co-op opens the top edge");
    assert!(!coop.top_wall);
    assert!(coop.top_sensor);
    assert!(coop.top_paddle);

    // Rebuilding back to solo never leaks co-op structure
    assert_eq!(playfield_layout(GameMode::SinglePlayer), solo);
}

#[test]
fn grid_cells_walk_rows_then_columns() {
    let cells = brick_grid_cells();
    assert_eq!((cells[0].row, cells[0].col, cells[0].value), (0, 0, 60));
    assert_eq!((cells[9].row, cells[9].col), (0, 9));
    assert_eq!((cells[10].row, cells[10].col, cells[10].value), (1, 0, 50));
    assert_eq!((cells[59].row, cells[59].col, cells[59].value), (5, 9, 10));
    let total: u32 = cells.iter().map(|c| c.value).sum();
    assert_eq!(total, 2100, "clearing the generated wall pays 2100");
}
