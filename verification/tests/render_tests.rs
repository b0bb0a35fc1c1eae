use conway_life::render::{Canvas, ALIVE_COLOR, DEAD_COLOR, GRID_COLOR};
use conway_life::GameOfLife;

/// The color the canvas must give pixel (px, py), recomputed plainly.
fn expected_canvas_pixel(
    game: &GameOfLife,
    cell_size: usize,
    show_grid: bool,
    px: usize,
    py: usize,
) -> u32 {
    let fill = if show_grid { cell_size - 1 } else { cell_size };
    if show_grid && cell_size > 4 && (px % cell_size == 0 || py % cell_size == 0) {
        GRID_COLOR
    } else if px % cell_size < fill
        && py % cell_size < fill
        && game.get_cell_state(px / cell_size, py / cell_size)
    {
        ALIVE_COLOR
    } else {
        DEAD_COLOR
    }
}

fn check_whole_frame(game: &GameOfLife, canvas: &Canvas, w: usize, h: usize, cs: usize, sg: bool) {
    let buffer = canvas.buffer();
    assert_eq!(buffer.len(), w * cs * h * cs);
    for py in 0..h * cs {
        for px in 0..w * cs {
            let i = py * (w * cs) + px;
            assert_eq!(
                buffer[i],
                expected_canvas_pixel(game, cs, sg, px, py),
                "pixel ({}, {})",
                px,
                py
            );
        }
    }
}

#[test]
fn flat_render_of_dead_grid_is_all_dead_pixels() {
    let game = GameOfLife::new(2, 2, 100);
    let mut buffer = vec![0xDEADu32; 16];
    game.render_to_buffer(&mut buffer, 2);
    assert_eq!(buffer.len(), 16);
    for &pixel in &buffer {
        assert_eq!(pixel, 0x00000000);
    }
}

#[test]
fn flat_render_of_one_cell_marks_exactly_its_block() {
    let mut game = GameOfLife::new(2, 2, 100);
    game.set_cell(0, 0, true);
    let mut buffer = vec![0u32; 16];
    game.render_to_buffer(&mut buffer, 2);
    for i in 0..16 {
        let x = (i % 4) / 2;
        let y = (i / 4) / 2;
        let expected = if x == 0 && y == 0 { 0xFFFFFFFF } else { 0x00000000 };
        assert_eq!(buffer[i], expected, "pixel {}", i);
    }
}

#[test]
fn flat_render_overwrites_every_stale_pixel() {
    let mut game = GameOfLife::new(3, 3, 100);
    game.set_cell(1, 1, true);
    let mut buffer = vec![0x12345678u32; 9];
    game.render_to_buffer(&mut buffer, 1);
    for i in 0..9 {
        let expected = if i == 4 { 0xFFFFFFFF } else { 0x00000000 };
        assert_eq!(buffer[i], expected, "pixel {}", i);
    }
}

#[test]
fn frame_of_dead_grid_is_background_and_gridlines() {
    let game = GameOfLife::new(2, 2, 100);
    let mut canvas = Canvas::new(2, 2, 6, true);
    canvas.render_frame(&game);
    check_whole_frame(&game, &canvas, 2, 2, 6, true);
    // spot checks: boundaries are gridline, interiors are background
    let buffer = canvas.buffer();
    assert_eq!(buffer[0], GRID_COLOR); // (0, 0): boundary column
    assert_eq!(buffer[6], GRID_COLOR); // (6, 0): boundary between the cells
    assert_eq!(buffer[1 * 12 + 1], DEAD_COLOR); // (1, 1): cell interior
}

#[test]
fn frame_of_one_cell_fills_its_square_under_the_gridlines() {
    let mut game = GameOfLife::new(2, 2, 100);
    game.set_cell(1, 0, true);
    let mut canvas = Canvas::new(2, 2, 6, true);
    canvas.render_frame(&game);
    check_whole_frame(&game, &canvas, 2, 2, 6, true);
    let buffer = canvas.buffer();
    // inside the live cell's square: px in 7..11, py in 1..5
    assert_eq!(buffer[1 * 12 + 7], ALIVE_COLOR);
    // the boundary column through the live cell stays gridline
    assert_eq!(buffer[1 * 12 + 6], GRID_COLOR);
    // a dead cell's interior stays background
    assert_eq!(buffer[1 * 12 + 1], DEAD_COLOR);
}

#[test]
fn frame_without_gridlines_fills_whole_cells() {
    let mut game = GameOfLife::new(3, 2, 100);
    game.set_cell(0, 1, true);
    let mut canvas = Canvas::new(3, 2, 3, false);
    canvas.render_frame(&game);
    check_whole_frame(&game, &canvas, 3, 2, 3, false);
}

#[test]
fn frame_with_small_cells_draws_no_gridlines() {
    // gridlines stay off when a cell spans 4 pixels or fewer
    let mut game = GameOfLife::new(2, 2, 100);
    game.set_cell(0, 0, true);
    let mut canvas = Canvas::new(2, 2, 3, true);
    canvas.render_frame(&game);
    check_whole_frame(&game, &canvas, 2, 2, 3, true);
    let buffer = canvas.buffer();
    // fill is 2 pixels; the cell's own top-left pixel is filled
    assert_eq!(buffer[0], ALIVE_COLOR);
    assert_eq!(buffer[2], DEAD_COLOR);
}

#[test]
fn handle_resize_syncs_canvas_and_game() {
    let mut game = GameOfLife::new(4, 4, 100);
    for x in 0..4 {
        for y in 0..4 {
            game.set_cell(x, y, x == y);
        }
    }
    let mut canvas = Canvas::new(4, 4, 8, true);
    canvas.handle_resize(47, 25, &mut game);
    assert_eq!(canvas.grid_width(), 5);
    assert_eq!(canvas.grid_height(), 3);
    assert_eq!(canvas.buffer().len(), 47 * 25);
    for x in 0..5 {
        for y in 0..3 {
            let expected = x < 4 && x == y;
            assert_eq!(game.get_cell_state(x, y), expected, "cell ({}, {})", x, y);
        }
    }
}

#[test]
fn handle_resize_without_change_is_a_noop() {
    let mut game = GameOfLife::new(4, 4, 100);
    game.set_cell(1, 2, true);
    let mut canvas = Canvas::new(4, 4, 8, true);
    canvas.handle_resize(32, 32, &mut game);
    assert_eq!(canvas.grid_width(), 4);
    assert_eq!(canvas.grid_height(), 4);
    assert_eq!(canvas.buffer().len(), 32 * 32);
    assert!(game.get_cell_state(1, 2));
}

#[test]
fn canvas_getters_report_the_geometry() {
    let canvas = Canvas::new(7, 5, 6, true);
    assert_eq!(canvas.grid_width(), 7);
    assert_eq!(canvas.grid_height(), 5);
    assert_eq!(canvas.cell_size(), 6);
    assert!(canvas.shows_grid());
    assert_eq!(canvas.buffer().len(), 42 * 30);
}
