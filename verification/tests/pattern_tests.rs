use conway_life::patterns::PatternInitializer;
use conway_life::GameOfLife;

#[test]
fn set_pattern_stamps_hash_marks_only() {
    let mut game = GameOfLife::new(6, 6, 100);
    game.set_cell(0, 0, true);
    game.set_pattern(1, 1, &[" # ", "  #", "###"]);
    let glider = [(2, 1), (3, 2), (1, 3), (2, 3), (3, 3)];
    for x in 0..6 {
        for y in 0..6 {
            let expected = (x == 0 && y == 0) || glider.contains(&(x, y));
            assert_eq!(game.get_cell_state(x, y), expected, "cell ({}, {})", x, y);
        }
    }
    assert_eq!(game.get_generation(), 0);
}

#[test]
fn set_pattern_never_clears_existing_cells() {
    let mut game = GameOfLife::new(4, 4, 100);
    game.set_cell(1, 1, true);
    game.set_pattern(0, 0, &["....", "....", "...."]);
    assert!(game.get_cell_state(1, 1));
}

#[test]
fn set_pattern_clips_at_the_grid_edge() {
    let mut game = GameOfLife::new(5, 5, 100);
    game.set_pattern(4, 4, &["##", "##"]);
    assert!(game.get_cell_state(4, 4));
    for x in 0..5 {
        for y in 0..5 {
            if !(x == 4 && y == 4) {
                assert!(!game.get_cell_state(x, y), "cell ({}, {})", x, y);
            }
        }
    }
}

#[test]
fn set_pattern_far_outside_is_harmless() {
    let mut game = GameOfLife::new(4, 4, 100);
    game.set_pattern(usize::MAX, usize::MAX, &["##", "##"]);
    for x in 0..4 {
        for y in 0..4 {
            assert!(!game.get_cell_state(x, y));
        }
    }
}

#[test]
fn initialize_patterns_stamps_the_catalog() {
    let mut game = GameOfLife::new(100, 100, 100);
    game.set_cell(99, 99, true);
    PatternInitializer::initialize_patterns(&mut game);
    // the blinker lies outside both randomized regions, so it is exact
    assert!(game.get_cell_state(55, 25));
    assert!(game.get_cell_state(56, 25));
    assert!(game.get_cell_state(57, 25));
    assert!(!game.get_cell_state(55, 24));
    assert!(!game.get_cell_state(55, 26));
    // so does the toad
    assert!(game.get_cell_state(41, 20));
    assert!(game.get_cell_state(42, 20));
    assert!(game.get_cell_state(43, 20));
    assert!(game.get_cell_state(40, 21));
    assert!(game.get_cell_state(41, 21));
    assert!(game.get_cell_state(42, 21));
    assert!(!game.get_cell_state(40, 20));
    assert!(!game.get_cell_state(43, 21));
    // seeding begins with a clear: the earlier cell is gone
    assert!(!game.get_cell_state(99, 99));
    assert_eq!(game.get_generation(), 0);
    assert!(!game.is_paused());
    assert_eq!(game.get_frame_delay(), 100);
}
