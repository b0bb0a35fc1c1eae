use conway_life::GameOfLife;

#[test]
fn new_game_starts_empty_and_running() {
    let game = GameOfLife::new(10, 8, 100);
    for x in 0..10 {
        for y in 0..8 {
            assert!(!game.get_cell_state(x, y));
        }
    }
    assert_eq!(game.get_generation(), 0);
    assert!(!game.is_paused());
    assert_eq!(game.get_frame_delay(), 100);
}

#[test]
fn set_and_get_cell_round_trip() {
    let mut game = GameOfLife::new(4, 4, 100);
    game.set_cell(2, 3, true);
    assert!(game.get_cell_state(2, 3));
    assert!(!game.get_cell_state(3, 2));
    game.set_cell(2, 3, false);
    assert!(!game.get_cell_state(2, 3));
}

#[test]
fn out_of_range_get_is_false_and_set_is_ignored() {
    let mut game = GameOfLife::new(4, 4, 100);
    assert!(!game.get_cell_state(4, 0));
    assert!(!game.get_cell_state(0, 4));
    assert!(!game.get_cell_state(usize::MAX, usize::MAX));
    game.set_cell(4, 0, true);
    game.set_cell(0, 4, true);
    game.set_cell(usize::MAX, 1, true);
    for x in 0..4 {
        for y in 0..4 {
            assert!(!game.get_cell_state(x, y));
        }
    }
    assert_eq!(game.get_generation(), 0);
}

#[test]
fn single_isolated_cell_dies_after_one_tick() {
    let mut game = GameOfLife::new(5, 5, 100);
    game.set_cell(2, 2, true);
    let ticked = game.tick(100);
    assert!(ticked);
    assert_eq!(game.get_generation(), 1);
    for x in 0..5 {
        for y in 0..5 {
            assert!(!game.get_cell_state(x, y));
        }
    }
}

#[test]
fn dead_grid_stays_dead() {
    let mut game = GameOfLife::new(6, 6, 100);
    let ticked = game.tick(500);
    assert!(ticked);
    for x in 0..6 {
        for y in 0..6 {
            assert!(!game.get_cell_state(x, y));
        }
    }
}

#[test]
fn blinker_oscillates_with_period_two() {
    let mut game = GameOfLife::new(5, 5, 100);
    game.set_cell(1, 2, true);
    game.set_cell(2, 2, true);
    game.set_cell(3, 2, true);

    assert!(game.tick(100));
    // vertical line centered on the same column
    for x in 0..5 {
        for y in 0..5 {
            let expected = x == 2 && (y == 1 || y == 2 || y == 3);
            assert_eq!(game.get_cell_state(x, y), expected, "at ({}, {})", x, y);
        }
    }

    assert!(game.tick(100));
    // back to the starting horizontal line
    for x in 0..5 {
        for y in 0..5 {
            let expected = y == 2 && (x == 1 || x == 2 || x == 3);
            assert_eq!(game.get_cell_state(x, y), expected, "at ({}, {})", x, y);
        }
    }
    assert_eq!(game.get_generation(), 2);
}

#[test]
fn transition_rule_for_every_neighbor_count() {
    let neighbors = [
        (0usize, 0usize),
        (1, 0),
        (2, 0),
        (0, 1),
        (2, 1),
        (0, 2),
        (1, 2),
        (2, 2),
    ];
    for &alive in &[false, true] {
        for n in 0..=8usize {
            let mut game = GameOfLife::new(3, 3, 100);
            game.set_cell(1, 1, alive);
            for &(x, y) in neighbors.iter().take(n) {
                game.set_cell(x, y, true);
            }
            assert!(game.tick(100));
            let expected = if alive { n == 2 || n == 3 } else { n == 3 };
            assert_eq!(
                game.get_cell_state(1, 1),
                expected,
                "alive={} neighbors={}",
                alive,
                n
            );
        }
    }
}

#[test]
fn tick_is_noop_when_paused() {
    let mut game = GameOfLife::new(5, 5, 100);
    game.set_cell(1, 2, true);
    game.set_cell(2, 2, true);
    game.set_cell(3, 2, true);
    game.toggle_pause();
    assert!(game.is_paused());
    let ticked = game.tick(10_000);
    assert!(!ticked);
    assert_eq!(game.get_generation(), 0);
    assert!(game.get_cell_state(1, 2));
    assert!(game.get_cell_state(2, 2));
    assert!(game.get_cell_state(3, 2));
    assert!(!game.get_cell_state(2, 1));
}

#[test]
fn tick_is_noop_before_the_interval_elapses() {
    let mut game = GameOfLife::new(5, 5, 100);
    game.set_cell(2, 2, true);
    let ticked = game.tick(99);
    assert!(!ticked);
    assert_eq!(game.get_generation(), 0);
    assert!(game.get_cell_state(2, 2));
    // a second call early enough is still a no-op
    assert!(!game.tick(50));
    assert_eq!(game.get_generation(), 0);
    // once the interval has elapsed, the tick happens
    assert!(game.tick(100));
    assert_eq!(game.get_generation(), 1);
}

#[test]
fn update_respects_the_wall_clock_interval() {
    // an hour-long interval cannot have elapsed yet
    let mut game = GameOfLife::new(5, 5, 3_600_000);
    game.set_cell(2, 2, true);
    game.update();
    assert_eq!(game.get_generation(), 0);
    assert!(game.get_cell_state(2, 2));

    // a zero interval has always elapsed
    let mut eager = GameOfLife::new(5, 5, 0);
    eager.set_cell(2, 2, true);
    eager.update();
    assert_eq!(eager.get_generation(), 1);
    assert!(!eager.get_cell_state(2, 2));
}

#[test]
fn clear_kills_cells_and_resets_generation_only() {
    let mut game = GameOfLife::new(5, 5, 100);
    game.set_cell(1, 2, true);
    game.set_cell(2, 2, true);
    game.set_cell(3, 2, true);
    assert!(game.tick(100));
    assert_eq!(game.get_generation(), 1);
    game.toggle_pause();
    game.increase_interval(50);
    game.clear();
    for x in 0..5 {
        for y in 0..5 {
            assert!(!game.get_cell_state(x, y));
        }
    }
    assert_eq!(game.get_generation(), 0);
    assert!(game.is_paused());
    assert_eq!(game.get_frame_delay(), 150);
}

#[test]
fn resize_preserves_the_overlap_and_nothing_else() {
    let mut game = GameOfLife::new(4, 4, 100);
    for x in 0..4 {
        for y in 0..4 {
            game.set_cell(x, y, (x + y) % 2 == 0);
        }
    }
    game.toggle_pause();
    game.resize(6, 3);
    assert!(game.is_paused());
    assert_eq!(game.get_generation(), 0);
    for x in 0..6 {
        for y in 0..3 {
            let expected = x < 4 && (x + y) % 2 == 0;
            assert_eq!(game.get_cell_state(x, y), expected, "at ({}, {})", x, y);
        }
    }
    // discarded cells do not come back
    game.resize(4, 4);
    for x in 0..4 {
        assert!(!game.get_cell_state(x, 3));
    }
}

#[test]
fn toggle_pause_flips_only_the_pause_flag() {
    let mut game = GameOfLife::new(3, 3, 100);
    game.set_cell(0, 0, true);
    game.toggle_pause();
    assert!(game.is_paused());
    assert!(game.get_cell_state(0, 0));
    assert_eq!(game.get_frame_delay(), 100);
    game.toggle_pause();
    assert!(!game.is_paused());
}

#[test]
fn interval_controls_step_and_clamp() {
    let mut game = GameOfLife::new(3, 3, 100);
    game.increase_interval(10);
    assert_eq!(game.get_frame_delay(), 110);
    game.decrease_interval(10, 10);
    assert_eq!(game.get_frame_delay(), 100);
    let mut slow = GameOfLife::new(3, 3, 15);
    slow.decrease_interval(10, 10);
    assert_eq!(slow.get_frame_delay(), 10);
    slow.decrease_interval(10, 10);
    assert_eq!(slow.get_frame_delay(), 10);
    let mut fast = GameOfLife::new(3, 3, u64::MAX - 5);
    fast.increase_interval(10);
    assert_eq!(fast.get_frame_delay(), u64::MAX);
}

#[test]
fn generation_counts_completed_ticks() {
    let mut game = GameOfLife::new(4, 4, 100);
    game.set_cell(1, 1, true);
    game.set_cell(2, 1, true);
    game.set_cell(1, 2, true);
    game.set_cell(2, 2, true);
    for expected in 1..=5u64 {
        assert!(game.tick(1_000));
        assert_eq!(game.get_generation(), expected);
    }
    // the block is a still life
    assert!(game.get_cell_state(1, 1));
    assert!(game.get_cell_state(2, 1));
    assert!(game.get_cell_state(1, 2));
    assert!(game.get_cell_state(2, 2));
}
