use snake_game::cell::Cell;
use snake_game::game::{Config, Game, SpawnPicks};
use snake_game::steering::Keys;

fn cell(x: i32, y: i32) -> Cell {
    Cell { x, y }
}

fn small(radius: i32) -> Config {
    Config {
        width: 10,
        height: 10,
        buffer_radius: radius,
        base_delay: 500,
        min_delay: 100,
        speedup_percent: 92,
        slowdown: 140,
        blueberry_period: 1000,
        golden_apple_period: 1000,
        orange_period: 1000,
        stone_wall_period: 1000,
        golden_apple_worth: 10,
    }
}

fn picks(p: u64) -> SpawnPicks {
    SpawnPicks { apple: p, blueberry: p, golden_apple: p, orange: p, stone_wall: p }
}

fn press(g: &mut Game, left: bool, right: bool, up: bool, down: bool) -> bool {
    g.steer(Keys { left, right, up, down, space: false })
}

#[test]
fn start_places_one_apple() {
    let g = Game::start(small(1), 0);
    assert_eq!(g.snake_cells(), vec![cell(5, 5)]);
    assert_eq!(g.apple(), Some(cell(0, 0)));
    assert_eq!(g.blueberry(), None);
    assert_eq!(g.golden_apple(), None);
    assert_eq!(g.orange(), None);
    assert!(g.stone_walls().is_empty());
    assert_eq!(g.score(), 0);
    assert!(g.is_alive());
    assert!(!g.is_shielded());
    assert_eq!(g.open_cells().len(), 100 - 9 - 1);
}

#[test]
fn four_right_steps_keep_length_one() {
    let mut g = Game::start(small(1), 0);
    assert!(press(&mut g, false, true, false, false));
    for _ in 0..4 {
        g.step_with(picks(0));
    }
    assert_eq!(g.head(), cell(9, 5));
    assert_eq!(g.snake_cells().len(), 1);
    assert!(g.is_alive());
    assert_eq!(g.score(), 0);
}

#[test]
fn leaving_the_board_ends_the_game() {
    let mut g = Game::start(small(1), 0);
    press(&mut g, false, true, false, false);
    for _ in 0..4 {
        g.step_with(picks(0));
    }
    assert!(g.is_alive());
    g.step_with(picks(0));
    assert!(!g.is_alive());
    assert_eq!(g.head(), cell(9, 5));
    g.step_with(picks(0));
    assert_eq!(g.head(), cell(9, 5));
}

#[test]
fn no_step_before_a_direction() {
    let mut g = Game::start(small(1), 0);
    assert!(!press(&mut g, false, false, false, false));
    g.step_with(picks(0));
    assert_eq!(g.snake_cells(), vec![cell(5, 5)]);
    assert!(!g.advance_frame_with(picks(0)));
}

#[test]
fn apple_ahead_scores_and_grows() {
    // With no buffer the apple may stand next to the head: pick 55 skips the
    // head's own cell and lands on (6, 5).
    let mut g = Game::start(small(0), 55);
    assert_eq!(g.apple(), Some(cell(6, 5)));
    press(&mut g, false, true, false, false);
    g.step_with(picks(0));
    assert_eq!(g.score(), 1);
    assert_eq!(g.snake_cells(), vec![cell(5, 5), cell(6, 5)]);
    assert_eq!(g.grow_buffer(), 0);
    assert_eq!(g.frame_delay(), 460);
    assert_eq!(g.apple(), Some(cell(0, 0)));
    g.step_with(picks(0));
    assert_eq!(g.snake_cells(), vec![cell(6, 5), cell(7, 5)]);
}

#[test]
fn biting_the_body_ends_the_game() {
    let mut g = Game::start(small(0), 55);
    press(&mut g, false, true, false, false);
    for _ in 0..4 {
        g.step_with(picks(55));
    }
    assert_eq!(
        g.snake_cells(),
        vec![cell(5, 5), cell(6, 5), cell(7, 5), cell(8, 5), cell(9, 5)]
    );
    assert_eq!(g.score(), 4);
    assert_eq!(g.apple(), Some(cell(0, 6)));
    press(&mut g, false, false, false, true);
    g.step_with(picks(0));
    press(&mut g, true, false, false, false);
    g.step_with(picks(0));
    assert!(g.is_alive());
    press(&mut g, false, false, true, false);
    g.step_with(picks(0));
    assert!(!g.is_alive());
}

#[test]
fn golden_apple_gives_its_worth() {
    let mut config = small(0);
    config.golden_apple_period = 1;
    let mut g = Game::start(config, 0);
    press(&mut g, false, true, false, false);
    // Open cells at the spawn: all but the apple at (0, 0) and the body
    // (5, 5), (6, 5); pick 54 is (7, 5).
    g.step_with(SpawnPicks { apple: 0, blueberry: 0, golden_apple: 54, orange: 0, stone_wall: 0 });
    assert_eq!(g.golden_apple(), Some(cell(7, 5)));
    g.step_with(picks(0));
    assert_eq!(g.score(), 10);
    assert_eq!(g.grow_buffer(), 9);
    assert_eq!(g.snake_cells(), vec![cell(6, 5), cell(7, 5)]);
    assert_eq!(g.golden_apple(), None);
    assert_eq!(g.frame_delay(), 460);
}

#[test]
fn blueberry_scores_and_slows() {
    let mut config = small(0);
    config.blueberry_period = 1;
    let mut g = Game::start(config, 0);
    press(&mut g, false, true, false, false);
    g.step_with(SpawnPicks { apple: 0, blueberry: 54, golden_apple: 0, orange: 0, stone_wall: 0 });
    assert_eq!(g.blueberry(), Some(cell(7, 5)));
    g.step_with(picks(0));
    assert_eq!(g.score(), 1);
    assert_eq!(g.frame_delay(), 640);
    assert_eq!(g.snake_cells(), vec![cell(7, 5)]);
}

#[test]
fn wall_without_shield_ends_the_game() {
    let mut config = small(0);
    config.stone_wall_period = 1;
    let mut g = Game::start(config, 0);
    press(&mut g, false, true, false, false);
    g.step_with(SpawnPicks { apple: 0, blueberry: 0, golden_apple: 0, orange: 0, stone_wall: 54 });
    assert_eq!(g.stone_walls(), vec![cell(7, 5)]);
    g.step_with(picks(0));
    assert!(!g.is_alive());
    assert_eq!(g.head(), cell(6, 5));
}

#[test]
fn shield_breaks_one_wall() {
    let mut config = small(0);
    config.orange_period = 1;
    config.stone_wall_period = 1;
    let mut g = Game::start(config, 0);
    press(&mut g, false, true, false, false);
    g.step_with(SpawnPicks { apple: 0, blueberry: 0, golden_apple: 0, orange: 54, stone_wall: 0 });
    assert_eq!(g.orange(), Some(cell(7, 5)));
    assert_eq!(g.stone_walls(), vec![cell(1, 0)]);
    g.step_with(SpawnPicks { apple: 0, blueberry: 0, golden_apple: 0, orange: 0, stone_wall: 54 });
    assert!(g.is_shielded());
    assert_eq!(g.stone_walls(), vec![cell(1, 0), cell(8, 5)]);
    g.step_with(picks(0));
    assert!(g.is_alive());
    assert!(!g.is_shielded());
    assert_eq!(g.head(), cell(8, 5));
    assert!(!g.stone_walls().contains(&cell(8, 5)));
}

#[test]
fn frames_bring_a_step_at_the_delay() {
    let mut g = Game::start(small(1), 0);
    press(&mut g, false, true, false, false);
    for _ in 0..4 {
        assert!(!g.advance_frame_with(picks(0)));
    }
    assert_eq!(g.head(), cell(5, 5));
    assert!(g.advance_frame_with(picks(0)));
    assert_eq!(g.head(), cell(6, 5));
}

#[test]
fn reset_after_game_over_is_fresh() {
    let mut g = Game::start(small(1), 0);
    press(&mut g, false, true, false, false);
    for _ in 0..5 {
        g.step_with(picks(0));
    }
    assert!(!g.is_alive());
    g.reset_with(3);
    assert!(g.is_alive());
    assert_eq!(g.score(), 0);
    assert_eq!(g.snake_cells(), vec![cell(5, 5)]);
    assert_eq!(g.apple(), Some(cell(3, 0)));
    assert_eq!(g.blueberry(), None);
    assert_eq!(g.golden_apple(), None);
    assert_eq!(g.orange(), None);
    assert!(g.stone_walls().is_empty());
    assert!(!g.is_shielded());
    assert_eq!(g.direction(), None);
}

#[test]
fn space_restarts_only_after_game_over() {
    let mut g = Game::new(small(1));
    let space = Keys { left: false, right: true, up: false, down: false, space: true };
    assert!(g.handle_keys(space));
    for _ in 0..5 {
        g.step_with(picks(0));
    }
    assert!(!g.is_alive());
    let quiet = Keys { left: false, right: false, up: false, down: false, space: false };
    assert!(!g.handle_keys(quiet));
    assert!(!g.is_alive());
    assert!(!g.handle_keys(space));
    assert!(g.is_alive());
    assert_eq!(g.snake_cells(), vec![cell(5, 5)]);
    assert!(g.apple().is_some());
    assert!(!g.stone_walls().contains(&cell(5, 5)));
}

#[test]
fn full_board_spawns_nothing() {
    let mut config = small(1);
    config.width = 3;
    config.height = 3;
    let g = Game::start(config, 7);
    assert_eq!(g.apple(), None);
    assert!(g.open_cells().is_empty());
    assert_eq!(g.spawn_cell(0), None);
}

#[test]
fn standard_config_is_valid() {
    let c = Config::standard();
    assert!(c.is_valid());
    let g = Game::new(c);
    assert_eq!(g.snake_cells(), vec![cell(38, 22)]);
    let mut bad = c;
    bad.speedup_percent = 150;
    assert!(!bad.is_valid());
}
