use snake_game::cell::{Cell, Direction};
use snake_game::grid::OccupancyGrid;
use snake_game::snake::Snake;
use snake_game::steering::{DirectionController, Keys};
use snake_game::timer::{FrameData, Waiter};

fn cell(x: i32, y: i32) -> Cell {
    Cell { x, y }
}

fn keys(left: bool, right: bool, up: bool, down: bool) -> Keys {
    Keys { left, right, up, down, space: false }
}

#[test]
fn neighbor_moves_one_cell() {
    let c = cell(4, 7);
    assert_eq!(c.neighbor(Direction::Up), cell(4, 6));
    assert_eq!(c.neighbor(Direction::Down), cell(4, 8));
    assert_eq!(c.neighbor(Direction::Left), cell(3, 7));
    assert_eq!(c.neighbor(Direction::Right), cell(5, 7));
    assert_eq!(Direction::Up.opposite(), Direction::Down);
    assert_eq!(Direction::Left.opposite(), Direction::Right);
    assert!(Direction::Down.is_vertical());
    assert!(!Direction::Right.is_vertical());
}

#[test]
fn index_is_row_major() {
    assert_eq!(snake_game::cell::index(cell(3, 2), 10, 5), 23);
    assert_eq!(snake_game::cell::index(cell(0, 0), 10, 5), 0);
    assert_eq!(snake_game::cell::index(cell(9, 4), 10, 5), 49);
}

#[test]
fn mark_covers_chebyshev_zone() {
    let mut g = OccupancyGrid::new(10, 10, 1);
    g.mark(cell(5, 5));
    assert!(g.is_forbidden(cell(4, 4)));
    assert!(g.is_forbidden(cell(6, 6)));
    assert!(g.is_forbidden(cell(5, 5)));
    assert!(!g.is_forbidden(cell(3, 5)));
    assert!(!g.is_forbidden(cell(5, 7)));
}

#[test]
fn mark_clips_at_the_border() {
    let mut g = OccupancyGrid::new(10, 10, 3);
    g.mark(cell(0, 0));
    assert!(g.is_forbidden(cell(3, 3)));
    assert!(!g.is_forbidden(cell(4, 0)));
    assert!(!g.is_forbidden(cell(0, 4)));
    g.unmark(cell(0, 0));
    assert!(!g.is_forbidden(cell(0, 0)));
}

#[test]
fn overlapping_marks_add_and_unmark_exactly() {
    let mut g = OccupancyGrid::new(10, 10, 1);
    g.mark(cell(5, 5));
    g.mark(cell(6, 5));
    g.unmark(cell(5, 5));
    assert!(!g.is_forbidden(cell(4, 4)));
    assert!(g.is_forbidden(cell(5, 5)));
    assert!(g.is_forbidden(cell(7, 6)));
    g.unmark(cell(6, 5));
    for x in 0..10 {
        for y in 0..10 {
            assert!(!g.is_forbidden(cell(x, y)));
        }
    }
}

#[test]
fn replayed_moves_restore_the_grid() {
    let fresh = Snake::new(cell(5, 5), 10, 10, 1);
    let mut s = Snake::new(cell(5, 5), 10, 10, 1);
    assert!(s.grow(cell(6, 5)));
    s.shrink();
    assert!(s.grow(cell(5, 5)));
    s.shrink();
    assert_eq!(s.cells(), fresh.cells());
    for x in 0..10 {
        for y in 0..10 {
            assert_eq!(s.is_off_limits(cell(x, y)), fresh.is_off_limits(cell(x, y)));
        }
    }
}

#[test]
fn snake_grows_and_shrinks_in_order() {
    let mut s = Snake::new(cell(5, 5), 10, 10, 1);
    assert!(s.grow(cell(6, 5)));
    assert!(s.grow(cell(7, 5)));
    assert_eq!(s.cells(), vec![cell(5, 5), cell(6, 5), cell(7, 5)]);
    assert_eq!(s.head(), cell(7, 5));
    assert_eq!(s.tail(), cell(5, 5));
    s.shrink();
    assert_eq!(s.cells(), vec![cell(6, 5), cell(7, 5)]);
    assert!(s.contains(cell(6, 5)));
    assert!(!s.contains(cell(5, 5)));
    assert!(s.is_off_limits(cell(5, 5)));
    assert!(!s.is_off_limits(cell(4, 5)));
    assert_eq!(s.len(), 2);
}

#[test]
fn growing_onto_second_segment_is_refused() {
    let mut s = Snake::new(cell(5, 5), 10, 10, 1);
    assert!(s.grow(cell(6, 5)));
    assert!(s.grow(cell(7, 5)));
    assert_eq!(s.len(), 3);
    assert!(!s.grow(cell(6, 5)));
    assert_eq!(s.cells(), vec![cell(5, 5), cell(6, 5), cell(7, 5)]);
}

#[test]
fn growing_onto_the_tail_is_allowed() {
    let mut s = Snake::new(cell(5, 5), 10, 10, 0);
    assert!(s.grow(cell(6, 5)));
    assert!(s.grow(cell(6, 6)));
    assert!(s.grow(cell(5, 6)));
    assert!(s.grow(cell(5, 5)));
    s.shrink();
    assert_eq!(s.cells(), vec![cell(6, 5), cell(6, 6), cell(5, 6), cell(5, 5)]);
    assert!(s.contains(cell(5, 5)));
}

#[test]
fn waiter_fires_on_its_period() {
    let mut w = Waiter::new(3);
    w.next_frame();
    assert!(!w.time_to_update());
    w.next_frame();
    assert!(!w.time_to_update());
    w.next_frame();
    assert!(w.time_to_update());
    assert_eq!(w.frame, 0);
    assert!(!w.tick());
    assert!(!w.tick());
    assert!(w.tick());
}

#[test]
fn frame_clock_rounds_the_delay_up() {
    let mut f = FrameData::new(450, 1, 1, 1, 1);
    for _ in 0..4 {
        f.next_frame();
        assert!(!f.time_to_update());
    }
    f.next_frame();
    assert!(f.time_to_update());
    assert_eq!(f.frame, 0);
}

#[test]
fn speed_changes_are_exact() {
    let mut f = FrameData::new(500, 1, 1, 1, 1);
    f.speed_up(92, 100);
    assert_eq!(f.frame_delay, 460);
    f.slow_down(140);
    assert_eq!(f.frame_delay, 600);
    f.speed_up(10, 100);
    assert_eq!(f.frame_delay, 100);
    f.slow_down(u64::MAX);
    assert_eq!(f.frame_delay, u64::MAX);
}

#[test]
fn reversal_leaves_buffer_unchanged() {
    let mut d = DirectionController::new();
    assert!(d.submit(Direction::Right));
    assert_eq!(d.commit(), Some(Direction::Right));
    assert!(!d.submit(Direction::Left));
    assert_eq!(d.buffered_direction, Some(Direction::Right));
    assert!(!d.submit(Direction::Right));
    assert!(d.submit(Direction::Up));
    assert!(d.submit(Direction::Down));
    assert_eq!(d.buffered_direction, Some(Direction::Down));
    assert_eq!(d.direction, Some(Direction::Right));
}

#[test]
fn keys_follow_priority_and_ignore_conflicts() {
    let mut d = DirectionController::new();
    d.submit_keys(keys(true, true, false, false));
    assert_eq!(d.buffered_direction, None);
    d.submit_keys(keys(true, false, true, false));
    assert_eq!(d.buffered_direction, Some(Direction::Left));
    d.commit();
    d.submit_keys(keys(false, true, false, true));
    assert_eq!(d.buffered_direction, Some(Direction::Down));
    d.submit_keys(keys(false, true, false, false));
    assert_eq!(d.buffered_direction, Some(Direction::Down));
}
