use raycaster::draw::Color;
use raycaster::geometry::{Point, Wall};
use raycaster::grid::GridMap;
use raycaster::sight::{
    initial_walls, line_of_sight, nearest_intersection, wall_lines, MARKER_RADIUS, SIGHT_RANGE,
};
use raycaster::viewer::{KeyState, Viewer, TURN_FULL};

fn pt(x: i64, y: i64) -> Point {
    Point { x, y }
}

fn vwall(x: i64) -> Wall {
    Wall { start: pt(x, -1000), end: pt(x, 1000) }
}

fn map_of(rows: Vec<Vec<i32>>) -> GridMap {
    GridMap::from_rows(rows).unwrap()
}

#[test]
fn resolver_picks_nearest_of_three() {
    // Walls crossed at distances 5, 3 and 9 units from the origin: the
    // resolver returns the crossing at distance 3.
    let walls = vec![vwall(5000), vwall(3000), vwall(9000)];
    let r = nearest_intersection(pt(0, 0), pt(10000, 0), &walls);
    assert_eq!(r, Some(pt(3000, 0)));
}

#[test]
fn resolver_empty_wall_set_reports_nothing() {
    let walls: Vec<Wall> = vec![];
    assert_eq!(nearest_intersection(pt(0, 0), pt(10000, 0), &walls), None);
}

#[test]
fn resolver_ignores_walls_behind_the_probe() {
    let walls = vec![vwall(-2000), vwall(4000)];
    let r = nearest_intersection(pt(0, 0), pt(10000, 0), &walls);
    assert_eq!(r, Some(pt(4000, 0)));
}

#[test]
fn sight_full_range_without_hit() {
    let walls: Vec<Wall> = vec![];
    let (line, marker) = line_of_sight(pt(0, 0), pt(1000, 0), &walls);
    assert_eq!(line.start, pt(0, 0));
    assert_eq!(line.end, pt(SIGHT_RANGE, 0));
    assert_eq!(line.color, Color { r: 255, g: 255, b: 255 });
    assert_eq!(marker.center, pt(SIGHT_RANGE, 0));
    assert_eq!(marker.radius, MARKER_RADIUS);
    assert_eq!(marker.color, Color { r: 0, g: 0, b: 255 });
}

#[test]
fn sight_shortened_to_nearest_hit() {
    let walls = vec![vwall(5000)];
    let (line, marker) = line_of_sight(pt(0, 0), pt(1000, 0), &walls);
    assert_eq!(line.end, pt(5000, 0));
    assert_eq!(marker.center, pt(5000, 0));
}

#[test]
fn wall_lines_one_per_wall() {
    let walls = vec![vwall(100), vwall(200)];
    let lines = wall_lines(&walls);
    assert_eq!(lines.len(), 2);
    assert_eq!(lines[0].start, pt(100, -1000));
    assert_eq!(lines[0].end, pt(100, 1000));
    assert_eq!(lines[1].start, pt(200, -1000));
    assert_eq!(lines[0].color, Color { r: 255, g: 255, b: 255 });
}

#[test]
fn initial_walls_exact_layout() {
    let walls = initial_walls(1_280_000, 720_000);
    assert_eq!(walls.len(), 2);
    assert_eq!(walls[0], Wall { start: pt(0, -360_000), end: pt(0, 360_000) });
    assert_eq!(
        walls[1],
        Wall { start: pt(-640_000, -102_857), end: pt(640_000, -102_857) }
    );
}

#[test]
fn move_into_blocked_cell_leaves_position_unchanged() {
    let m = map_of(vec![vec![0, 1]]);
    let mut v = Viewer::new(pt(500, 500), 0, 785_398);
    v.try_move(1000, 0, &m);
    assert_eq!(v.pos, pt(500, 500));
}

#[test]
fn move_into_free_cell_updates_exactly() {
    let m = map_of(vec![vec![0, 1]]);
    let mut v = Viewer::new(pt(500, 500), 0, 785_398);
    v.try_move(200, 0, &m);
    assert_eq!(v.pos, pt(700, 500));
}

#[test]
fn move_off_the_map_is_blocked() {
    let m = map_of(vec![vec![0, 1]]);
    let mut v = Viewer::new(pt(500, 500), 0, 785_398);
    v.try_move(-1000, 0, &m);
    assert_eq!(v.pos, pt(500, 500));
}

#[test]
fn turn_wraps_forward() {
    let mut v = Viewer::new(pt(500, 500), 6_283_000, 785_398);
    v.turn(200_000);
    assert_eq!(v.heading, 6_283_000 + 200_000 - TURN_FULL);
}

#[test]
fn turn_wraps_backward() {
    let mut v = Viewer::new(pt(500, 500), 0, 785_398);
    v.turn(-100);
    assert_eq!(v.heading, TURN_FULL - 100);
}

#[test]
fn turn_never_moves_position() {
    let mut v = Viewer::new(pt(500, 500), 0, 785_398);
    v.turn(300);
    assert_eq!(v.pos, pt(500, 500));
    assert_eq!(v.heading, 300);
}

#[test]
fn tick_applies_keys_in_order() {
    let m = map_of(vec![vec![0, 0]]);
    let keys = KeyState { up: true, down: false, left: false, right: true };
    let mut v = Viewer::new(pt(500, 500), 0, 785_398);
    v.apply_input(keys, pt(300, 0), 1000, &m);
    assert_eq!(v.pos, pt(800, 500));
    assert_eq!(v.heading, 1000);
}

#[test]
fn tick_forward_then_backward_cancels() {
    let m = map_of(vec![vec![0, 0]]);
    let keys = KeyState { up: true, down: true, left: false, right: false };
    let mut v = Viewer::new(pt(500, 500), 0, 785_398);
    v.apply_input(keys, pt(300, 0), 1000, &m);
    assert_eq!(v.pos, pt(500, 500));
}

#[test]
fn tick_blocked_forward_still_turns() {
    let m = map_of(vec![vec![0, 1]]);
    let keys = KeyState { up: true, down: false, left: true, right: false };
    let mut v = Viewer::new(pt(500, 500), 0, 785_398);
    v.apply_input(keys, pt(1000, 0), 1000, &m);
    assert_eq!(v.pos, pt(500, 500));
    assert_eq!(v.heading, TURN_FULL - 1000);
}
