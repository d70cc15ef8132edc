use raycaster::draw::{Color, RectCmd};
use raycaster::geometry::Point;
use raycaster::grid::GridMap;
use raycaster::march::{cast_ray, wall_height, PROJECTION_SCALE};
use raycaster::shade::{background_rects, draw_wall_slice, minimap_tiles, ray_cast};

fn pt(x: i64, y: i64) -> Point {
    Point { x, y }
}

fn map_of(rows: Vec<Vec<i32>>) -> GridMap {
    GridMap::from_rows(rows).unwrap()
}

#[test]
fn grid_border_blocked_center_free() {
    let m = map_of(vec![vec![1, 1, 1], vec![1, 0, 1], vec![1, 1, 1]]);
    let (rows, cols) = m.dimensions();
    assert_eq!((rows, cols), (3, 3));
    for r in 0..3i64 {
        for c in 0..3i64 {
            if r == 1 && c == 1 {
                assert!(!m.is_blocked(r, c));
            } else {
                assert!(m.is_blocked(r, c));
            }
        }
    }
}

#[test]
fn grid_out_of_range_is_blocked() {
    let m = map_of(vec![vec![0, 0], vec![0, 0]]);
    assert!(m.is_blocked(-1, 0));
    assert!(m.is_blocked(0, -1));
    assert!(m.is_blocked(2, 0));
    assert!(m.is_blocked(0, 2));
    assert!(!m.is_blocked(1, 1));
}

#[test]
fn grid_world_lookup_floors_coordinates() {
    let m = map_of(vec![vec![0, 1]]);
    assert!(!m.is_blocked_world(999, 500));
    assert!(m.is_blocked_world(1000, 500));
    assert!(m.is_blocked_world(1999, 999));
}

#[test]
fn grid_world_lookup_negative_is_blocked() {
    // A negative coordinate floors to a negative cell index, which is out
    // of range and therefore blocked; it is not folded onto cell zero.
    let m = map_of(vec![vec![0, 0]]);
    assert!(m.is_blocked_world(-1, 500));
    assert!(m.is_blocked_world(500, -1));
    assert!(!m.is_blocked_world(500, 500));
}

#[test]
fn grid_rejects_ragged_rows() {
    assert!(GridMap::from_rows(vec![vec![0, 0], vec![0]]).is_none());
}

#[test]
fn grid_accepts_empty_map() {
    let m = GridMap::from_rows(vec![]).unwrap();
    assert_eq!(m.dimensions(), (0, 0));
    assert!(m.is_blocked(0, 0));
}

#[test]
fn march_into_adjacent_blocked_cell() {
    // A blocked cell one unit east, stepped at 0.1 units: ten steps, then
    // a travel distance of exactly one unit.
    let m = map_of(vec![vec![0, 1]]);
    let r = cast_ray(pt(0, 500), pt(100, 0), &m);
    assert_eq!(r.distance, 1000);
    assert_eq!(r.wall_height, 300);
}

#[test]
fn march_exhausts_step_ceiling() {
    // No blocked cell within reach: exactly the ceiling's 100 steps of 0.01
    // units each, one unit in all, never an unbounded walk.
    let m = map_of(vec![vec![0, 0], vec![0, 0]]);
    let r = cast_ray(pt(500, 500), pt(10, 0), &m);
    assert_eq!(r.distance, 1000);
}

#[test]
fn march_blocked_at_origin_travels_nothing() {
    let m = map_of(vec![vec![1]]);
    let r = cast_ray(pt(500, 500), pt(100, 0), &m);
    assert_eq!(r.distance, 0);
    assert_eq!(r.wall_height, PROJECTION_SCALE);
}

#[test]
fn march_hollow_border_scenario() {
    // 10 x 10 map, ones on the perimeter, zeros inside; a ray fired east
    // from the map center travels to the eastern border cell.
    let mut rows: Vec<Vec<i32>> = Vec::new();
    for r in 0..10 {
        let mut row: Vec<i32> = Vec::new();
        for c in 0..10 {
            if r == 0 || r == 9 || c == 0 || c == 9 {
                row.push(1);
            } else {
                row.push(0);
            }
        }
        rows.push(row);
    }
    let m = map_of(rows);
    let r = cast_ray(pt(5000, 5000), pt(100, 0), &m);
    assert_eq!(r.distance, 4000);
}

#[test]
fn wall_height_zero_distance_is_max_finite() {
    // Distance zero is clamped: the height is the largest the projection
    // can produce, not a division fault.
    assert_eq!(wall_height(0), PROJECTION_SCALE);
    assert_eq!(wall_height(0), 300_000);
}

#[test]
fn wall_height_inverse_distance() {
    assert_eq!(wall_height(1000), 300);
    assert_eq!(wall_height(2000), 150);
    assert_eq!(wall_height(299), 1003);
}

#[test]
fn wall_slice_rows_and_shading() {
    let r = draw_wall_slice(0, 2, 3, 8, 0);
    assert_eq!(r.len(), 2);
    assert_eq!(
        r[0],
        RectCmd {
            center: pt(0, -1),
            width: 3,
            height: 2,
            color: Color { r: 190, g: 0, b: 190 },
        }
    );
    assert_eq!(r[1].center, pt(0, 0));
    assert_eq!(r[1].color, Color { r: 190, g: 0, b: 190 });
}

#[test]
fn wall_slice_darkens_with_distance() {
    // darkness 1 + 4/4 = 2: floor(190 / 2) = 95.
    let r = draw_wall_slice(0, 1, 1, 8, 4000);
    assert_eq!(r[0].color, Color { r: 95, g: 0, b: 95 });
}

#[test]
fn wall_slice_dither_dark_half() {
    // (5 + -1) rem 8 = 4, on the dark half: no boost.
    let r = draw_wall_slice(5, 1, 1, 8, 0);
    assert_eq!(r[0].color, Color { r: 180, g: 0, b: 180 });
}

#[test]
fn wall_slice_dither_truncating_remainder() {
    // (-2 + -1) rem 8 = -3 by the machine's truncating remainder, which is
    // below the threshold: boosted.
    let r = draw_wall_slice(-2, 1, 1, 8, 0);
    assert_eq!(r[0].color, Color { r: 190, g: 0, b: 190 });
}

#[test]
fn ray_cast_single_column() {
    let m = map_of(vec![vec![0, 1]]);
    let steps = vec![pt(100, 0)];
    let r = ray_cast(&m, pt(0, 500), &steps, 4, 8);
    assert_eq!(r.len(), 1);
    assert_eq!(r[0].len(), 300);
    // distance 1000: darkness (4000 + 1000) / 4000, level 760000 / 5000.
    assert_eq!(
        r[0][0],
        RectCmd {
            center: pt(0, -150),
            width: 4,
            height: 300,
            color: Color { r: 152, g: 0, b: 152 },
        }
    );
}

#[test]
fn minimap_tiles_for_blocked_cells() {
    let m = map_of(vec![vec![1, 0], vec![0, 1]]);
    let r = minimap_tiles(&m, 100, 50);
    assert_eq!(r.len(), 2);
    assert_eq!(
        r[0],
        RectCmd {
            center: pt(-50, -25),
            width: 100,
            height: 50,
            color: Color { r: 128, g: 0, b: 128 },
        }
    );
    assert_eq!(r[1].center, pt(50, 25));
}

#[test]
fn background_sky_and_floor() {
    let r = background_rects(640, 480);
    assert_eq!(r.len(), 2);
    assert_eq!(
        r[0],
        RectCmd {
            center: pt(0, 240),
            width: 640,
            height: 480,
            color: Color { r: 20, g: 0, b: 20 },
        }
    );
    assert_eq!(
        r[1],
        RectCmd {
            center: pt(0, -120),
            width: 640,
            height: 240,
            color: Color { r: 60, g: 0, b: 60 },
        }
    );
}
