//! Projection and shading: maps each ray's travel distance and projected
//! wall height to a vertical strip of filled-rectangle draw commands with
//! distance-based darkening and a periodic dither pattern, plus the static
//! scene rectangles (minimap tiles and the sky/floor backdrop).
//!
//! The projection side of the renderer works in integer screen pixels: the
//! projected height is already a pixel count, and the strip coordinates and
//! sizes below are pixel values.

use vstd::prelude::*;

verus! {

use crate::draw::{Color, RectCmd};
use crate::fixed::tmod;
use crate::geometry::Point;
use crate::grid::GridMap;
use crate::march::{cast_ray, ray_distance, projected_height, PROJECTION_SCALE, STEP_LIMIT};

/// Base brightness of a wall strip before darkening.
pub const BASE_BRIGHTNESS: i64 = 180;

/// Brightness added on the lit half of the dither pattern.
pub const DITHER_BOOST: i64 = 10;

/// Half the screen height in pixels: strips are centered on this axis.
pub const SCREEN_HALF_HEIGHT: i64 = 300;

/// Denominator of the linear darkness falloff: darkness is
/// `1 + distance / 4` world units, which over subunit distances is
/// `(FALLOFF_SCALE + distance) / FALLOFF_SCALE`.
pub const FALLOFF_SCALE: i64 = 4_000;

/// The dither boost for a screen position: the pattern alternates over a
/// tileable spatial period, lit on the lower half of each period (by the
/// machine's truncating remainder).
pub open spec fn dither_boost_at(x: int, y: int, period: int) -> int {
    if tmod(x + y, period) < period / 2 {
        DITHER_BOOST as int
    } else {
        0
    }
}

/// The final channel value for a strip row: the boosted base brightness
/// divided by the linear darkness factor, floored.
pub open spec fn shade_value(distance: int, boost: int) -> int {
    ((BASE_BRIGHTNESS + boost) * FALLOFF_SCALE as int) / (FALLOFF_SCALE + distance)
}

/// The screen y coordinate of row `j` of a strip of height `h`: rows run
/// downward from the top of the centered strip, with an odd height's
/// center offset rounded up.
pub open spec fn strip_row_y(h: int, j: int) -> int {
    -SCREEN_HALF_HEIGHT + (SCREEN_HALF_HEIGHT - (h + 1) / 2 + j)
}

/// The draw command for row `j` of the strip at screen column position `x`
/// for a wall at `distance`: a purple-tinted rectangle whose red and blue
/// channels carry the shade value.
pub open spec fn strip_row_cmd(x: int, h: int, w: int, period: int, distance: int, j: int) -> RectCmd {
    let y = strip_row_y(h, j);
    let level = shade_value(distance, dither_boost_at(x, y, period));
    RectCmd {
        center: Point { x: x as i64, y: y as i64 },
        width: w as i64,
        height: h as i64,
        color: Color { r: level as u8, g: 0, b: level as u8 },
    }
}

/// The whole strip: one command per pixel row of the projected height.
pub open spec fn strip_cmds(x: int, h: int, w: int, period: int, distance: int) -> Seq<RectCmd> {
    Seq::new(
        if h >= 0 {
            h as nat
        } else {
            0
        },
        |j: int| strip_row_cmd(x, h, w, period, distance, j),
    )
}

/// Renders one vertical wall slice at screen column position `x` as one
/// filled rectangle per pixel row, shaded by distance and dithered over
/// `dither_period`.
pub fn draw_wall_slice(
    x: i64,
    wall_height: i64,
    slice_width: i64,
    dither_period: i64,
    distance: i64,
) -> (r: Vec<RectCmd>)
    requires
        0 <= wall_height <= PROJECTION_SCALE,
        0 < dither_period <= 1_000_000,
        0 <= distance <= 4_000_000,
        -1_000_000_000 <= x <= 1_000_000_000,
    ensures
        r@ == strip_cmds(
            x as int,
            wall_height as int,
            slice_width as int,
            dither_period as int,
            distance as int,
        ),
{
    let ghost target = strip_cmds(
        x as int,
        wall_height as int,
        slice_width as int,
        dither_period as int,
        distance as int,
    );
    let half: i64 = (wall_height + 1) / 2;
    let mut out: Vec<RectCmd> = Vec::new();
    let mut j: i64 = 0;
    while j < wall_height
        invariant
            0 <= j <= wall_height,
            0 <= wall_height <= PROJECTION_SCALE,
            0 < dither_period <= 1_000_000,
            0 <= distance <= 4_000_000,
            -1_000_000_000 <= x <= 1_000_000_000,
            half == (wall_height + 1) as int / 2,
            out@.len() == j,
            forall|k: int|
                0 <= k < j ==> out@[k] == strip_row_cmd(
                    x as int,
                    wall_height as int,
                    slice_width as int,
                    dither_period as int,
                    distance as int,
                    k,
                ),
        decreases wall_height - j,
    {
        let y: i64 = -SCREEN_HALF_HEIGHT + (SCREEN_HALF_HEIGHT - half + j);
        let phase: i64 = (x + y) % dither_period;
        let boost: i64 = if phase < dither_period / 2 {
            DITHER_BOOST
        } else {
            0
        };
        let level: i64 = ((BASE_BRIGHTNESS + boost) * FALLOFF_SCALE) / (FALLOFF_SCALE + distance);
        proof {
            assert(0 <= ((BASE_BRIGHTNESS + boost) * FALLOFF_SCALE) as int / (FALLOFF_SCALE
                + distance) as int <= 255) by (nonlinear_arith)
                requires
                    720_000 <= (BASE_BRIGHTNESS + boost) * FALLOFF_SCALE <= 760_000,
                    4_000 <= FALLOFF_SCALE + distance,
            ;
        }
        out.push(
            RectCmd {
                center: Point { x, y },
                width: slice_width,
                height: wall_height,
                color: Color { r: level as u8, g: 0, b: level as u8 },
            },
        );
        j = j + 1;
    }
    proof {
        assert(out@ =~= target);
    }
    out
}

/// The screen column position of ray `k` of `count`: columns are laid out
/// `slice_width` apart, centered on the screen.
pub open spec fn column_x(k: int, count: int, slice_width: int) -> int {
    (k - count / 2) * slice_width
}

/// Casts one ray per screen column from `origin` along the caller-supplied
/// per-column step vectors and renders each hit as a shaded wall strip:
/// the full screen-width fan of the perspective renderer. Column `k`'s
/// strip stands at `column_x(k, ..)` and is shaded by that ray's travel
/// distance.
pub fn ray_cast(
    map: &GridMap,
    origin: Point,
    steps: &Vec<Point>,
    slice_width: i64,
    dither_period: i64,
) -> (r: Vec<Vec<RectCmd>>)
    requires
        map.wf(),
        origin.in_bounds(),
        forall|i: int|
            0 <= i < steps@.len() ==> -STEP_LIMIT <= (#[trigger] steps@[i]).x <= STEP_LIMIT
                && -STEP_LIMIT <= steps@[i].y <= STEP_LIMIT,
        0 <= slice_width <= 10_000,
        0 < dither_period <= 1_000_000,
        steps@.len() <= 100_000,
    ensures
        r@.len() == steps@.len(),
        forall|k: int|
            0 <= k < steps@.len() ==> (#[trigger] r@[k])@ == ({
                let d = ray_distance(*map, origin, steps@[k]);
                strip_cmds(
                    column_x(k, steps@.len() as int, slice_width as int),
                    projected_height(d),
                    slice_width as int,
                    dither_period as int,
                    d,
                )
            }),
{
    let count: usize = steps.len();
    let mut out: Vec<Vec<RectCmd>> = Vec::new();
    let mut k: usize = 0;
    while k < count
        invariant
            0 <= k <= count,
            count == steps@.len() <= 100_000,
            map.wf(),
            origin.in_bounds(),
            forall|i: int|
                0 <= i < steps@.len() ==> -STEP_LIMIT <= (#[trigger] steps@[i]).x <= STEP_LIMIT
                    && -STEP_LIMIT <= steps@[i].y <= STEP_LIMIT,
            0 <= slice_width <= 10_000,
            0 < dither_period <= 1_000_000,
            out@.len() == k,
            forall|i: int|
                0 <= i < k ==> (#[trigger] out@[i])@ == ({
                    let d = ray_distance(*map, origin, steps@[i]);
                    strip_cmds(
                        column_x(i, steps@.len() as int, slice_width as int),
                        projected_height(d),
                        slice_width as int,
                        dither_period as int,
                        d,
                    )
                }),
        decreases count - k,
    {
        proof {
            assert(-1_000_000_000 <= ((k as int) - (count as int) / 2) * slice_width
                <= 1_000_000_000) by (nonlinear_arith)
                requires
                    0 <= k <= 100_000,
                    0 <= count <= 100_000,
                    0 <= slice_width <= 10_000,
            ;
        }
        let x: i64 = (k as i64 - (count / 2) as i64) * slice_width;
        let ray = cast_ray(origin, steps[k], map);
        let strip = draw_wall_slice(x, ray.wall_height, slice_width, dither_period, ray.distance);
        out.push(strip);
        k = k + 1;
    }
    out
}

/// The minimap tile for the blocked cell at `(i, j)`: a purple square of
/// one tile size, laid out from the screen center (the row index drives
/// the horizontal position, as the minimap is drawn transposed).
pub open spec fn tile_cmd(m: GridMap, tw: int, th: int, i: int, j: int) -> RectCmd {
    RectCmd {
        center: Point {
            x: ((i - m.spec_rows() / 2) * tw + tw / 2) as i64,
            y: ((j - m.spec_cols() / 2) * th + th / 2) as i64,
        },
        width: tw as i64,
        height: th as i64,
        color: Color { r: 128, g: 0, b: 128 },
    }
}

/// The tiles of row `i` for the first `j` columns, in column order.
pub open spec fn row_tiles(m: GridMap, tw: int, th: int, i: int, j: nat) -> Seq<RectCmd>
    decreases j,
{
    if j == 0 {
        Seq::empty()
    } else {
        row_tiles(m, tw, th, i, (j - 1) as nat) + (if m.blocked_at(i, j - 1) {
            seq![tile_cmd(m, tw, th, i, j - 1)]
        } else {
            Seq::empty()
        })
    }
}

/// The tiles of the first `i` rows, row-major.
pub open spec fn tiles_upto(m: GridMap, tw: int, th: int, i: nat) -> Seq<RectCmd>
    decreases i,
{
    if i == 0 {
        Seq::empty()
    } else {
        tiles_upto(m, tw, th, (i - 1) as nat) + row_tiles(m, tw, th, i - 1, m.spec_cols() as nat)
    }
}

/// One tile per blocked map cell, row-major.
pub open spec fn spec_minimap(m: GridMap, tw: int, th: int) -> Seq<RectCmd> {
    tiles_upto(m, tw, th, m.spec_rows() as nat)
}

/// Renders the minimap: one filled tile per blocked cell of the map, laid
/// out on a grid of `tile_w` by `tile_h` pixels centered on the screen.
pub fn minimap_tiles(map: &GridMap, tile_w: i64, tile_h: i64) -> (r: Vec<RectCmd>)
    requires
        map.wf(),
        0 <= tile_w <= 1_000_000,
        0 <= tile_h <= 1_000_000,
    ensures
        r@ == spec_minimap(*map, tile_w as int, tile_h as int),
{
    let (rows, cols) = map.dimensions();
    let mut out: Vec<RectCmd> = Vec::new();
    let mut i: usize = 0;
    while i < rows
        invariant
            0 <= i <= rows,
            map.wf(),
            rows == map.spec_rows(),
            cols == map.spec_cols(),
            0 <= tile_w <= 1_000_000,
            0 <= tile_h <= 1_000_000,
            out@ == tiles_upto(*map, tile_w as int, tile_h as int, i as nat),
        decreases rows - i,
    {
        let mut j: usize = 0;
        while j < cols
            invariant
                0 <= i < rows,
                0 <= j <= cols,
                map.wf(),
                rows == map.spec_rows(),
                cols == map.spec_cols(),
                0 <= tile_w <= 1_000_000,
                0 <= tile_h <= 1_000_000,
                out@ == tiles_upto(*map, tile_w as int, tile_h as int, i as nat) + row_tiles(
                    *map,
                    tile_w as int,
                    tile_h as int,
                    i as int,
                    j as nat,
                ),
            decreases cols - j,
        {
            if map.is_blocked(i as i64, j as i64) {
                proof {
                    assert(-800_000_000 <= ((i as int) - (rows as int) / 2) * tile_w
                        <= 800_000_000) by (nonlinear_arith)
                        requires
                            0 <= i <= 800,
                            0 <= rows <= 800,
                            0 <= tile_w <= 1_000_000,
                    ;
                    assert(-800_000_000 <= ((j as int) - (cols as int) / 2) * tile_h
                        <= 800_000_000) by (nonlinear_arith)
                        requires
                            0 <= j <= 800,
                            0 <= cols <= 800,
                            0 <= tile_h <= 1_000_000,
                    ;
                }
                let cx: i64 = (i as i64 - (rows / 2) as i64) * tile_w + tile_w / 2;
                let cy: i64 = (j as i64 - (cols / 2) as i64) * tile_h + tile_h / 2;
                out.push(
                    RectCmd {
                        center: Point { x: cx, y: cy },
                        width: tile_w,
                        height: tile_h,
                        color: Color { r: 128, g: 0, b: 128 },
                    },
                );
            }
            proof {
                assert(out@ =~= tiles_upto(*map, tile_w as int, tile_h as int, i as nat)
                    + row_tiles(*map, tile_w as int, tile_h as int, i as int, (j + 1) as nat));
            }
            j = j + 1;
        }
        proof {
            assert(out@ =~= tiles_upto(*map, tile_w as int, tile_h as int, (i + 1) as nat));
        }
        i = i + 1;
    }
    out
}

/// The two backdrop rectangles of the perspective renderer: a dark sky
/// panel over the upper half and a lighter floor panel over the lower
/// quarter of a viewport of the given pixel size.
pub fn background_rects(width: i64, height: i64) -> (r: Vec<RectCmd>)
    requires
        0 <= width <= 1_000_000_000,
        0 <= height <= 1_000_000_000,
    ensures
        r@.len() == 2,
        r@[0] == (RectCmd {
            center: (Point { x: 0, y: (height / 2) as i64 }),
            width: width,
            height: height,
            color: (Color { r: 20, g: 0, b: 20 }),
        }),
        r@[1] == (RectCmd {
            center: (Point { x: 0, y: (-(height / 4)) as i64 }),
            width: width,
            height: (height / 2) as i64,
            color: (Color { r: 60, g: 0, b: 60 }),
        }),
{
    let mut out: Vec<RectCmd> = Vec::new();
    out.push(
        RectCmd {
            center: Point { x: 0, y: height / 2 },
            width,
            height,
            color: Color { r: 20, g: 0, b: 20 },
        },
    );
    out.push(
        RectCmd {
            center: Point { x: 0, y: -(height / 4) },
            width,
            height: height / 2,
            color: Color { r: 60, g: 0, b: 60 },
        },
    );
    out
}

} // verus!
