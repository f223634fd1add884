//! The per-evaluation coordinate context: a quadtree cell `(zoom, x, y)`
//! together with its bounds in the planar map frame, convertible to the
//! fixed-point per-tile uniform record.

use vstd::prelude::*;

use crate::types::COORD_MAX;

verus! {

/// The per-tile uniform: the tile's frame in fixed-point map coordinates,
/// `(min_lat, min_lon, lat_span, lon_span)`.
#[derive(Clone, Copy, Debug, PartialEq, Eq, Structural)]
pub struct TileBounds {
    pub min_lat: i32,
    pub min_lon: i32,
    pub lat_span: i32,
    pub lon_span: i32,
}

/// A quadtree node: zoom level, per-level column and row, and the cell's
/// bounds in the planar map frame (`y0` is the cell's top, `y1` its bottom,
/// matching tile row order).
#[derive(Clone, Copy, Debug, PartialEq, Eq, Structural)]
pub struct Tile {
    pub zoom: u8,
    pub tile_x: u32,
    pub tile_y: u32,
    pub x0: i64,
    pub y0: i64,
    pub x1: i64,
    pub y1: i64,
}

impl Tile {
    /// The bounds are ordered and lie inside the planar map frame.
    pub open spec fn wf(self) -> bool {
        &&& -COORD_MAX <= self.x0 <= self.x1 <= COORD_MAX
        &&& -COORD_MAX <= self.y0 <= self.y1 <= COORD_MAX
    }

    /// The root tile: the whole planar map frame.
    pub fn world() -> (t: Tile)
        ensures
            t.wf(),
            t.zoom == 0,
            t.tile_x == 0,
            t.tile_y == 0,
            t.x0 == -COORD_MAX,
            t.y0 == -COORD_MAX,
            t.x1 == COORD_MAX,
            t.y1 == COORD_MAX,
    {
        Tile {
            zoom: 0,
            tile_x: 0,
            tile_y: 0,
            x0: -COORD_MAX,
            y0: -COORD_MAX,
            x1: COORD_MAX,
            y1: COORD_MAX,
        }
    }

    /// The four children of this cell, splitting at the integer midpoints:
    /// bottom-left, bottom-right, top-right, top-left. Each child nests
    /// inside this cell, sits at the next zoom level, and doubles the
    /// per-level indices; the four boxes partition this cell's box exactly,
    /// one per quadrant of the midpoint split.
    pub fn children(&self) -> (c: [Tile; 4])
        requires
            self.wf(),
            self.zoom < 255,
            self.tile_x <= 0x7FFF_FFFEu32,
            self.tile_y <= 0x7FFF_FFFEu32,
        ensures
            forall|i: int|
                0 <= i < 4 ==> (#[trigger] c@[i]).wf() && c@[i].zoom == self.zoom + 1 && self.x0
                    <= c@[i].x0 <= c@[i].x1 <= self.x1 && self.y0 <= c@[i].y0 <= c@[i].y1
                    <= self.y1,
            c@[0].tile_x == 2 * self.tile_x && c@[0].tile_y == 2 * self.tile_y + 1,
            c@[1].tile_x == 2 * self.tile_x + 1 && c@[1].tile_y == 2 * self.tile_y + 1,
            c@[2].tile_x == 2 * self.tile_x + 1 && c@[2].tile_y == 2 * self.tile_y,
            c@[3].tile_x == 2 * self.tile_x && c@[3].tile_y == 2 * self.tile_y,
            ({
                let mx = (self.x0 + self.x1) / 2;
                let my = (self.y0 + self.y1) / 2;
                &&& c@[0].x0 == self.x0 && c@[0].x1 == mx && c@[0].y0 == my && c@[0].y1 == self.y1
                &&& c@[1].x0 == mx && c@[1].x1 == self.x1 && c@[1].y0 == my && c@[1].y1 == self.y1
                &&& c@[2].x0 == mx && c@[2].x1 == self.x1 && c@[2].y0 == self.y0 && c@[2].y1 == my
                &&& c@[3].x0 == self.x0 && c@[3].x1 == mx && c@[3].y0 == self.y0 && c@[3].y1 == my
            }),
    {
        let new_tile_x = self.tile_x * 2;
        let new_tile_y = self.tile_y * 2;
        let mx = midpoint(self.x0, self.x1);
        let my = midpoint(self.y0, self.y1);
        [
            Tile {
                zoom: self.zoom + 1,
                tile_x: new_tile_x,
                tile_y: new_tile_y + 1,
                x0: self.x0,
                y0: my,
                x1: mx,
                y1: self.y1,
            },
            Tile {
                zoom: self.zoom + 1,
                tile_x: new_tile_x + 1,
                tile_y: new_tile_y + 1,
                x0: mx,
                y0: my,
                x1: self.x1,
                y1: self.y1,
            },
            Tile {
                zoom: self.zoom + 1,
                tile_x: new_tile_x + 1,
                tile_y: new_tile_y,
                x0: mx,
                y0: self.y0,
                x1: self.x1,
                y1: my,
            },
            Tile {
                zoom: self.zoom + 1,
                tile_x: new_tile_x,
                tile_y: new_tile_y,
                x0: self.x0,
                y0: self.y0,
                x1: mx,
                y1: my,
            },
        ]
    }

    /// The fixed-point per-tile uniform: minimum corner and spans, in map
    /// coordinates. The latitude axis is `y`, the longitude axis `x`.
    pub fn into_bounds(&self) -> (b: TileBounds)
        requires
            self.wf(),
        ensures
            b.min_lat == self.y0,
            b.min_lon == self.x0,
            b.lat_span == self.y1 - self.y0,
            b.lon_span == self.x1 - self.x0,
    {
        TileBounds {
            min_lat: self.y0 as i32,
            min_lon: self.x0 as i32,
            lat_span: (self.y1 - self.y0) as i32,
            lon_span: (self.x1 - self.x0) as i32,
        }
    }
}

/// The floor of the midpoint of two ordered bounds.
fn midpoint(a: i64, b: i64) -> (r: i64)
    requires
        -COORD_MAX <= a <= b <= COORD_MAX,
    ensures
        r == (a + b) / 2,
        a <= r <= b,
{
    let s = a + b;
    let r = if s >= 0 {
        s / 2
    } else {
        -((-s + 1) / 2)
    };
    proof {
        if s < 0 {
            assert(-((1 - s) / 2) == s / 2) by (nonlinear_arith)
                requires
                    s < 0,
            ;
        }
        assert(a <= s / 2 <= b) by (nonlinear_arith)
            requires
                a <= b,
                s == a + b,
        ;
    }
    r
}

} // verus!
