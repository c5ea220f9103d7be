//! Filled and stroked rectangles.

use crate::geometry::{fits_i32, fits_i32_exec, BoundingBox, Point, Size};
use vstd::prelude::*;

verus! {

/// Where the stroke's extent lies relative to the rectangle's edges: with
/// `Outside` the drawn extent grows by half the stroke width on each side,
/// with `Inside` it shrinks by as much, with `Center` it is the rectangle.
/// The stroke is a band `stroke_width` pixels wide along the inside of the
/// drawn extent.
#[derive(Clone, Copy, Debug, PartialEq, Eq, Structural)]
pub enum StrokeAlignment {
    Inside,
    Center,
    Outside,
}

/// A rectangle with an optional stroke color and an optional fill color
/// (`None` draws nothing there).
#[derive(Clone, Copy, Debug, PartialEq, Eq, Structural)]
pub struct Rectangle {
    pub area: BoundingBox,
    pub stroke_width: u32,
    pub stroke_alignment: StrokeAlignment,
    pub stroke_color: Option<bool>,
    pub fill_color: Option<bool>,
}

impl Rectangle {
    /// How far the drawn extent reaches past each edge of `area`.
    pub open spec fn grow(self) -> int {
        match self.stroke_alignment {
            StrokeAlignment::Outside => self.stroke_width as int / 2,
            StrokeAlignment::Center => 0,
            StrokeAlignment::Inside => -(self.stroke_width as int / 2),
        }
    }

    pub open spec fn outer_left(self) -> int {
        self.area.top_left.x - self.grow()
    }

    pub open spec fn outer_top(self) -> int {
        self.area.top_left.y - self.grow()
    }

    pub open spec fn outer_width(self) -> int {
        let w = self.area.size.width + 2 * self.grow();
        if w < 0 {
            0
        } else {
            w
        }
    }

    pub open spec fn outer_height(self) -> int {
        let h = self.area.size.height + 2 * self.grow();
        if h < 0 {
            0
        } else {
            h
        }
    }

    /// The drawn extent is representable as a `BoundingBox`.
    pub open spec fn bounds_fit(self) -> bool {
        &&& fits_i32(self.outer_left())
        &&& fits_i32(self.outer_top())
        &&& self.outer_width() <= u32::MAX
        &&& self.outer_height() <= u32::MAX
    }

    /// The drawn extent.
    pub open spec fn bbox(self) -> BoundingBox {
        BoundingBox {
            top_left: Point { x: self.outer_left() as i32, y: self.outer_top() as i32 },
            size: Size { width: self.outer_width() as u32, height: self.outer_height() as u32 },
        }
    }

    /// What the rectangle draws at `(x, y)`: the fill color strictly more
    /// than `stroke_width` pixels inside the extent, the stroke color on the
    /// band along its edges, nothing outside.
    pub open spec fn ink(self, x: int, y: int) -> Option<bool> {
        let rx = x - self.outer_left();
        let ry = y - self.outer_top();
        let s = self.stroke_width as int;
        if 0 <= rx < self.outer_width() && 0 <= ry < self.outer_height() {
            if s <= rx < self.outer_width() - s && s <= ry < self.outer_height() - s {
                self.fill_color
            } else {
                self.stroke_color
            }
        } else {
            None
        }
    }

    /// The same rectangle moved by `(dx, dy)`.
    pub open spec fn translated(self, dx: int, dy: int) -> Rectangle {
        Rectangle { area: self.area.translated(dx, dy), ..self }
    }

    pub fn new(
        area: BoundingBox,
        stroke_width: u32,
        stroke_alignment: StrokeAlignment,
        stroke_color: Option<bool>,
        fill_color: Option<bool>,
    ) -> (r: Rectangle)
        ensures
            r == (Rectangle { area, stroke_width, stroke_alignment, stroke_color, fill_color }),
    {
        Rectangle { area, stroke_width, stroke_alignment, stroke_color, fill_color }
    }

    fn grow_exec(&self) -> (r: i64)
        ensures
            r == self.grow(),
    {
        match self.stroke_alignment {
            StrokeAlignment::Outside => (self.stroke_width / 2) as i64,
            StrokeAlignment::Center => 0,
            StrokeAlignment::Inside => -((self.stroke_width / 2) as i64),
        }
    }

    fn outer_size(&self) -> (r: (i64, i64))
        ensures
            r.0 == self.outer_width(),
            r.1 == self.outer_height(),
    {
        let g = self.grow_exec();
        let w = self.area.size.width as i64 + 2 * g;
        let h = self.area.size.height as i64 + 2 * g;
        (if w < 0 { 0 } else { w }, if h < 0 { 0 } else { h })
    }

    /// Whether the drawn extent is representable.
    pub fn fits(&self) -> (r: bool)
        ensures
            r == self.bounds_fit(),
    {
        let g = self.grow_exec();
        let (w, h) = self.outer_size();
        fits_i32_exec(self.area.top_left.x as i64 - g) && fits_i32_exec(self.area.top_left.y as i64 - g)
            && w <= u32::MAX as i64 && h <= u32::MAX as i64
    }

    /// The drawn extent.
    pub fn bounding_box(&self) -> (r: BoundingBox)
        requires
            self.bounds_fit(),
        ensures
            r == self.bbox(),
    {
        let g = self.grow_exec();
        let (w, h) = self.outer_size();
        BoundingBox {
            top_left: Point {
                x: (self.area.top_left.x as i64 - g) as i32,
                y: (self.area.top_left.y as i64 - g) as i32,
            },
            size: Size { width: w as u32, height: h as u32 },
        }
    }

    /// What the rectangle draws at `(x, y)`.
    pub fn ink_at(&self, x: u32, y: u32) -> (r: Option<bool>)
        ensures
            r == self.ink(x as int, y as int),
    {
        let g = self.grow_exec();
        let (w, h) = self.outer_size();
        let rx = x as i64 - (self.area.top_left.x as i64 - g);
        let ry = y as i64 - (self.area.top_left.y as i64 - g);
        let s = self.stroke_width as i64;
        if 0 <= rx && rx < w && 0 <= ry && ry < h {
            if s <= rx && rx < w - s && s <= ry && ry < h - s {
                self.fill_color
            } else {
                self.stroke_color
            }
        } else {
            None
        }
    }
}

/// Whether `(x, y)` lies in the disc of diameter `d` whose bounding square
/// has its corner at `(left, top)`: the pixel center is within `d / 2` of
/// the disc's center.
pub open spec fn in_disc(left: int, top: int, d: int, x: int, y: int) -> bool {
    let u = 2 * (x - left) + 1 - d;
    let v = 2 * (y - top) + 1 - d;
    &&& 0 <= x - left < d
    &&& 0 <= y - top < d
    &&& u * u + v * v <= d * d
}

/// A circle with an optional stroke color and an optional fill color.
#[derive(Clone, Copy, Debug, PartialEq, Eq, Structural)]
pub struct Circle {
    pub top_left: Point,
    pub diameter: u32,
    pub stroke_width: u32,
    pub stroke_alignment: StrokeAlignment,
    pub stroke_color: Option<bool>,
    pub fill_color: Option<bool>,
}

impl Circle {
    /// How far the drawn extent reaches past the circle's edge.
    pub open spec fn grow(self) -> int {
        match self.stroke_alignment {
            StrokeAlignment::Outside => self.stroke_width as int / 2,
            StrokeAlignment::Center => 0,
            StrokeAlignment::Inside => -(self.stroke_width as int / 2),
        }
    }

    pub open spec fn outer_left(self) -> int {
        self.top_left.x - self.grow()
    }

    pub open spec fn outer_top(self) -> int {
        self.top_left.y - self.grow()
    }

    /// Diameter of the drawn extent.
    pub open spec fn outer_diameter(self) -> int {
        let d = self.diameter + 2 * self.grow();
        if d < 0 {
            0
        } else {
            d
        }
    }

    /// The drawn extent is representable as a `BoundingBox`.
    pub open spec fn bounds_fit(self) -> bool {
        &&& fits_i32(self.outer_left())
        &&& fits_i32(self.outer_top())
        &&& self.outer_diameter() <= u32::MAX
    }

    pub open spec fn bbox(self) -> BoundingBox {
        BoundingBox {
            top_left: Point { x: self.outer_left() as i32, y: self.outer_top() as i32 },
            size: Size {
                width: self.outer_diameter() as u32,
                height: self.outer_diameter() as u32,
            },
        }
    }

    /// What the circle draws at `(x, y)`: the fill color in the disc
    /// `stroke_width` pixels inside the drawn extent, the stroke color on the
    /// rest of the drawn disc, nothing outside it.
    pub open spec fn ink(self, x: int, y: int) -> Option<bool> {
        let s = self.stroke_width as int;
        let d = self.outer_diameter();
        if in_disc(self.outer_left(), self.outer_top(), d, x, y) {
            if in_disc(self.outer_left() + s, self.outer_top() + s, d - 2 * s, x, y) {
                self.fill_color
            } else {
                self.stroke_color
            }
        } else {
            None
        }
    }

    /// The same circle moved by `(dx, dy)`.
    pub open spec fn translated(self, dx: int, dy: int) -> Circle {
        Circle {
            top_left: Point { x: (self.top_left.x + dx) as i32, y: (self.top_left.y + dy) as i32 },
            ..self
        }
    }

    pub fn new(
        top_left: Point,
        diameter: u32,
        stroke_width: u32,
        stroke_alignment: StrokeAlignment,
        stroke_color: Option<bool>,
        fill_color: Option<bool>,
    ) -> (r: Circle)
        ensures
            r == (Circle {
                top_left,
                diameter,
                stroke_width,
                stroke_alignment,
                stroke_color,
                fill_color,
            }),
    {
        Circle { top_left, diameter, stroke_width, stroke_alignment, stroke_color, fill_color }
    }

    fn grow_exec(&self) -> (r: i64)
        ensures
            r == self.grow(),
    {
        match self.stroke_alignment {
            StrokeAlignment::Outside => (self.stroke_width / 2) as i64,
            StrokeAlignment::Center => 0,
            StrokeAlignment::Inside => -((self.stroke_width / 2) as i64),
        }
    }

    fn outer_diameter_exec(&self) -> (r: i64)
        ensures
            r == self.outer_diameter(),
    {
        let d = self.diameter as i64 + 2 * self.grow_exec();
        if d < 0 {
            0
        } else {
            d
        }
    }

    /// Whether the drawn extent is representable.
    pub fn fits(&self) -> (r: bool)
        ensures
            r == self.bounds_fit(),
    {
        let g = self.grow_exec();
        let d = self.outer_diameter_exec();
        fits_i32_exec(self.top_left.x as i64 - g) && fits_i32_exec(self.top_left.y as i64 - g) && d
            <= u32::MAX as i64
    }

    pub fn bounding_box(&self) -> (r: BoundingBox)
        requires
            self.bounds_fit(),
        ensures
            r == self.bbox(),
    {
        let g = self.grow_exec();
        let d = self.outer_diameter_exec();
        BoundingBox {
            top_left: Point {
                x: (self.top_left.x as i64 - g) as i32,
                y: (self.top_left.y as i64 - g) as i32,
            },
            size: Size { width: d as u32, height: d as u32 },
        }
    }

    /// What the circle draws at `(x, y)`.
    pub fn ink_at(&self, x: u32, y: u32) -> (r: Option<bool>)
        ensures
            r == self.ink(x as int, y as int),
    {
        let g = self.grow_exec();
        let d = self.outer_diameter_exec();
        let left = self.top_left.x as i64 - g;
        let top = self.top_left.y as i64 - g;
        let s = self.stroke_width as i64;
        if disc_contains(left, top, d, x as i64, y as i64) {
            if disc_contains(left + s, top + s, d - 2 * s, x as i64, y as i64) {
                self.fill_color
            } else {
                self.stroke_color
            }
        } else {
            None
        }
    }
}

/// Whether `(x, y)` lies in the disc of diameter `d` with corner
/// `(left, top)`.
fn disc_contains(left: i64, top: i64, d: i64, x: i64, y: i64) -> (r: bool)
    requires
        -0x4_0000_0000 <= left <= 0x4_0000_0000,
        -0x4_0000_0000 <= top <= 0x4_0000_0000,
        -0x4_0000_0000 <= d <= 0x4_0000_0000,
        0 <= x <= 0x1_0000_0000,
        0 <= y <= 0x1_0000_0000,
    ensures
        r == in_disc(left as int, top as int, d as int, x as int, y as int),
{
    let rx = x - left;
    let ry = y - top;
    if rx < 0 || rx >= d || ry < 0 || ry >= d {
        return false;
    }
    let u = (2 * rx + 1 - d) as i128;
    let v = (2 * ry + 1 - d) as i128;
    let dd = d as i128;
    assert(u * u <= 0x100_0000_0000_0000_0000) by (nonlinear_arith)
        requires
            -0x10_0000_0000 <= u <= 0x10_0000_0000,
    ;
    assert(v * v <= 0x100_0000_0000_0000_0000) by (nonlinear_arith)
        requires
            -0x10_0000_0000 <= v <= 0x10_0000_0000,
    ;
    assert(0 <= dd * dd <= 0x100_0000_0000_0000_0000) by (nonlinear_arith)
        requires
            0 <= dd <= 0x10_0000_0000,
    ;
    assert(0 <= u * u) by (nonlinear_arith);
    assert(0 <= v * v) by (nonlinear_arith);
    u * u + v * v <= dd * dd
}

} // verus!
