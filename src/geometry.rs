//! Points, sizes and axis-aligned bounding boxes, and the layout rule that
//! centers a box on a target point.

use vstd::prelude::*;

verus! {

/// A point in display coordinates; may lie off screen.
#[derive(Clone, Copy, Debug, PartialEq, Eq, Structural)]
pub struct Point {
    pub x: i32,
    pub y: i32,
}

/// A non-negative extent in pixels.
#[derive(Clone, Copy, Debug, PartialEq, Eq, Structural)]
pub struct Size {
    pub width: u32,
    pub height: u32,
}

/// An axis-aligned rectangle given by its top-left corner and its size.
#[derive(Clone, Copy, Debug, PartialEq, Eq, Structural)]
pub struct BoundingBox {
    pub top_left: Point,
    pub size: Size,
}

pub open spec fn fits_i32(v: int) -> bool {
    i32::MIN <= v <= i32::MAX
}

impl Point {
    pub fn new(x: i32, y: i32) -> (r: Point)
        ensures
            r.x == x,
            r.y == y,
    {
        Point { x, y }
    }
}

impl Size {
    pub fn new(width: u32, height: u32) -> (r: Size)
        ensures
            r.width == width,
            r.height == height,
    {
        Size { width, height }
    }
}

impl BoundingBox {
    pub fn new(top_left: Point, size: Size) -> (r: BoundingBox)
        ensures
            r.top_left == top_left,
            r.size == size,
    {
        BoundingBox { top_left, size }
    }

    /// Horizontal center: left edge plus half the width, rounded down.
    pub open spec fn center_x(self) -> int {
        self.top_left.x + self.size.width as int / 2
    }

    /// Vertical center: top edge plus half the height, rounded down.
    pub open spec fn center_y(self) -> int {
        self.top_left.y + self.size.height as int / 2
    }

    /// The center is representable as a `Point`.
    pub open spec fn has_center(self) -> bool {
        fits_i32(self.center_x()) && fits_i32(self.center_y())
    }

    /// Whether `(x, y)` lies inside the box.
    pub open spec fn contains(self, x: int, y: int) -> bool {
        &&& self.top_left.x <= x < self.top_left.x + self.size.width
        &&& self.top_left.y <= y < self.top_left.y + self.size.height
    }

    /// The corner moved by `(dx, dy)` is representable.
    pub open spec fn can_translate(self, dx: int, dy: int) -> bool {
        fits_i32(self.top_left.x + dx) && fits_i32(self.top_left.y + dy)
    }

    /// The same box moved by `(dx, dy)`.
    pub open spec fn translated(self, dx: int, dy: int) -> BoundingBox {
        BoundingBox {
            top_left: Point {
                x: (self.top_left.x + dx) as i32,
                y: (self.top_left.y + dy) as i32,
            },
            size: self.size,
        }
    }

    pub fn center(&self) -> (r: Point)
        requires
            self.has_center(),
        ensures
            r.x == self.center_x(),
            r.y == self.center_y(),
    {
        let x = self.top_left.x as i64 + (self.size.width / 2) as i64;
        let y = self.top_left.y as i64 + (self.size.height / 2) as i64;
        Point { x: x as i32, y: y as i32 }
    }

    pub fn translate(&self, by: Point) -> (r: BoundingBox)
        requires
            self.can_translate(by.x as int, by.y as int),
        ensures
            r == self.translated(by.x as int, by.y as int),
    {
        BoundingBox {
            top_left: Point { x: self.top_left.x + by.x, y: self.top_left.y + by.y },
            size: self.size,
        }
    }
}

/// Horizontal part of the translation that puts the center of `b` on `p`.
pub open spec fn offset_x(b: BoundingBox, p: Point) -> int {
    p.x - b.center_x()
}

/// Vertical part of the translation that puts the center of `b` on `p`.
pub open spec fn offset_y(b: BoundingBox, p: Point) -> int {
    p.y - b.center_y()
}

/// Centering `b` on `p` stays within the coordinate range: the center, the
/// offset and the moved corner are all representable.
pub open spec fn can_center(b: BoundingBox, p: Point) -> bool {
    &&& b.has_center()
    &&& fits_i32(offset_x(b, p))
    &&& fits_i32(offset_y(b, p))
    &&& b.can_translate(offset_x(b, p), offset_y(b, p))
}

/// The translation that places the center of `bbox` on `target`.
pub fn center_offset(bbox: &BoundingBox, target: Point) -> (r: Point)
    requires
        can_center(*bbox, target),
    ensures
        r.x == offset_x(*bbox, target),
        r.y == offset_y(*bbox, target),
{
    let c = bbox.center();
    Point { x: target.x - c.x, y: target.y - c.y }
}

/// Moving a box by its centering offset puts its center exactly on the
/// target point.
pub proof fn lemma_center_offset_reaches_target(b: BoundingBox, p: Point)
    requires
        can_center(b, p),
    ensures
        b.translated(offset_x(b, p), offset_y(b, p)).center_x() == p.x,
        b.translated(offset_x(b, p), offset_y(b, p)).center_y() == p.y,
        b.translated(offset_x(b, p), offset_y(b, p)).size == b.size,
{
}

/// Centering a box that is already centered on `p` again on `p` asks for no
/// movement: the offset is zero.
pub proof fn lemma_recentering_is_identity(b: BoundingBox, p: Point)
    requires
        can_center(b, p),
    ensures
        can_center(b.translated(offset_x(b, p), offset_y(b, p)), p),
        offset_x(b.translated(offset_x(b, p), offset_y(b, p)), p) == 0,
        offset_y(b.translated(offset_x(b, p), offset_y(b, p)), p) == 0,
{
}

/// A zero-size box centers exactly on the target: its corner lands on it.
pub proof fn lemma_zero_size_centers_on_target(b: BoundingBox, p: Point)
    requires
        can_center(b, p),
        b.size.width == 0,
        b.size.height == 0,
    ensures
        b.translated(offset_x(b, p), offset_y(b, p)).top_left == p,
{
}

/// Whether `v` lies in the `i32` range.
pub fn fits_i32_exec(v: i64) -> (r: bool)
    ensures
        r == fits_i32(v as int),
{
    i32::MIN as i64 <= v && v <= i32::MAX as i64
}

} // verus!
