//! The drawable elements behind one interface: a bounding box, a
//! translation, and rasterization into a framebuffer.

use crate::framebuffer::Framebuffer;
use crate::geometry::{can_center, fits_i32, fits_i32_exec, offset_x, offset_y, BoundingBox, Point, Size};
use crate::image::ImageBlock;
use crate::shape::{Circle, Rectangle};
use crate::text::TextBlock;
use vstd::prelude::*;

verus! {

/// A text block, a rectangle, a circle or an image.
pub enum Drawable {
    Text(TextBlock),
    Rect(Rectangle),
    Circle(Circle),
    Image(ImageBlock),
}

/// `p` moved by `(dx, dy)`.
pub open spec fn moved_point(p: Point, dx: int, dy: int) -> Point {
    Point { x: (p.x + dx) as i32, y: (p.y + dy) as i32 }
}

/// The extent of a text block.
pub open spec fn text_extent(t: TextBlock) -> BoundingBox {
    BoundingBox {
        top_left: t.position(),
        size: Size { width: t.block_width() as u32, height: t.block_height() as u32 },
    }
}

/// The box lies wholly outside the `width` by `height` grid at the origin.
pub open spec fn outside_grid(b: BoundingBox, width: nat, height: nat) -> bool {
    ||| b.top_left.x + b.size.width <= 0
    ||| b.top_left.y + b.size.height <= 0
    ||| b.top_left.x >= width
    ||| b.top_left.y >= height
}

impl Drawable {
    pub open spec fn wf(&self) -> bool {
        match self {
            Drawable::Text(t) => t.wf(),
            Drawable::Rect(_) | Drawable::Circle(_) => true,
            Drawable::Image(i) => i.wf(),
        }
    }

    /// Well formed, and the extent is representable as a `BoundingBox`.
    pub open spec fn placeable(&self) -> bool {
        &&& self.wf()
        &&& match self {
            Drawable::Rect(r) => r.bounds_fit(),
            Drawable::Circle(c) => c.bounds_fit(),
            _ => true,
        }
    }

    /// The drawn extent.
    pub open spec fn bbox(&self) -> BoundingBox {
        match self {
            Drawable::Text(t) => text_extent(*t),
            Drawable::Rect(r) => r.bbox(),
            Drawable::Circle(c) => c.bbox(),
            Drawable::Image(i) => i.bbox(),
        }
    }

    /// What the element draws at `(x, y)`: a color, or nothing.
    pub open spec fn ink(&self, x: int, y: int) -> Option<bool> {
        match self {
            Drawable::Text(t) => if t.ink(x, y) {
                Some(t.color())
            } else {
                None
            },
            Drawable::Rect(r) => r.ink(x, y),
            Drawable::Circle(c) => c.ink(x, y),
            Drawable::Image(i) => i.ink(x, y),
        }
    }

    /// The anchor point that a translation moves: the top-left corner of a
    /// text block, an image or a circle, the corner of a rectangle's `area`.
    pub open spec fn anchor(&self) -> Point {
        match self {
            Drawable::Text(t) => t.position(),
            Drawable::Rect(r) => r.area.top_left,
            Drawable::Circle(c) => c.top_left,
            Drawable::Image(i) => i.position(),
        }
    }

    /// Moving by `(dx, dy)` keeps the anchor representable.
    pub open spec fn can_move(&self, dx: int, dy: int) -> bool {
        fits_i32(self.anchor().x + dx) && fits_i32(self.anchor().y + dy)
    }

    /// `self` is `orig` with its anchor moved by `(dx, dy)` and nothing else
    /// changed.
    pub open spec fn is_moved_from(&self, orig: &Drawable, dx: int, dy: int) -> bool {
        match (self, orig) {
            (Drawable::Text(a), Drawable::Text(b)) => a.wf() && a.same_content(b) && a.position()
                == moved_point(b.position(), dx, dy),
            (Drawable::Rect(a), Drawable::Rect(b)) => *a == b.translated(dx, dy),
            (Drawable::Circle(a), Drawable::Circle(b)) => *a == b.translated(dx, dy),
            (Drawable::Image(a), Drawable::Image(b)) => a.wf() && a.data() == b.data()
                && a.spec_width() == b.spec_width() && a.spec_height() == b.spec_height()
                && a.position() == moved_point(b.position(), dx, dy),
            _ => false,
        }
    }

    /// What a move does to the extent: it is moved by the same amount.
    pub proof fn lemma_moved_bbox(&self, orig: &Drawable, dx: int, dy: int)
        requires
            orig.placeable(),
            orig.can_move(dx, dy),
            self.is_moved_from(orig, dx, dy),
            fits_i32(orig.bbox().top_left.x + dx),
            fits_i32(orig.bbox().top_left.y + dy),
        ensures
            self.placeable(),
            self.bbox() == orig.bbox().translated(dx, dy),
    {
    }

    pub fn bounding_box(&self) -> (r: BoundingBox)
        requires
            self.placeable(),
        ensures
            r == self.bbox(),
    {
        match self {
            Drawable::Text(t) => BoundingBox { top_left: t.get_position(), size: t.size() },
            Drawable::Rect(r) => r.bounding_box(),
            Drawable::Circle(c) => c.bounding_box(),
            Drawable::Image(i) => BoundingBox {
                top_left: i.get_position(),
                size: Size { width: i.width(), height: i.height() },
            },
        }
    }

    /// Moves the element by `by`.
    pub fn translate(&mut self, by: Point)
        requires
            old(self).wf(),
            old(self).can_move(by.x as int, by.y as int),
        ensures
            final(self).is_moved_from(old(self), by.x as int, by.y as int),
    {
        match self {
            Drawable::Text(t) => {
                let p = t.get_position();
                let q = Point { x: p.x + by.x, y: p.y + by.y };
                t.set_position(q);
                proof {
                    old(self)->Text_0.lemma_placed_at(q);
                }
            },
            Drawable::Rect(r) => {
                r.area = r.area.translate(by);
            },
            Drawable::Circle(c) => {
                c.top_left = Point { x: c.top_left.x + by.x, y: c.top_left.y + by.y };
            },
            Drawable::Image(i) => {
                let p = i.get_position();
                let q = Point { x: p.x + by.x, y: p.y + by.y };
                i.set_position(q);
                proof {
                    old(self)->Image_0.lemma_placed_at(q);
                }
            },
        }
    }

    /// Whether the element can be centered on `at` within the coordinate
    /// range.
    pub fn can_center_on(&self, at: Point) -> (r: bool)
        requires
            self.wf(),
        ensures
            r == self.can_center_at(at),
    {
        let fits = match self {
            Drawable::Rect(r) => r.fits(),
            Drawable::Circle(c) => c.fits(),
            _ => true,
        };
        if !fits {
            return false;
        }
        let b = self.bounding_box();
        let anchor = match self {
            Drawable::Text(t) => t.get_position(),
            Drawable::Rect(r) => r.area.top_left,
            Drawable::Circle(c) => c.top_left,
            Drawable::Image(i) => i.get_position(),
        };
        let cx = b.top_left.x as i64 + (b.size.width / 2) as i64;
        let cy = b.top_left.y as i64 + (b.size.height / 2) as i64;
        let dx = at.x as i64 - cx;
        let dy = at.y as i64 - cy;
        fits_i32_exec(cx) && fits_i32_exec(cy) && fits_i32_exec(dx) && fits_i32_exec(dy)
            && fits_i32_exec(b.top_left.x as i64 + dx) && fits_i32_exec(b.top_left.y as i64 + dy)
            && fits_i32_exec(anchor.x as i64 + dx) && fits_i32_exec(anchor.y as i64 + dy)
    }

    /// A copy of the element.
    pub fn duplicate(&self) -> (r: Drawable)
        requires
            self.wf(),
        ensures
            r.is_moved_from(self, 0, 0),
    {
        match self {
            Drawable::Text(t) => Drawable::Text(t.duplicate()),
            Drawable::Rect(r) => Drawable::Rect(*r),
            Drawable::Circle(c) => Drawable::Circle(*c),
            Drawable::Image(i) => Drawable::Image(i.duplicate()),
        }
    }

    /// What the element draws at `(x, y)`.
    pub fn ink_at(&self, x: u32, y: u32) -> (r: Option<bool>)
        requires
            self.wf(),
        ensures
            r == self.ink(x as int, y as int),
    {
        match self {
            Drawable::Text(t) => if t.ink_at(x, y) {
                Some(t.get_color())
            } else {
                None
            },
            Drawable::Rect(r) => r.ink_at(x, y),
            Drawable::Circle(c) => c.ink_at(x, y),
            Drawable::Image(i) => i.ink_at(x, y),
        }
    }

    /// Whatever the element draws lies within its extent.
    pub proof fn lemma_ink_inside(&self, x: int, y: int)
        requires
            self.placeable(),
            self.ink(x, y) is Some,
        ensures
            self.bbox().contains(x, y),
    {
        match self {
            Drawable::Text(t) => {
                t.lemma_ink_inside(x, y);
                t.lemma_extent_fits();
                assert(self.bbox().size.width == t.block_width());
                assert(self.bbox().size.height == t.block_height());
                assert(self.bbox().top_left == t.position());
            },
            Drawable::Rect(_) | Drawable::Circle(_) => {},
            Drawable::Image(i) => {
                i.lemma_dims();
            },
        }
    }

    /// Rasterizes the element: every pixel of the grid where it draws takes
    /// its color, every other pixel is left as it was; positions off the
    /// grid are clipped.
    pub fn draw(&self, fb: &mut Framebuffer)
        requires
            self.wf(),
            old(fb).wf(),
        ensures
            final(fb).wf(),
            final(fb).spec_width() == old(fb).spec_width(),
            final(fb).spec_height() == old(fb).spec_height(),
            forall|x: int, y: int| #[trigger]
                final(fb).in_bounds(x, y) ==> final(fb).pixel_at(x, y) == match self.ink(x, y) {
                    Some(c) => c,
                    None => old(fb).pixel_at(x, y),
                },
            self.placeable() && outside_grid(
                self.bbox(),
                old(fb).spec_width(),
                old(fb).spec_height(),
            ) ==> final(fb).same_pixels(old(fb)),
    {
        let w = fb.width();
        let h = fb.height();
        let mut y: u32 = 0;
        while y < h
            invariant
                fb.wf(),
                self.wf(),
                y <= h,
                w == fb.spec_width(),
                h == fb.spec_height(),
                w == old(fb).spec_width(),
                h == old(fb).spec_height(),
                forall|px: int, py: int| #[trigger]
                    fb.in_bounds(px, py) ==> fb.pixel_at(px, py) == if py < y && self.ink(
                        px,
                        py,
                    ) is Some {
                        self.ink(px, py)->Some_0
                    } else {
                        old(fb).pixel_at(px, py)
                    },
            decreases h - y,
        {
            let mut x: u32 = 0;
            while x < w
                invariant
                    fb.wf(),
                    self.wf(),
                    y < h,
                    x <= w,
                    w == fb.spec_width(),
                    h == fb.spec_height(),
                    w == old(fb).spec_width(),
                    h == old(fb).spec_height(),
                    forall|px: int, py: int| #[trigger]
                        fb.in_bounds(px, py) ==> fb.pixel_at(px, py) == if (py < y || (py == y
                            && px < x)) && self.ink(px, py) is Some {
                            self.ink(px, py)->Some_0
                        } else {
                            old(fb).pixel_at(px, py)
                        },
                decreases w - x,
            {
                let ghost prev = *fb;
                match self.ink_at(x, y) {
                    Some(c) => fb.set_pixel(x as i64, y as i64, c),
                    None => {},
                }
                assert forall|px: int, py: int| #[trigger]
                    fb.in_bounds(px, py) implies fb.pixel_at(px, py) == if (py < y || (py == y
                    && px < x + 1)) && self.ink(px, py) is Some {
                    self.ink(px, py)->Some_0
                } else {
                    old(fb).pixel_at(px, py)
                } by {
                    assert(prev.in_bounds(px, py));
                }
                x = x + 1;
            }
            y = y + 1;
        }
        proof {
            if self.placeable() && outside_grid(self.bbox(), w as nat, h as nat) {
                assert forall|px: int, py: int| #[trigger]
                    fb.in_bounds(px, py) implies fb.pixel_at(px, py) == old(fb).pixel_at(px, py) by {
                    if self.ink(px, py) is Some {
                        self.lemma_ink_inside(px, py);
                    }
                }
            }
        }
    }
}

/// Centering a drawable that was already centered on `at` on `at` again
/// moves it by nothing.
pub proof fn lemma_recentering_drawable(d: Drawable, centered: Drawable, at: Point)
    requires
        d.can_center_at(at),
        centered.is_moved_from(&d, offset_x(d.bbox(), at), offset_y(d.bbox(), at)),
    ensures
        centered.can_center_at(at),
        offset_x(centered.bbox(), at) == 0,
        offset_y(centered.bbox(), at) == 0,
{
    centered.lemma_moved_bbox(&d, offset_x(d.bbox(), at), offset_y(d.bbox(), at));
    crate::geometry::lemma_recentering_is_identity(d.bbox(), at);
}

/// Elements that can be placed by their center.
pub trait Centering: Sized {
    /// The box whose center is placed.
    spec fn extent(&self) -> BoundingBox;

    /// Centering on `at` is possible within the coordinate range.
    spec fn can_center_at(&self, at: Point) -> bool;

    /// `self` is `orig` moved by `(dx, dy)`.
    spec fn is_moved_from(&self, orig: &Self, dx: int, dy: int) -> bool;

    /// A copy moved so that the center of its extent is `at`; `self` is
    /// left as it is.
    fn center(&self, at: Point) -> (r: Self)
        requires
            self.can_center_at(at),
        ensures
            r.is_moved_from(self, offset_x(self.extent(), at), offset_y(self.extent(), at)),
            r.extent() == self.extent().translated(
                offset_x(self.extent(), at),
                offset_y(self.extent(), at),
            ),
            r.extent().center_x() == at.x,
            r.extent().center_y() == at.y,
    ;

    /// Moves `self` so that the center of its extent is `at`, and hands
    /// it back.
    fn center_mut(&mut self, at: Point) -> (r: &mut Self)
        requires
            old(self).can_center_at(at),
        ensures
            r.is_moved_from(
                old(self),
                offset_x(old(self).extent(), at),
                offset_y(old(self).extent(), at),
            ),
            r.extent() == old(self).extent().translated(
                offset_x(old(self).extent(), at),
                offset_y(old(self).extent(), at),
            ),
            r.extent().center_x() == at.x,
            r.extent().center_y() == at.y,
            *final(self) == *final(r),
    ;
}

impl Centering for Drawable {
    open spec fn extent(&self) -> BoundingBox {
        self.bbox()
    }

    open spec fn can_center_at(&self, at: Point) -> bool {
        &&& self.placeable()
        &&& can_center(self.bbox(), at)
        &&& self.can_move(offset_x(self.bbox(), at), offset_y(self.bbox(), at))
    }

    open spec fn is_moved_from(&self, orig: &Self, dx: int, dy: int) -> bool {
        Drawable::is_moved_from(self, orig, dx, dy)
    }

    fn center(&self, at: Point) -> (r: Self) {
        let b = self.bounding_box();
        let off = crate::geometry::center_offset(&b, at);
        let mut r = self.duplicate();
        r.translate(off);
        proof {
            r.lemma_moved_bbox(self, off.x as int, off.y as int);
            crate::geometry::lemma_center_offset_reaches_target(b, at);
        }
        r
    }

    fn center_mut(&mut self, at: Point) -> (r: &mut Self) {
        let b = self.bounding_box();
        let off = crate::geometry::center_offset(&b, at);
        self.translate(off);
        proof {
            self.lemma_moved_bbox(old(self), off.x as int, off.y as int);
            crate::geometry::lemma_center_offset_reaches_target(b, at);
        }
        self
    }
}

impl Centering for TextBlock {
    open spec fn extent(&self) -> BoundingBox {
        text_extent(*self)
    }

    open spec fn can_center_at(&self, at: Point) -> bool {
        self.wf() && can_center(text_extent(*self), at)
    }

    open spec fn is_moved_from(&self, orig: &Self, dx: int, dy: int) -> bool {
        self.wf() && self.same_content(orig) && self.position() == moved_point(orig.position(), dx, dy)
    }

    fn center(&self, at: Point) -> (r: Self) {
        let b = BoundingBox { top_left: self.get_position(), size: self.size() };
        let off = crate::geometry::center_offset(&b, at);
        let mut r = self.duplicate();
        let q = Point { x: b.top_left.x + off.x, y: b.top_left.y + off.y };
        let ghost copy = r;
        r.set_position(q);
        proof {
            copy.lemma_placed_at(q);
            self.lemma_extent_fits();
            crate::geometry::lemma_center_offset_reaches_target(b, at);
        }
        r
    }

    fn center_mut(&mut self, at: Point) -> (r: &mut Self) {
        let b = BoundingBox { top_left: self.get_position(), size: self.size() };
        let off = crate::geometry::center_offset(&b, at);
        let q = Point { x: b.top_left.x + off.x, y: b.top_left.y + off.y };
        self.set_position(q);
        proof {
            old(self).lemma_placed_at(q);
            old(self).lemma_extent_fits();
            crate::geometry::lemma_center_offset_reaches_target(b, at);
        }
        self
    }
}

impl Centering for ImageBlock {
    open spec fn extent(&self) -> BoundingBox {
        self.bbox()
    }

    open spec fn can_center_at(&self, at: Point) -> bool {
        self.wf() && can_center(self.bbox(), at)
    }

    open spec fn is_moved_from(&self, orig: &Self, dx: int, dy: int) -> bool {
        &&& self.wf()
        &&& self.data() == orig.data()
        &&& self.spec_width() == orig.spec_width()
        &&& self.spec_height() == orig.spec_height()
        &&& self.position() == moved_point(orig.position(), dx, dy)
    }

    fn center(&self, at: Point) -> (r: Self) {
        let b = BoundingBox {
            top_left: self.get_position(),
            size: Size { width: self.width(), height: self.height() },
        };
        let off = crate::geometry::center_offset(&b, at);
        let mut r = self.duplicate();
        let q = Point { x: b.top_left.x + off.x, y: b.top_left.y + off.y };
        let ghost copy = r;
        r.set_position(q);
        proof {
            copy.lemma_placed_at(q);
            self.lemma_dims();
            crate::geometry::lemma_center_offset_reaches_target(b, at);
        }
        r
    }

    fn center_mut(&mut self, at: Point) -> (r: &mut Self) {
        let b = BoundingBox {
            top_left: self.get_position(),
            size: Size { width: self.width(), height: self.height() },
        };
        let off = crate::geometry::center_offset(&b, at);
        let q = Point { x: b.top_left.x + off.x, y: b.top_left.y + off.y };
        self.set_position(q);
        proof {
            old(self).lemma_placed_at(q);
            old(self).lemma_dims();
            crate::geometry::lemma_center_offset_reaches_target(b, at);
        }
        self
    }
}

} // verus!
