//! Raster images: packed one-bit rows copied into the framebuffer.

use crate::framebuffer::bit_of;
use crate::geometry::{BoundingBox, Point, Size};
use vstd::prelude::*;

verus! {

/// Why image data was refused.
#[derive(Clone, Copy, Debug, PartialEq, Eq, Structural)]
pub enum DecodeError {
    /// The data does not end on a row boundary.
    Truncated,
}

/// Bytes that hold one row of `width` pixels.
pub open spec fn row_bytes(width: nat) -> nat {
    (width + 7) / 8
}

/// A `width` by `height` one-bit image, rows one after the other, each row
/// `row_bytes(width)` bytes, the leftmost pixel in the most significant bit;
/// a set bit is ink.
pub struct ImageBlock {
    data: Vec<u8>,
    width: u32,
    height: u32,
    position: Point,
}

impl ImageBlock {
    pub closed spec fn data(&self) -> Seq<u8> {
        self.data@
    }

    pub closed spec fn spec_width(&self) -> nat {
        self.width as nat
    }

    pub closed spec fn spec_height(&self) -> nat {
        self.height as nat
    }

    /// Top-left corner of the image.
    pub closed spec fn position(&self) -> Point {
        self.position
    }

    pub closed spec fn wf(&self) -> bool {
        &&& self.data@.len() == self.height * row_bytes(self.width as nat)
        &&& self.data@.len() <= u32::MAX
    }

    /// The same image with its top-left corner at `p`.
    pub closed spec fn placed_at(&self, p: Point) -> ImageBlock {
        ImageBlock { position: p, ..*self }
    }

    pub proof fn lemma_dims(&self)
        ensures
            self.spec_width() <= u32::MAX,
            self.spec_height() <= u32::MAX,
    {
    }

    pub proof fn lemma_placed_at(&self, p: Point)
        ensures
            self.placed_at(p).data() == self.data(),
            self.placed_at(p).spec_width() == self.spec_width(),
            self.placed_at(p).spec_height() == self.spec_height(),
            self.placed_at(p).position() == p,
            self.wf() ==> self.placed_at(p).wf(),
    {
    }

    pub open spec fn bbox(&self) -> BoundingBox {
        BoundingBox {
            top_left: self.position(),
            size: Size { width: self.spec_width() as u32, height: self.spec_height() as u32 },
        }
    }

    /// What the image draws at `(x, y)`: its pixel there, or nothing
    /// outside it.
    pub open spec fn ink(&self, x: int, y: int) -> Option<bool> {
        let rx = x - self.position().x;
        let ry = y - self.position().y;
        if 0 <= rx < self.spec_width() && 0 <= ry < self.spec_height() {
            Some(bit_of(self.data()[ry * row_bytes(self.spec_width()) + rx / 8], rx % 8))
        } else {
            None
        }
    }

    /// An image of the given width over `data`, its top-left corner at
    /// `position`; the height is the number of rows in `data`. A zero width
    /// gives an empty (zero-size) image whatever the data; data that does
    /// not end on a row boundary is refused.
    pub fn new(data: Vec<u8>, width: u32, position: Point) -> (r: Result<ImageBlock, DecodeError>)
        requires
            data@.len() <= u32::MAX,
        ensures
            (width > 0 && data@.len() % row_bytes(width as nat) != 0) <==> r is Err,
            r is Err ==> r->Err_0 == DecodeError::Truncated,
            r is Ok ==> r->Ok_0.wf() && r->Ok_0.spec_width() == width && r->Ok_0.position()
                == position,
            r is Ok && width == 0 ==> r->Ok_0.spec_height() == 0 && r->Ok_0.data().len() == 0,
            r is Ok && width > 0 ==> r->Ok_0.data() == data@ && r->Ok_0.spec_height()
                == data@.len() / row_bytes(width as nat),
    {
        if width == 0 {
            return Ok(ImageBlock { data: Vec::new(), width: 0, height: 0, position });
        }
        let stride: usize = ((width as u64 + 7) / 8) as usize;
        if data.len() % stride != 0 {
            return Err(DecodeError::Truncated);
        }
        let height = (data.len() / stride) as u32;
        proof {
            let n = data@.len() as int;
            let d = stride as int;
            vstd::arithmetic::div_mod::lemma_fundamental_div_mod(n, d);
            assert(n == (n / d) * d) by (nonlinear_arith)
                requires
                    n == d * (n / d) + n % d,
                    n % d == 0,
            ;
            assert(n / d <= n) by (nonlinear_arith)
                requires
                    d >= 1,
                    n >= 0,
            ;
        }
        Ok(ImageBlock { data, width, height, position })
    }

    pub fn width(&self) -> (r: u32)
        ensures
            r == self.spec_width(),
    {
        self.width
    }

    pub fn height(&self) -> (r: u32)
        ensures
            r == self.spec_height(),
    {
        self.height
    }

    pub fn get_position(&self) -> (r: Point)
        ensures
            r == self.position(),
    {
        self.position
    }

    /// Moves the image so that its top-left corner is at `p`.
    pub fn set_position(&mut self, p: Point)
        ensures
            *final(self) == old(self).placed_at(p),
    {
        self.position = p;
    }

    /// What the image draws at `(x, y)`.
    pub fn ink_at(&self, x: u32, y: u32) -> (r: Option<bool>)
        requires
            self.wf(),
        ensures
            r == self.ink(x as int, y as int),
    {
        let rx = x as i64 - self.position.x as i64;
        let ry = y as i64 - self.position.y as i64;
        if 0 <= rx && rx < self.width as i64 && 0 <= ry && ry < self.height as i64 {
            let stride: usize = ((self.width as u64 + 7) / 8) as usize;
            let ghost h = self.height as int;
            assert(ry * stride + rx / 8 < h * stride) by (nonlinear_arith)
                requires
                    0 <= ry < h,
                    0 <= rx / 8 < stride,
            ;
            assert(0 <= ry * stride) by (nonlinear_arith)
                requires
                    0 <= ry,
                    0 <= stride,
            ;
            let b = self.data[ry as usize * stride + (rx / 8) as usize];
            Some(crate::framebuffer::read_bit(b, (rx % 8) as u32))
        } else {
            None
        }
    }

    /// A copy of the image.
    pub fn duplicate(&self) -> (r: ImageBlock)
        requires
            self.wf(),
        ensures
            r.wf(),
            r.data() == self.data(),
            r.spec_width() == self.spec_width(),
            r.spec_height() == self.spec_height(),
            r.position() == self.position(),
    {
        let data = self.data.clone();
        assert(data@ =~= self.data@);
        ImageBlock { data, width: self.width, height: self.height, position: self.position }
    }
}

} // verus!
