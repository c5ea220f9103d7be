//! The in-memory monochrome pixel grid and its packed transmit layout.

use vstd::prelude::*;

verus! {

/// Width of the panel in pixels.
pub const PANEL_WIDTH: u32 = 296;

/// Height of the panel in pixels.
pub const PANEL_HEIGHT: u32 = 128;

/// A `width` by `height` grid of binary pixels (`true` means ink), stored row
/// by row.
pub struct Framebuffer {
    width: u32,
    height: u32,
    pixels: Vec<bool>,
}

/// Number of bytes that hold one column of `height` pixels.
pub open spec fn column_bytes(height: nat) -> nat {
    (height + 7) / 8
}

/// Bit `k` of `b`, counted from the most significant bit.
pub open spec fn bit_of(b: u8, k: int) -> bool {
    (b >> ((7 - k) as u8)) & 1u8 == 1u8
}

/// The pixel at `(x, y)` as the panel reads it from packed bytes: columns
/// one after the other, each column `column_bytes(height)` bytes long, the
/// topmost pixel of each byte in its most significant bit.
pub open spec fn packed_pixel(bytes: Seq<u8>, height: nat, x: int, y: int) -> bool {
    bit_of(bytes[x * column_bytes(height) + y / 8], y % 8)
}

impl Framebuffer {
    pub closed spec fn spec_width(&self) -> nat {
        self.width as nat
    }

    pub closed spec fn spec_height(&self) -> nat {
        self.height as nat
    }

    /// The pixel at `(x, y)`, meaningful for `x < width`, `y < height`.
    pub closed spec fn pixel_at(&self, x: int, y: int) -> bool {
        self.pixels@[y * self.width + x]
    }

    pub closed spec fn wf(&self) -> bool {
        &&& self.pixels@.len() == self.width as int * self.height as int
        &&& self.pixels@.len() <= usize::MAX
    }

    /// A well-formed grid has a pixel count that fits in a `usize`.
    pub proof fn lemma_wf_size(&self)
        requires
            self.wf(),
        ensures
            self.spec_width() * self.spec_height() <= usize::MAX,
    {
    }

    /// Whether `(x, y)` is a pixel of the grid.
    pub open spec fn in_bounds(&self, x: int, y: int) -> bool {
        0 <= x < self.spec_width() && 0 <= y < self.spec_height()
    }

    /// The two buffers have the same size and the same pixels.
    pub open spec fn same_pixels(&self, other: &Framebuffer) -> bool {
        &&& self.spec_width() == other.spec_width()
        &&& self.spec_height() == other.spec_height()
        &&& forall|x: int, y: int| #[trigger]
            self.in_bounds(x, y) ==> self.pixel_at(x, y) == other.pixel_at(x, y)
    }

    proof fn lemma_index(&self, x: int, y: int)
        requires
            self.wf(),
            self.in_bounds(x, y),
        ensures
            0 <= y * self.width + x < self.pixels@.len(),
            0 <= y * self.width <= y * self.width + x,
    {
        let w = self.width as int;
        let h = self.height as int;
        assert(y * w + x < h * w) by (nonlinear_arith)
            requires
                0 <= x < w,
                0 <= y < h,
        ;
        assert(0 <= y * w) by (nonlinear_arith)
            requires
                0 <= y,
                0 <= w,
        ;
    }

    /// A cleared (`false`) grid of the given size.
    pub fn new(width: u32, height: u32) -> (r: Framebuffer)
        requires
            width as int * height as int <= usize::MAX,
        ensures
            r.wf(),
            r.spec_width() == width,
            r.spec_height() == height,
            forall|x: int, y: int| #[trigger] r.in_bounds(x, y) ==> !r.pixel_at(x, y),
    {
        let n = width as usize * height as usize;
        let mut pixels: Vec<bool> = Vec::new();
        let mut i: usize = 0;
        while i < n
            invariant
                i <= n,
                n == width as int * height as int,
                pixels@.len() == i,
                forall|k: int| 0 <= k < i ==> !#[trigger] pixels@[k],
            decreases n - i,
        {
            pixels.push(false);
            i = i + 1;
        }
        let r = Framebuffer { width, height, pixels };
        assert forall|x: int, y: int| #[trigger] r.in_bounds(x, y) implies !r.pixel_at(x, y) by {
            r.lemma_index(x, y);
        }
        r
    }

    /// A cleared grid of the panel's size.
    pub fn for_panel() -> (r: Framebuffer)
        ensures
            r.wf(),
            r.spec_width() == PANEL_WIDTH,
            r.spec_height() == PANEL_HEIGHT,
            forall|x: int, y: int| #[trigger] r.in_bounds(x, y) ==> !r.pixel_at(x, y),
    {
        Framebuffer::new(PANEL_WIDTH, PANEL_HEIGHT)
    }

    pub fn width(&self) -> (r: u32)
        ensures
            r == self.spec_width(),
    {
        self.width
    }

    pub fn height(&self) -> (r: u32)
        ensures
            r == self.spec_height(),
    {
        self.height
    }

    /// Sets every pixel to `value`.
    pub fn clear(&mut self, value: bool)
        requires
            old(self).wf(),
        ensures
            final(self).wf(),
            final(self).spec_width() == old(self).spec_width(),
            final(self).spec_height() == old(self).spec_height(),
            forall|x: int, y: int| #[trigger]
                final(self).in_bounds(x, y) ==> final(self).pixel_at(x, y) == value,
    {
        let n = self.pixels.len();
        let mut i: usize = 0;
        while i < n
            invariant
                i <= n,
                n == self.pixels@.len(),
                self.wf(),
                self.width == old(self).width,
                self.height == old(self).height,
                forall|k: int| 0 <= k < i ==> #[trigger] self.pixels@[k] == value,
            decreases n - i,
        {
            self.pixels.set(i, value);
            i = i + 1;
        }
        assert forall|x: int, y: int| #[trigger]
            self.in_bounds(x, y) implies self.pixel_at(x, y) == value by {
            self.lemma_index(x, y);
        }
    }

    /// Writes one pixel; a position off the grid is ignored.
    pub fn set_pixel(&mut self, x: i64, y: i64, value: bool)
        requires
            old(self).wf(),
        ensures
            final(self).wf(),
            final(self).spec_width() == old(self).spec_width(),
            final(self).spec_height() == old(self).spec_height(),
            forall|px: int, py: int| #[trigger]
                final(self).in_bounds(px, py) ==> final(self).pixel_at(px, py) == if px == x
                    && py == y {
                    value
                } else {
                    old(self).pixel_at(px, py)
                },
    {
        if 0 <= x && x < self.width as i64 && 0 <= y && y < self.height as i64 {
            proof {
                self.lemma_index(x as int, y as int);
            }
            let i = y as usize * self.width as usize + x as usize;
            self.pixels.set(i, value);
            assert forall|px: int, py: int| #[trigger]
                self.in_bounds(px, py) implies self.pixel_at(px, py) == if px == x && py == y {
                value
            } else {
                old(self).pixel_at(px, py)
            } by {
                self.lemma_index(px, py);
                let w = self.width as int;
                if py * w + px == y * w + x {
                    Self::lemma_unique_index(px, py, x as int, y as int, w);
                }
            }
        }
    }

    proof fn lemma_unique_index(x1: int, y1: int, x2: int, y2: int, w: int)
        requires
            0 <= x1 < w,
            0 <= x2 < w,
            0 <= y1,
            0 <= y2,
            y1 * w + x1 == y2 * w + x2,
        ensures
            x1 == x2,
            y1 == y2,
    {
        if y1 < y2 {
            assert(y1 * w + w <= y2 * w) by (nonlinear_arith)
                requires
                    y1 < y2,
                    0 <= w,
            ;
        } else if y2 < y1 {
            assert(y2 * w + w <= y1 * w) by (nonlinear_arith)
                requires
                    y2 < y1,
                    0 <= w,
            ;
        }
    }

    /// The pixel at `(x, y)`, or `None` off the grid.
    pub fn pixel(&self, x: i64, y: i64) -> (r: Option<bool>)
        requires
            self.wf(),
        ensures
            self.in_bounds(x as int, y as int) ==> r == Some(self.pixel_at(x as int, y as int)),
            !self.in_bounds(x as int, y as int) ==> r is None,
    {
        if 0 <= x && x < self.width as i64 && 0 <= y && y < self.height as i64 {
            proof {
                self.lemma_index(x as int, y as int);
            }
            Some(self.pixels[y as usize * self.width as usize + x as usize])
        } else {
            None
        }
    }
}

/// Packs eight pixels into one byte, the first in the most significant bit.
pub fn pack_byte(b0: bool, b1: bool, b2: bool, b3: bool, b4: bool, b5: bool, b6: bool, b7: bool) -> (r: u8)
    ensures
        bit_of(r, 0) == b0,
        bit_of(r, 1) == b1,
        bit_of(r, 2) == b2,
        bit_of(r, 3) == b3,
        bit_of(r, 4) == b4,
        bit_of(r, 5) == b5,
        bit_of(r, 6) == b6,
        bit_of(r, 7) == b7,
{
    let v0: u8 = if b0 { 1 } else { 0 };
    let v1: u8 = if b1 { 1 } else { 0 };
    let v2: u8 = if b2 { 1 } else { 0 };
    let v3: u8 = if b3 { 1 } else { 0 };
    let v4: u8 = if b4 { 1 } else { 0 };
    let v5: u8 = if b5 { 1 } else { 0 };
    let v6: u8 = if b6 { 1 } else { 0 };
    let v7: u8 = if b7 { 1 } else { 0 };
    let r: u8 = (v0 << 7u8) | (v1 << 6u8) | (v2 << 5u8) | (v3 << 4u8) | (v4 << 3u8) | (v5 << 2u8)
        | (v6 << 1u8) | v7;
    assert(((r >> 7u8) & 1u8 == 1u8) == (v0 == 1u8) && ((r >> 6u8) & 1u8 == 1u8) == (v1 == 1u8)
        && ((r >> 5u8) & 1u8 == 1u8) == (v2 == 1u8) && ((r >> 4u8) & 1u8 == 1u8) == (v3 == 1u8)
        && ((r >> 3u8) & 1u8 == 1u8) == (v4 == 1u8) && ((r >> 2u8) & 1u8 == 1u8) == (v5 == 1u8)
        && ((r >> 1u8) & 1u8 == 1u8) == (v6 == 1u8) && ((r >> 0u8) & 1u8 == 1u8) == (v7 == 1u8))
        by (bit_vector)
        requires
            v0 <= 1u8,
            v1 <= 1u8,
            v2 <= 1u8,
            v3 <= 1u8,
            v4 <= 1u8,
            v5 <= 1u8,
            v6 <= 1u8,
            v7 <= 1u8,
            r == (v0 << 7u8) | (v1 << 6u8) | (v2 << 5u8) | (v3 << 4u8) | (v4 << 3u8) | (v5
                << 2u8) | (v6 << 1u8) | v7,
    ;
    r
}

/// Reads bit `k` (`k < 8`, most significant first) of `b`.
pub fn read_bit(b: u8, k: u32) -> (r: bool)
    requires
        k < 8,
    ensures
        r == bit_of(b, k as int),
{
    let shift: u8 = 7 - k as u8;
    (b >> shift) & 1u8 == 1u8
}

impl Framebuffer {
    /// Pixel `(x, y)`, or `false` below the last row; used to fill the
    /// padding bits of the last byte of a column.
    fn pixel_or_clear(&self, x: u32, y: usize) -> (r: bool)
        requires
            self.wf(),
            x < self.spec_width(),
        ensures
            r == if y < self.spec_height() {
                self.pixel_at(x as int, y as int)
            } else {
                false
            },
    {
        if y < self.height as usize {
            proof {
                self.lemma_index(x as int, y as int);
            }
            self.pixels[y * self.width as usize + x as usize]
        } else {
            false
        }
    }

    /// The grid in the layout that the panel reads: column after column,
    /// `column_bytes(height)` bytes per column, the topmost pixel of each
    /// byte in its most significant bit, padding bits clear.
    pub fn as_transmit_buffer(&self) -> (r: Vec<u8>)
        requires
            self.wf(),
        ensures
            is_transmit_buffer_of(r@, *self),
    {
        let cols: usize = ((self.height as u64 + 7) / 8) as usize;
        let ghost h = self.spec_height();
        let ghost w = self.spec_width();
        proof {
            let c = column_bytes(h) as int;
            assert(w * c <= w * h) by (nonlinear_arith)
                requires
                    c == (h + 7) / 8,
                    h > 0 || c == 0,
            ;
        }
        let mut out: Vec<u8> = Vec::new();
        let mut x: u32 = 0;
        while x < self.width
            invariant
                self.wf(),
                x <= w,
                h == self.spec_height(),
                w == self.spec_width(),
                cols == column_bytes(h),
                w * cols <= usize::MAX,
                out@.len() == x * cols,
                forall|px: int, py: int|
                    0 <= px < x && 0 <= py < cols * 8 ==> #[trigger] packed_pixel(out@, h, px, py)
                        == if py < h {
                        self.pixel_at(px, py)
                    } else {
                        false
                    },
            decreases w - x,
        {
            let mut j: usize = 0;
            let ghost before = out@;
            while j < cols
                invariant
                    self.wf(),
                    x < w,
                    h == self.spec_height(),
                    w == self.spec_width(),
                    cols == column_bytes(h),
                    w * cols <= usize::MAX,
                    j <= cols,
                    before.len() == x * cols,
                    out@.len() == x * cols + j,
                    out@.subrange(0, before.len() as int) == before,
                    forall|k: int|
                        0 <= k < j * 8 ==> #[trigger] bit_of(out@[x * cols + k / 8], k % 8) == if k
                            < h {
                            self.pixel_at(x as int, k)
                        } else {
                            false
                        },
                decreases cols - j,
            {
                assert(x * cols + j < w * cols) by (nonlinear_arith)
                    requires
                        x < w,
                        j < cols,
                ;
                let base = j * 8;
                let b = pack_byte(
                    self.pixel_or_clear(x, base),
                    self.pixel_or_clear(x, base + 1),
                    self.pixel_or_clear(x, base + 2),
                    self.pixel_or_clear(x, base + 3),
                    self.pixel_or_clear(x, base + 4),
                    self.pixel_or_clear(x, base + 5),
                    self.pixel_or_clear(x, base + 6),
                    self.pixel_or_clear(x, base + 7),
                );
                out.push(b);
                assert forall|k: int| 0 <= k < (j + 1) * 8 implies #[trigger] bit_of(
                    out@[x * cols + k / 8],
                    k % 8,
                ) == if k < h {
                    self.pixel_at(x as int, k)
                } else {
                    false
                } by {
                    if k >= j * 8 {
                        assert(k / 8 == j as int);
                        assert(out@[x * cols + k / 8] == b);
                    } else {
                        assert(k / 8 < j);
                    }
                }
                j = j + 1;
            }
            proof {
                assert forall|px: int, py: int|
                    0 <= px < x + 1 && 0 <= py < cols * 8 implies #[trigger] packed_pixel(
                    out@,
                    h,
                    px,
                    py,
                ) == if py < h {
                    self.pixel_at(px, py)
                } else {
                    false
                } by {
                    if px < x {
                        assert(px * cols + py / 8 < x * cols) by (nonlinear_arith)
                            requires
                                px < x,
                                0 <= py / 8 < cols,
                        ;
                        assert(0 <= px * cols) by (nonlinear_arith)
                            requires
                                0 <= px,
                                0 <= cols,
                        ;
                        assert(out@.subrange(0, before.len() as int)[px * cols + py / 8]
                            == out@[px * cols + py / 8]);
                        assert(out@[px * cols + py / 8] == before[px * cols + py / 8]);
                        assert(packed_pixel(before, h, px, py) == if py < h {
                            self.pixel_at(px, py)
                        } else {
                            false
                        });
                    } else {
                        assert(py < j * 8);
                        assert(bit_of(out@[x * cols + py / 8], py % 8) == if py < h {
                            self.pixel_at(x as int, py)
                        } else {
                            false
                        });
                    }
                }
                assert(out@.len() == (x + 1) * cols) by (nonlinear_arith)
                    requires
                        out@.len() == x * cols + cols,
                ;
            }
            x = x + 1;
        }
        proof {
            assert forall|px: int, py: int| #[trigger]
                self.in_bounds(px, py) implies packed_pixel(out@, h, px, py) == self.pixel_at(
                px,
                py,
            ) by {
                assert(py < cols * 8);
            }
        }
        out
    }
}

/// `bytes` holds the pixels of `fb` in the transmit layout, with the
/// padding bits at the end of each column clear.
pub open spec fn is_transmit_buffer_of(bytes: Seq<u8>, fb: Framebuffer) -> bool {
    &&& bytes.len() == fb.spec_width() * column_bytes(fb.spec_height())
    &&& forall|x: int, y: int| #[trigger]
        fb.in_bounds(x, y) ==> packed_pixel(bytes, fb.spec_height(), x, y) == fb.pixel_at(x, y)
    &&& forall|x: int, y: int|
        0 <= x < fb.spec_width() && fb.spec_height() <= y < column_bytes(fb.spec_height()) * 8
            ==> !#[trigger] packed_pixel(bytes, fb.spec_height(), x, y)
}

/// `fb` is the `width` by `height` grid that `bytes` holds in the transmit
/// layout.
pub open spec fn is_unpacked_from(fb: Framebuffer, bytes: Seq<u8>, width: nat, height: nat) -> bool {
    &&& fb.wf()
    &&& fb.spec_width() == width
    &&& fb.spec_height() == height
    &&& forall|x: int, y: int| #[trigger]
        fb.in_bounds(x, y) ==> fb.pixel_at(x, y) == packed_pixel(bytes, height, x, y)
}

/// Packing a grid into the transmit layout and unpacking it again gives
/// back the same grid.
pub proof fn lemma_transmit_round_trip(fb: Framebuffer, bytes: Seq<u8>, back: Framebuffer)
    requires
        fb.wf(),
        is_transmit_buffer_of(bytes, fb),
        is_unpacked_from(back, bytes, fb.spec_width(), fb.spec_height()),
    ensures
        back.same_pixels(&fb),
{
    assert forall|x: int, y: int| #[trigger] back.in_bounds(x, y) implies back.pixel_at(x, y) == fb.pixel_at(x, y) by {
        assert(fb.in_bounds(x, y));
    }
}

/// A byte is fixed by its eight bits.
proof fn lemma_byte_from_bits(a: u8, b: u8)
    requires
        forall|k: int| 0 <= k < 8 ==> #[trigger] bit_of(a, k) == bit_of(b, k),
    ensures
        a == b,
{
    assert(bit_of(a, 0) == bit_of(b, 0));
    assert(bit_of(a, 1) == bit_of(b, 1));
    assert(bit_of(a, 2) == bit_of(b, 2));
    assert(bit_of(a, 3) == bit_of(b, 3));
    assert(bit_of(a, 4) == bit_of(b, 4));
    assert(bit_of(a, 5) == bit_of(b, 5));
    assert(bit_of(a, 6) == bit_of(b, 6));
    assert(bit_of(a, 7) == bit_of(b, 7));
    assert(a == b) by (bit_vector)
        requires
            ((a >> 7u8) & 1u8 == 1u8) == ((b >> 7u8) & 1u8 == 1u8),
            ((a >> 6u8) & 1u8 == 1u8) == ((b >> 6u8) & 1u8 == 1u8),
            ((a >> 5u8) & 1u8 == 1u8) == ((b >> 5u8) & 1u8 == 1u8),
            ((a >> 4u8) & 1u8 == 1u8) == ((b >> 4u8) & 1u8 == 1u8),
            ((a >> 3u8) & 1u8 == 1u8) == ((b >> 3u8) & 1u8 == 1u8),
            ((a >> 2u8) & 1u8 == 1u8) == ((b >> 2u8) & 1u8 == 1u8),
            ((a >> 1u8) & 1u8 == 1u8) == ((b >> 1u8) & 1u8 == 1u8),
            ((a >> 0u8) & 1u8 == 1u8) == ((b >> 0u8) & 1u8 == 1u8),
    ;
}

/// The transmit buffer depends on the pixels alone: two grids with the
/// same size and pixels pack into the same bytes.
pub proof fn lemma_transmit_buffer_unique(a: Seq<u8>, b: Seq<u8>, f: Framebuffer, g: Framebuffer)
    requires
        f.same_pixels(&g),
        is_transmit_buffer_of(a, f),
        is_transmit_buffer_of(b, g),
    ensures
        a == b,
{
    let w = f.spec_width() as int;
    let h = f.spec_height();
    let cols = column_bytes(h) as int;
    assert forall|i: int| 0 <= i < a.len() implies a[i] == b[i] by {
        vstd::arithmetic::div_mod::lemma_fundamental_div_mod(i, cols);
        let x = i / cols;
        let j = i % cols;
        assert(0 <= x < w) by (nonlinear_arith)
            requires
                0 <= i < w * cols,
                cols > 0,
                x == i / cols,
        ;
        assert forall|k: int| 0 <= k < 8 implies #[trigger] bit_of(a[i], k) == bit_of(b[i], k) by {
            let y = 8 * j + k;
            assert(y / 8 == j && y % 8 == k);
            assert(x * cols + y / 8 == i);
            if y < h {
                assert(f.in_bounds(x, y));
                assert(g.in_bounds(x, y));
                assert(packed_pixel(a, h, x, y) == f.pixel_at(x, y));
                assert(packed_pixel(b, h, x, y) == g.pixel_at(x, y));
            } else {
                assert(y < cols * 8);
                assert(!packed_pixel(a, h, x, y));
                assert(!packed_pixel(b, h, x, y));
            }
        }
        lemma_byte_from_bits(a[i], b[i]);
    }
    assert(a =~= b);
}

/// Whether `bytes` is long enough to hold a `width` by `height` grid in the
/// transmit layout.
pub open spec fn transmit_len_ok(bytes: Seq<u8>, width: nat, height: nat) -> bool {
    bytes.len() >= width * column_bytes(height)
}

/// Rebuilds a grid from bytes in the transmit layout; the inverse of
/// `Framebuffer::as_transmit_buffer`.
pub fn from_transmit_buffer(bytes: &Vec<u8>, width: u32, height: u32) -> (r: Framebuffer)
    requires
        width as int * height as int <= usize::MAX,
        transmit_len_ok(bytes@, width as nat, height as nat),
    ensures
        is_unpacked_from(r, bytes@, width as nat, height as nat),
{
    let ghost h = height as nat;
    let cols: usize = ((height as u64 + 7) / 8) as usize;
    let blen = bytes.len();
    let mut pixels: Vec<bool> = Vec::new();
    let mut y: u32 = 0;
    while y < height
        invariant
            y <= height,
            h == height,
            cols == column_bytes(h),
            width as int * height as int <= usize::MAX,
            transmit_len_ok(bytes@, width as nat, h),
            blen == bytes@.len(),
            pixels@.len() == y * width,
            forall|py: int, px: int|
                0 <= py < y && 0 <= px < width ==> #[trigger] pixels@[py * width + px]
                    == packed_pixel(bytes@, h, px, py),
        decreases height - y,
    {
        let mut x: u32 = 0;
        let ghost before = pixels@;
        while x < width
            invariant
                y < height,
                x <= width,
                h == height,
                cols == column_bytes(h),
                width as int * height as int <= usize::MAX,
                transmit_len_ok(bytes@, width as nat, h),
                blen == bytes@.len(),
                before.len() == y * width,
                pixels@.len() == y * width + x,
                pixels@.subrange(0, before.len() as int) == before,
                forall|px: int|
                    0 <= px < x ==> #[trigger] pixels@[y * width + px] == packed_pixel(
                        bytes@,
                        h,
                        px,
                        y as int,
                    ),
            decreases width - x,
        {
            assert(x * cols + y / 8 < width * cols) by (nonlinear_arith)
                requires
                    x < width,
                    0 <= y / 8 < cols,
            ;
            assert(0 <= x * cols) by (nonlinear_arith)
                requires
                    0 <= x,
                    0 <= cols,
            ;
            let byte = bytes[x as usize * cols + (y / 8) as usize];
            pixels.push(read_bit(byte, y % 8));
            x = x + 1;
        }
        proof {
            assert forall|py: int, px: int|
                0 <= py < y + 1 && 0 <= px < width implies #[trigger] pixels@[py * width + px]
                == packed_pixel(bytes@, h, px, py) by {
                if py < y {
                    assert(py * width + px < y * width) by (nonlinear_arith)
                        requires
                            py < y,
                            px < width,
                    ;
                    assert(0 <= py * width) by (nonlinear_arith)
                        requires
                            0 <= py,
                            0 <= width,
                    ;
                    assert(pixels@[py * width + px] == before[py * width + px]);
                }
            }
            assert(pixels@.len() == (y + 1) * width) by (nonlinear_arith)
                requires
                    pixels@.len() == y * width + width,
            ;
        }
        y = y + 1;
    }
    let r = Framebuffer { width, height, pixels };
    proof {
        assert(pixels@.len() == width as int * height as int) by (nonlinear_arith)
            requires
                pixels@.len() == y * width,
                y == height,
        ;
    }
    r
}

} // verus!
