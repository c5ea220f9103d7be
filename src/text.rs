//! Text blocks: lines of characters in a monospace font, laid out from a
//! top-left position with per-line horizontal alignment.

use crate::font::{glyph_height, glyph_ink, glyph_width, Font};
use crate::geometry::{Point, Size};
use vstd::prelude::*;

verus! {

/// Longest text a block holds, in characters; keeps every extent within the
/// coordinate range.
pub const MAX_TEXT_LEN: usize = 0x100_0000;

/// Horizontal placement of each line within the block's width.
#[derive(Clone, Copy, Debug, PartialEq, Eq, Structural)]
pub enum Alignment {
    Left,
    Center,
    Right,
}

/// The pieces of `s` between `'\n'` characters; there is always at least
/// one.
pub open spec fn split_segments(s: Seq<char>) -> Seq<Seq<char>>
    decreases s.len(),
{
    if s.len() == 0 {
        seq![Seq::<char>::empty()]
    } else {
        let p = split_segments(s.drop_last());
        if s.last() == '\n' {
            p.push(Seq::<char>::empty())
        } else {
            p.update(p.len() - 1, p.last().push(s.last()))
        }
    }
}

/// A line ended by `"\r\n"` loses the `'\r'`.
pub open spec fn strip_cr(l: Seq<char>) -> Seq<char> {
    if l.len() > 0 && l.last() == '\r' {
        l.drop_last()
    } else {
        l
    }
}

/// The lines of `s` as `str::lines` gives them: split at `'\n'` or
/// `"\r\n"`, the ending of the last line being optional. An empty text has
/// no lines, and a final `'\n'` starts none.
pub open spec fn split_lines(s: Seq<char>) -> Seq<Seq<char>> {
    let segs = split_segments(s);
    let ended = segs.drop_last().map_values(|l: Seq<char>| strip_cr(l));
    if segs.last().len() == 0 {
        ended
    } else {
        ended.push(segs.last())
    }
}

/// Length of the longest line.
pub open spec fn max_line_len(ls: Seq<Seq<char>>) -> nat
    decreases ls.len(),
{
    if ls.len() == 0 {
        0
    } else {
        let m = max_line_len(ls.drop_last());
        if ls.last().len() > m {
            ls.last().len()
        } else {
            m
        }
    }
}

/// Where a line of width `line_w` starts within a block of width `block_w`.
pub open spec fn align_offset(a: Alignment, block_w: int, line_w: int) -> int {
    match a {
        Alignment::Left => 0,
        Alignment::Center => (block_w - line_w) / 2,
        Alignment::Right => block_w - line_w,
    }
}

pub proof fn lemma_max_line_len(ls: Seq<Seq<char>>)
    ensures
        forall|i: int| 0 <= i < ls.len() ==> #[trigger] ls[i].len() <= max_line_len(ls),
    decreases ls.len(),
{
    if ls.len() > 0 {
        lemma_max_line_len(ls.drop_last());
        assert forall|i: int| 0 <= i < ls.len() implies #[trigger] ls[i].len() <= max_line_len(ls) by {
            if i < ls.len() - 1 {
                assert(ls[i] == ls.drop_last()[i]);
            }
        }
    }
}

/// A block of text in one font and one color.
pub struct TextBlock {
    lines: Vec<Vec<char>>,
    longest: usize,
    font: Font,
    cell_w: u32,
    cell_h: u32,
    color: bool,
    alignment: Alignment,
    position: Point,
}

impl TextBlock {
    pub closed spec fn lines(&self) -> Seq<Seq<char>> {
        self.lines@.map_values(|l: Vec<char>| l@)
    }

    pub closed spec fn font(&self) -> Font {
        self.font
    }

    /// Ink color of the glyphs.
    pub closed spec fn color(&self) -> bool {
        self.color
    }

    pub closed spec fn alignment(&self) -> Alignment {
        self.alignment
    }

    /// Top-left corner of the block.
    pub closed spec fn position(&self) -> Point {
        self.position
    }

    pub closed spec fn wf(&self) -> bool {
        &&& self.lines@.len() <= MAX_TEXT_LEN + 1
        &&& self.longest == max_line_len(self.lines())
        &&& self.longest <= MAX_TEXT_LEN
        &&& self.cell_w == glyph_width(self.font)
        &&& self.cell_h == glyph_height(self.font)
    }

    /// The same block with its top-left corner at `p`.
    pub closed spec fn placed_at(&self, p: Point) -> TextBlock {
        TextBlock { position: p, ..*self }
    }

    pub proof fn lemma_placed_at(&self, p: Point)
        ensures
            self.placed_at(p).lines() == self.lines(),
            self.placed_at(p).font() == self.font(),
            self.placed_at(p).color() == self.color(),
            self.placed_at(p).alignment() == self.alignment(),
            self.placed_at(p).position() == p,
            self.wf() ==> self.placed_at(p).wf(),
    {
    }

    /// Width of the block: the longest line times the cell width.
    pub open spec fn block_width(&self) -> nat {
        max_line_len(self.lines()) * glyph_width(self.font())
    }

    /// Height of the block: the number of lines times the cell height.
    pub open spec fn block_height(&self) -> nat {
        self.lines().len() * glyph_height(self.font())
    }

    /// The glyph cell that covers `(x, y)`: the character and the
    /// position within its cell, or `None` where no character is.
    pub open spec fn glyph_cell(&self, x: int, y: int) -> Option<(char, int, int)> {
        let cw = glyph_width(self.font()) as int;
        let ch = glyph_height(self.font()) as int;
        let ry = y - self.position().y;
        if 0 <= ry < self.block_height() {
            let line = self.lines()[ry / ch];
            let rx = x - self.position().x - align_offset(
                self.alignment(),
                self.block_width() as int,
                line.len() * cw,
            );
            if 0 <= rx < line.len() * cw {
                Some((line[rx / cw], rx % cw, ry % ch))
            } else {
                None
            }
        } else {
            None
        }
    }

    /// Whether the block puts ink at `(x, y)`: the covering glyph has ink
    /// there.
    pub open spec fn ink(&self, x: int, y: int) -> bool {
        match self.glyph_cell(x, y) {
            Some(g) => glyph_ink(self.font(), g.0, g.1 as u32, g.2 as u32),
            None => false,
        }
    }

    /// A block showing `text` (lines split at `'\n'`) with its top-left
    /// corner at `position`.
    pub fn new(text: &Vec<char>, font: Font, color: bool, alignment: Alignment, position: Point) -> (r: TextBlock)
        requires
            text@.len() <= MAX_TEXT_LEN,
        ensures
            r.wf(),
            r.lines() == split_lines(text@),
            r.font() == font,
            r.color() == color,
            r.alignment() == alignment,
            r.position() == position,
    {
        let mut lines: Vec<Vec<char>> = Vec::new();
        let mut cur: Vec<char> = Vec::new();
        let mut longest: usize = 0;
        let mut i: usize = 0;
        while i < text.len()
            invariant
                i <= text@.len(),
                text@.len() <= MAX_TEXT_LEN,
                split_segments(text@.take(i as int)).len() == lines@.len() + 1,
                split_segments(text@.take(i as int)).drop_last().map_values(
                    |l: Seq<char>| strip_cr(l),
                ) == lines@.map_values(|l: Vec<char>| l@),
                split_segments(text@.take(i as int)).last() == cur@,
                longest == max_line_len(lines@.map_values(|l: Vec<char>| l@)),
                longest <= i,
                cur@.len() <= i,
                lines@.len() <= i,
            decreases text@.len() - i,
        {
            let c = text[i];
            let ghost prev = text@.take(i as int);
            let ghost segs = split_segments(prev);
            assert(text@.take(i + 1).drop_last() == prev);
            assert(segs == segs.drop_last().push(segs.last()));
            if c == '\n' {
                let ghost done = lines@.map_values(|l: Vec<char>| l@);
                if cur.len() > 0 && cur[cur.len() - 1] == '\r' {
                    cur.pop();
                }
                assert(cur@ == strip_cr(segs.last()));
                let n = cur.len();
                lines.push(cur);
                assert(lines@.map_values(|l: Vec<char>| l@) =~= done.push(strip_cr(segs.last())));
                assert(lines@.map_values(|l: Vec<char>| l@).drop_last() == done);
                assert(split_segments(text@.take(i + 1)).drop_last() == segs);
                assert(segs.map_values(|l: Seq<char>| strip_cr(l)) =~= segs.drop_last().map_values(
                    |l: Seq<char>| strip_cr(l),
                ).push(strip_cr(segs.last())));
                if n > longest {
                    longest = n;
                }
                cur = Vec::new();
            } else {
                cur.push(c);
                assert(split_segments(text@.take(i + 1)).drop_last() =~= segs.drop_last());
            }
            i = i + 1;
        }
        proof {
            assert(text@.take(text@.len() as int) == text@);
        }
        let ghost ended = lines@.map_values(|l: Vec<char>| l@);
        if cur.len() > 0 {
            let n = cur.len();
            lines.push(cur);
            assert(lines@.map_values(|l: Vec<char>| l@) =~= ended.push(split_segments(text@).last()));
            assert(lines@.map_values(|l: Vec<char>| l@).drop_last() == ended);
            if n > longest {
                longest = n;
            }
        }
        assert(text@.take(text@.len() as int) == text@);
        let (cell_w, cell_h) = font.cell();
        TextBlock { lines, longest, font, cell_w, cell_h, color, alignment, position }
    }

    /// Whether the block puts ink at `(x, y)` lies within its extent.
    pub proof fn lemma_ink_inside(&self, x: int, y: int)
        requires
            self.wf(),
            self.glyph_cell(x, y) is Some,
        ensures
            0 <= x - self.position().x < self.block_width(),
            0 <= y - self.position().y < self.block_height(),
    {
        let cw = glyph_width(self.font()) as int;
        let ch = glyph_height(self.font()) as int;
        let ry = y - self.position().y;
        assert(0 <= ry / ch < self.lines().len()) by (nonlinear_arith)
            requires
                0 <= ry < self.lines().len() * ch,
                ch > 0,
        ;
        lemma_max_line_len(self.lines());
        let line = self.lines()[ry / ch];
        let m = max_line_len(self.lines()) as int;
        assert(line.len() * cw <= m * cw) by (nonlinear_arith)
            requires
                line.len() <= m,
                cw > 0,
        ;
    }

    /// Size of the block in pixels.
    pub fn size(&self) -> (r: Size)
        requires
            self.wf(),
        ensures
            r.width == self.block_width(),
            r.height == self.block_height(),
    {
        proof {
            self.lemma_extent_bounds();
        }
        Size { width: self.longest as u32 * self.cell_w, height: self.lines.len() as u32 * self.cell_h }
    }

    pub fn get_color(&self) -> (r: bool)
        ensures
            r == self.color(),
    {
        self.color
    }

    /// The extent is representable: its width and height fit in a `u32`.
    pub proof fn lemma_extent_fits(&self)
        requires
            self.wf(),
        ensures
            self.block_width() <= u32::MAX,
            self.block_height() <= u32::MAX,
    {
        self.lemma_extent_bounds();
    }

    pub fn get_position(&self) -> (r: Point)
        ensures
            r == self.position(),
    {
        self.position
    }

    /// Moves the block so that its top-left corner is at `p`.
    pub fn set_position(&mut self, p: Point)
        ensures
            *final(self) == old(self).placed_at(p),
    {
        self.position = p;
    }

    proof fn lemma_extent_bounds(&self)
        requires
            self.wf(),
        ensures
            self.block_width() <= MAX_TEXT_LEN * 10,
            self.block_height() <= (MAX_TEXT_LEN + 1) * 20,
            self.lines().len() == self.lines@.len(),
            forall|i: int| 0 <= i < self.lines@.len() ==> #[trigger] self.lines@[i]@.len() <= self.longest,
    {
        let cw = glyph_width(self.font());
        let ch = glyph_height(self.font());
        let n = self.lines@.len();
        let m = self.longest as nat;
        assert(m * cw <= MAX_TEXT_LEN * 10) by (nonlinear_arith)
            requires
                m <= MAX_TEXT_LEN,
                cw <= 10,
        ;
        assert(n * ch <= (MAX_TEXT_LEN + 1) * 20) by (nonlinear_arith)
            requires
                n <= MAX_TEXT_LEN + 1,
                ch <= 20,
        ;
        lemma_max_line_len(self.lines());
        assert forall|i: int| 0 <= i < self.lines@.len() implies #[trigger] self.lines@[i]@.len() <= self.longest by {
            assert(self.lines()[i] == self.lines@[i]@);
        }
    }

    /// The glyph cell that covers `(x, y)`: the character and the
    /// position within its cell.
    pub fn glyph_at(&self, x: u32, y: u32) -> (r: Option<(char, u32, u32)>)
        requires
            self.wf(),
        ensures
            match self.glyph_cell(x as int, y as int) {
                Some(g) => r == Some((g.0, g.1 as u32, g.2 as u32)) && 0 <= g.1 < glyph_width(
                    self.font(),
                ) && 0 <= g.2 < glyph_height(self.font()),
                None => r is None,
            },
    {
        proof {
            self.lemma_extent_bounds();
        }
        let cw = self.cell_w as i64;
        let ch = self.cell_h as i64;
        let ry = y as i64 - self.position.y as i64;
        let bh = self.lines.len() as i64 * ch;
        if ry < 0 || ry >= bh {
            return None;
        }
        assert(ry / ch < self.lines@.len()) by (nonlinear_arith)
            requires
                0 <= ry < self.lines@.len() * ch,
                ch > 0,
        ;
        let li = (ry / ch) as usize;
        let line = &self.lines[li];
        assert(self.lines()[li as int] == line@);
        assert(line@.len() <= self.longest);
        assert(line@.len() * cw <= self.longest * cw) by (nonlinear_arith)
            requires
                line@.len() <= self.longest,
                cw > 0,
        ;
        let bw = self.longest as i64 * cw;
        let lw = line.len() as i64 * cw;
        let off = match self.alignment {
            Alignment::Left => 0,
            Alignment::Center => (bw - lw) / 2,
            Alignment::Right => bw - lw,
        };
        let rx = x as i64 - self.position.x as i64 - off;
        if rx < 0 || rx >= lw {
            return None;
        }
        assert(rx / cw < line@.len()) by (nonlinear_arith)
            requires
                0 <= rx < line@.len() * cw,
                cw > 0,
        ;
        let ci = (rx / cw) as usize;
        Some((line[ci], (rx % cw) as u32, (ry % ch) as u32))
    }

    /// Whether the block puts ink at `(x, y)`.
    pub fn ink_at(&self, x: u32, y: u32) -> (r: bool)
        requires
            self.wf(),
        ensures
            r == self.ink(x as int, y as int),
    {
        match self.glyph_at(x, y) {
            Some((c, gx, gy)) => self.font.ink(c, gx, gy),
            None => false,
        }
    }

    /// Whether `self` shows what `other` shows, in the same font, color
    /// and alignment, wherever each is placed.
    pub open spec fn same_content(&self, other: &TextBlock) -> bool {
        &&& self.lines() == other.lines()
        &&& self.font() == other.font()
        &&& self.color() == other.color()
        &&& self.alignment() == other.alignment()
    }

    /// A copy of the block.
    pub fn duplicate(&self) -> (r: TextBlock)
        requires
            self.wf(),
        ensures
            r.wf(),
            r.same_content(self),
            r.position() == self.position(),
    {
        let mut lines: Vec<Vec<char>> = Vec::new();
        let mut i: usize = 0;
        while i < self.lines.len()
            invariant
                i <= self.lines@.len(),
                lines@.len() == i,
                forall|k: int| 0 <= k < i ==> #[trigger] lines@[k]@ == self.lines@[k]@,
            decreases self.lines@.len() - i,
        {
            let line = self.lines[i].clone();
            assert(line@ =~= self.lines@[i as int]@);
            lines.push(line);
            i = i + 1;
        }
        let r = TextBlock { lines, ..*self };
        assert(r.lines() =~= self.lines());
        r
    }
}

} // verus!
