use badger_display::drawable::{Centering, Drawable};
use badger_display::font::Font;
use badger_display::framebuffer::Framebuffer;
use badger_display::geometry::{BoundingBox, Point, Size};
use badger_display::image::{DecodeError, ImageBlock};
use badger_display::shape::{Circle, Rectangle, StrokeAlignment};
use badger_display::text::{Alignment, TextBlock};

fn chars(s: &str) -> Vec<char> {
    s.chars().collect()
}

fn count_set(fb: &Framebuffer) -> usize {
    let mut n = 0;
    for y in 0..fb.height() as i64 {
        for x in 0..fb.width() as i64 {
            if fb.pixel(x, y) == Some(true) {
                n += 1;
            }
        }
    }
    n
}

fn same_grid(a: &Framebuffer, b: &Framebuffer) -> bool {
    for y in 0..a.height() as i64 {
        for x in 0..a.width() as i64 {
            if a.pixel(x, y) != b.pixel(x, y) {
                return false;
            }
        }
    }
    true
}

#[test]
fn font_cells_match_the_font_tables() {
    assert_eq!(Font::Ascii6x10.cell(), (6, 10));
    assert_eq!(Font::Ascii6x13.cell(), (6, 13));
    assert_eq!(Font::Ascii10x20.cell(), (10, 20));
}

#[test]
fn glyphs_have_ink_and_space_has_none() {
    for font in [Font::Ascii6x10, Font::Ascii6x13, Font::Ascii10x20] {
        let (w, h) = font.cell();
        let mut t_ink = 0;
        let mut space_ink = 0;
        for y in 0..h {
            for x in 0..w {
                if font.ink('T', x, y) {
                    t_ink += 1;
                }
                if font.ink(' ', x, y) {
                    space_ink += 1;
                }
            }
        }
        assert!(t_ink > 0);
        assert_eq!(space_ink, 0);
    }
}

#[test]
fn text_block_size_follows_lines_and_cells() {
    let t = TextBlock::new(&chars("TEST"), Font::Ascii6x10, true, Alignment::Left, Point::new(0, 0));
    assert_eq!(t.size(), Size::new(24, 10));
    let t = TextBlock::new(
        &chars("Automatic\nsupersonic\nmultiline\ncentering"),
        Font::Ascii10x20,
        true,
        Alignment::Center,
        Point::new(0, 0),
    );
    assert_eq!(t.size(), Size::new(100, 80));
    let empty = TextBlock::new(&chars(""), Font::Ascii6x13, true, Alignment::Left, Point::new(3, 4));
    assert_eq!(empty.size(), Size::new(0, 0));
}

#[test]
fn alignment_shifts_each_line() {
    let text = chars("ab\ncde");
    let left = TextBlock::new(&text, Font::Ascii6x10, true, Alignment::Left, Point::new(0, 0));
    let right = TextBlock::new(&text, Font::Ascii6x10, true, Alignment::Right, Point::new(0, 0));
    let center = TextBlock::new(&text, Font::Ascii6x10, true, Alignment::Center, Point::new(0, 0));
    for gy in 0..10u32 {
        for gx in 0..6u32 {
            let a = Font::Ascii6x10.ink('a', gx, gy);
            assert_eq!(left.ink_at(gx, gy), a);
            assert_eq!(right.ink_at(gx + 6, gy), a);
            assert_eq!(center.ink_at(gx + 3, gy), a);
            let c = Font::Ascii6x10.ink('c', gx, gy);
            assert_eq!(left.ink_at(gx, gy + 10), c);
            assert_eq!(right.ink_at(gx, gy + 10), c);
        }
    }
}

#[test]
fn centered_text_scenario_on_the_panel() {
    let mut fb = Framebuffer::new(296, 128);
    fb.clear(false);
    let target = Point::new(148, 64);
    let text = Drawable::Text(TextBlock::new(
        &chars("TEST"),
        Font::Ascii6x10,
        true,
        Alignment::Left,
        Point::new(0, 0),
    ));
    let placed = text.center(target);
    let b = placed.bounding_box();
    assert_eq!(b.center(), target);
    assert_eq!(b, BoundingBox::new(Point::new(136, 59), Size::new(24, 10)));
    assert_eq!(text.bounding_box().top_left, Point::new(0, 0));
    placed.draw(&mut fb);
    let mut inside = 0;
    for y in 0..128i64 {
        for x in 0..296i64 {
            let set = fb.pixel(x, y) == Some(true);
            let x0 = b.top_left.x as i64;
            let y0 = b.top_left.y as i64;
            let in_box = x0 <= x && x < x0 + 24 && y0 <= y && y < y0 + 10;
            let in_margin = x0 - 7 <= x && x < x0 + 24 + 7 && y0 - 11 <= y && y < y0 + 10 + 11;
            if set && in_box {
                inside += 1;
            }
            if set {
                assert!(in_margin);
            }
        }
    }
    assert!(inside > 0);
}

#[test]
fn center_mut_moves_in_place() {
    let mut d = Drawable::Text(TextBlock::new(
        &chars("Automatic\nsupersonic\nmultiline\ncentering"),
        Font::Ascii10x20,
        true,
        Alignment::Center,
        Point::new(0, 0),
    ));
    d.center_mut(Point::new(148, 64));
    assert_eq!(d.bounding_box(), BoundingBox::new(Point::new(98, 24), Size::new(100, 80)));
    d.center_mut(Point::new(148, 64));
    assert_eq!(d.bounding_box().top_left, Point::new(98, 24));
}

#[test]
fn filled_rectangle_covers_its_area() {
    let mut fb = Framebuffer::new(10, 10);
    let r = Rectangle::new(BoundingBox::new(Point::new(2, 2), Size::new(4, 3)), 0, StrokeAlignment::Center, None, Some(true));
    Drawable::Rect(r).draw(&mut fb);
    assert_eq!(count_set(&fb), 12);
    assert_eq!(fb.pixel(2, 2), Some(true));
    assert_eq!(fb.pixel(5, 4), Some(true));
    assert_eq!(fb.pixel(6, 4), Some(false));
}

#[test]
fn outside_stroke_grows_the_box() {
    let r = Rectangle::new(
        BoundingBox::new(Point::new(4, 4), Size::new(4, 4)),
        2,
        StrokeAlignment::Outside,
        Some(true),
        Some(false),
    );
    let d = Drawable::Rect(r);
    assert_eq!(d.bounding_box(), BoundingBox::new(Point::new(3, 3), Size::new(6, 6)));
    let mut fb = Framebuffer::new(12, 12);
    fb.clear(true);
    d.draw(&mut fb);
    assert_eq!(fb.pixel(5, 5), Some(false));
    assert_eq!(fb.pixel(6, 6), Some(false));
    assert_eq!(count_set(&fb), 144 - 4);
    let inside = Rectangle { stroke_alignment: StrokeAlignment::Inside, ..r };
    assert_eq!(inside.bounding_box(), BoundingBox::new(Point::new(5, 5), Size::new(2, 2)));
    let center = Rectangle { stroke_alignment: StrokeAlignment::Center, ..r };
    assert_eq!(center.bounding_box(), BoundingBox::new(Point::new(4, 4), Size::new(4, 4)));
}

#[test]
fn stroke_only_rectangle_leaves_the_inside() {
    let mut fb = Framebuffer::new(8, 8);
    let r = Rectangle::new(BoundingBox::new(Point::new(1, 1), Size::new(5, 5)), 1, StrokeAlignment::Center, Some(true), None);
    Drawable::Rect(r).draw(&mut fb);
    assert_eq!(count_set(&fb), 16);
    assert_eq!(fb.pixel(3, 3), Some(false));
    assert_eq!(fb.pixel(1, 3), Some(true));
}

#[test]
fn drawables_entirely_off_screen_change_nothing() {
    let mut fb = Framebuffer::new(296, 128);
    for y in 0..128 {
        for x in 0..296 {
            fb.set_pixel(x, y, (x * 7 + y) % 3 == 0);
        }
    }
    let before = from_grid(&fb);
    let far = [
        Drawable::Rect(Rectangle::new(BoundingBox::new(Point::new(-20, -20), Size::new(5, 5)), 0, StrokeAlignment::Center, None, Some(true))),
        Drawable::Rect(Rectangle::new(BoundingBox::new(Point::new(296, 0), Size::new(50, 50)), 3, StrokeAlignment::Inside, Some(false), Some(true))),
        Drawable::Text(TextBlock::new(&chars("TEST"), Font::Ascii10x20, false, Alignment::Left, Point::new(0, 128))),
        Drawable::Image(ImageBlock::new(vec![0xff; 4], 16, Point::new(-16, 0)).unwrap()),
    ];
    for d in far.iter() {
        d.draw(&mut fb);
        assert!(same_grid(&fb, &before));
    }
}

fn from_grid(fb: &Framebuffer) -> Framebuffer {
    let mut copy = Framebuffer::new(fb.width(), fb.height());
    for y in 0..fb.height() as i64 {
        for x in 0..fb.width() as i64 {
            copy.set_pixel(x, y, fb.pixel(x, y) == Some(true));
        }
    }
    copy
}

#[test]
fn image_data_is_checked() {
    let zero = ImageBlock::new(vec![1, 2], 0, Point::new(0, 0)).unwrap();
    assert_eq!((zero.width(), zero.height()), (0, 0));
    let no_rows = ImageBlock::new(vec![], 8, Point::new(0, 0)).unwrap();
    assert_eq!((no_rows.width(), no_rows.height()), (8, 0));
    assert_eq!(ImageBlock::new(vec![1, 2, 3], 12, Point::new(0, 0)).err(), Some(DecodeError::Truncated));
    let img = ImageBlock::new(vec![1, 2, 3, 4], 12, Point::new(0, 0)).unwrap();
    assert_eq!((img.width(), img.height()), (12, 2));
}

#[test]
fn image_is_copied_bit_for_bit() {
    let data = vec![
        0b11001011, 0b1110_0000, 0b10101010, 0b0100_0000, 0b10101011, 0b0100_0000, 0b10101001,
        0b0100_0000, 0b11001011, 0b0100_0000,
    ];
    let img = ImageBlock::new(data.clone(), 12, Point::new(3, 1)).unwrap();
    let mut fb = Framebuffer::new(20, 10);
    Drawable::Image(img).draw(&mut fb);
    for y in 0..5usize {
        for x in 0..12usize {
            let bit = (data[y * 2 + x / 8] >> (7 - x % 8)) & 1 == 1;
            assert_eq!(fb.pixel(x as i64 + 3, y as i64 + 1), Some(bit));
        }
    }
    assert_eq!(fb.pixel(2, 1), Some(false));
    assert_eq!(count_set(&fb), data.iter().map(|b| b.count_ones() as usize).sum::<usize>());
}

#[test]
fn image_centers_on_the_panel() {
    let img = ImageBlock::new(vec![0xff; 10], 12, Point::new(0, 0)).unwrap();
    let d = Drawable::Image(img);
    let c = d.center(Point::new(148, 64));
    assert_eq!(c.bounding_box(), BoundingBox::new(Point::new(142, 62), Size::new(12, 5)));
    assert_eq!(c.bounding_box().center(), Point::new(148, 64));
}

#[test]
fn filled_circle_is_round() {
    let c = Circle::new(Point::new(0, 0), 5, 0, StrokeAlignment::Center, None, Some(true));
    let d = Drawable::Circle(c);
    assert_eq!(d.bounding_box(), BoundingBox::new(Point::new(0, 0), Size::new(5, 5)));
    let mut fb = Framebuffer::new(8, 8);
    d.draw(&mut fb);
    assert_eq!(fb.pixel(2, 2), Some(true));
    assert_eq!(fb.pixel(0, 2), Some(true));
    assert_eq!(fb.pixel(2, 0), Some(true));
    assert_eq!(fb.pixel(0, 0), Some(false));
    assert_eq!(fb.pixel(4, 4), Some(false));
    assert_eq!(fb.pixel(5, 2), Some(false));
    assert_eq!(count_set(&fb), 21);
}

#[test]
fn outlined_circle_keeps_its_inside() {
    let c = Circle::new(Point::new(10, 10), 50, 1, StrokeAlignment::Outside, Some(true), None);
    let d = Drawable::Circle(c);
    assert_eq!(d.bounding_box(), BoundingBox::new(Point::new(10, 10), Size::new(50, 50)));
    let mut fb = Framebuffer::new(80, 80);
    d.draw(&mut fb);
    assert_eq!(fb.pixel(35, 35), Some(false));
    assert_eq!(fb.pixel(10, 35), Some(true));
    assert_eq!(fb.pixel(35, 59), Some(true));
    assert_eq!(fb.pixel(9, 35), Some(false));
    let wide = Circle { stroke_width: 4, ..c };
    assert_eq!(wide.bounding_box(), BoundingBox::new(Point::new(8, 8), Size::new(54, 54)));
}

#[test]
fn text_and_image_blocks_center_directly() {
    let t = TextBlock::new(&chars("@dist"), Font::Ascii10x20, true, Alignment::Center, Point::new(-40, 7));
    let c = t.center(Point::new(222, 64));
    assert_eq!(c.get_position(), Point::new(197, 54));
    assert_eq!(t.get_position(), Point::new(-40, 7));
    let mut img = ImageBlock::new(vec![0x0f; 8], 4, Point::new(0, 0)).unwrap();
    let moved = img.center_mut(Point::new(10, 10)).get_position();
    assert_eq!(moved, Point::new(8, 6));
    assert_eq!(img.get_position(), Point::new(8, 6));
}

#[test]
fn glyph_at_finds_the_covering_cell() {
    let text = chars("ab\ncde");
    let left = TextBlock::new(&text, Font::Ascii6x10, true, Alignment::Left, Point::new(0, 0));
    assert_eq!(left.glyph_at(7, 3), Some(('b', 1, 3)));
    assert_eq!(left.glyph_at(13, 3), None);
    assert_eq!(left.glyph_at(13, 12), Some(('e', 1, 2)));
    assert_eq!(left.glyph_at(0, 20), None);
    let right = TextBlock::new(&text, Font::Ascii6x10, true, Alignment::Right, Point::new(10, 20));
    assert_eq!(right.glyph_at(16, 20), Some(('a', 0, 0)));
    assert_eq!(right.glyph_at(15, 20), None);
    assert_eq!(right.glyph_at(10, 39), Some(('c', 0, 9)));
    let center = TextBlock::new(&text, Font::Ascii6x10, true, Alignment::Center, Point::new(0, 0));
    assert_eq!(center.glyph_at(3, 0), Some(('a', 0, 0)));
    assert_eq!(center.glyph_at(2, 0), None);
    assert_eq!(center.glyph_at(14, 9), Some(('b', 5, 9)));
}

#[test]
fn lines_follow_str_lines() {
    let t = TextBlock::new(&chars("ab\n"), Font::Ascii6x10, true, Alignment::Left, Point::new(0, 0));
    assert_eq!(t.size(), Size::new(12, 10));
    let t = TextBlock::new(&chars("ab\r\ncd"), Font::Ascii6x10, true, Alignment::Left, Point::new(0, 0));
    assert_eq!(t.size(), Size::new(12, 20));
    assert_eq!(t.glyph_at(6, 0), Some(('b', 0, 0)));
    assert_eq!(t.glyph_at(12, 0), None);
    let t = TextBlock::new(&chars("a\n\nb"), Font::Ascii6x10, true, Alignment::Left, Point::new(0, 0));
    assert_eq!(t.size(), Size::new(6, 30));
    let t = TextBlock::new(&chars("a\r"), Font::Ascii6x10, true, Alignment::Left, Point::new(0, 0));
    assert_eq!(t.size(), Size::new(12, 10));
    let t = TextBlock::new(&chars("\n"), Font::Ascii6x10, true, Alignment::Left, Point::new(0, 0));
    assert_eq!(t.size(), Size::new(0, 10));
}

#[test]
fn empty_text_centers_exactly_on_the_target() {
    let t = TextBlock::new(&chars(""), Font::Ascii10x20, true, Alignment::Center, Point::new(3, 4));
    let at = Point::new(148, 64);
    let c = t.center(at);
    assert_eq!(c.get_position(), at);
    assert_eq!(c.size(), Size::new(0, 0));
    let d = Drawable::Text(t).center(at);
    assert_eq!(d.bounding_box(), BoundingBox::new(at, Size::new(0, 0)));
}

#[test]
fn zero_size_image_centers_exactly_on_the_target() {
    let at = Point::new(148, 64);
    let img = ImageBlock::new(vec![0xff], 0, Point::new(-5, 9)).unwrap();
    assert_eq!(img.center(at).get_position(), at);
    let mut img = img;
    img.center_mut(at);
    assert_eq!(img.get_position(), at);
    assert_eq!((img.width(), img.height()), (0, 0));
    let mut fb = Framebuffer::new(296, 128);
    Drawable::Image(img).draw(&mut fb);
    assert_eq!(count_set(&fb), 0);
}

#[test]
fn can_center_on_reports_the_coordinate_range() {
    let d = Drawable::Text(TextBlock::new(&chars("TEST"), Font::Ascii6x10, true, Alignment::Left, Point::new(0, 0)));
    assert!(d.can_center_on(Point::new(148, 64)));
    assert!(!d.can_center_on(Point::new(i32::MIN, 0)));
    let far = Drawable::Rect(Rectangle::new(BoundingBox::new(Point::new(i32::MIN, 0), Size::new(4, 4)), 4, StrokeAlignment::Outside, Some(true), None));
    assert!(!far.can_center_on(Point::new(0, 0)));
}
