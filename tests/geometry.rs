use badger_display::geometry::{center_offset, BoundingBox, Point, Size};

fn bbox(x: i32, y: i32, w: u32, h: u32) -> BoundingBox {
    BoundingBox::new(Point::new(x, y), Size::new(w, h))
}

#[test]
fn center_rounds_down() {
    let b = bbox(10, 20, 7, 5);
    assert_eq!(b.center(), Point::new(13, 22));
}

#[test]
fn center_offset_puts_center_on_target() {
    let b = bbox(10, 20, 7, 4);
    let off = center_offset(&b, Point::new(100, 50));
    assert_eq!(off, Point::new(87, 28));
    let moved = b.translate(off);
    assert_eq!(moved.center(), Point::new(100, 50));
    assert_eq!(moved.size, b.size);
}

#[test]
fn center_offset_with_negative_coordinates() {
    let b = bbox(-30, -8, 11, 3);
    let target = Point::new(-5, -100);
    let moved = b.translate(center_offset(&b, target));
    assert_eq!(moved.center(), target);
    assert_eq!(moved.top_left, Point::new(-10, -101));
}

#[test]
fn zero_size_box_centers_on_its_corner() {
    let b = bbox(4, 9, 0, 0);
    assert_eq!(b.center(), Point::new(4, 9));
    let off = center_offset(&b, Point::new(148, 64));
    assert_eq!(off, Point::new(144, 55));
    assert_eq!(b.translate(off).top_left, Point::new(148, 64));
}

#[test]
fn recentering_on_the_same_point_is_a_zero_move() {
    let b = bbox(3, 3, 25, 13);
    let target = Point::new(148, 64);
    let once = b.translate(center_offset(&b, target));
    assert_eq!(center_offset(&once, target), Point::new(0, 0));
}
