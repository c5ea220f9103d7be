use badger_display::framebuffer::{from_transmit_buffer, pack_byte, read_bit, Framebuffer};

fn same_grid(a: &Framebuffer, b: &Framebuffer) -> bool {
    if a.width() != b.width() || a.height() != b.height() {
        return false;
    }
    for y in 0..a.height() as i64 {
        for x in 0..a.width() as i64 {
            if a.pixel(x, y) != b.pixel(x, y) {
                return false;
            }
        }
    }
    true
}

#[test]
fn new_buffer_is_clear() {
    let fb = Framebuffer::for_panel();
    assert_eq!(fb.width(), 296);
    assert_eq!(fb.height(), 128);
    assert_eq!(fb.pixel(0, 0), Some(false));
    assert_eq!(fb.pixel(295, 127), Some(false));
}

#[test]
fn clear_reaches_every_pixel_including_edges() {
    let mut fb = Framebuffer::new(296, 128);
    fb.set_pixel(5, 5, false);
    for value in [true, false, true] {
        fb.clear(value);
        for y in 0..128 {
            for x in 0..296 {
                assert_eq!(fb.pixel(x, y), Some(value));
            }
        }
        assert_eq!(fb.pixel(295, 127), Some(value));
    }
}

#[test]
fn out_of_range_pixels_are_clipped() {
    let mut fb = Framebuffer::new(296, 128);
    fb.set_pixel(-1, 0, true);
    fb.set_pixel(296, 0, true);
    fb.set_pixel(0, 128, true);
    fb.set_pixel(0, -1, true);
    assert!(same_grid(&fb, &Framebuffer::new(296, 128)));
    assert_eq!(fb.pixel(296, 0), None);
    assert_eq!(fb.pixel(-1, 3), None);
    fb.set_pixel(295, 127, true);
    assert_eq!(fb.pixel(295, 127), Some(true));
    assert_eq!(fb.pixel(294, 127), Some(false));
}

#[test]
fn pack_byte_puts_first_pixel_in_top_bit() {
    assert_eq!(pack_byte(true, false, false, false, false, false, false, false), 0x80);
    assert_eq!(pack_byte(false, false, false, false, false, false, false, true), 0x01);
    assert_eq!(pack_byte(true, true, false, false, true, false, true, true), 0b1100_1011);
    assert!(read_bit(0b1100_1011, 0));
    assert!(!read_bit(0b1100_1011, 2));
    assert!(read_bit(0b1100_1011, 7));
}

#[test]
fn transmit_layout_is_column_major_msb_first() {
    let mut fb = Framebuffer::new(296, 128);
    fb.set_pixel(0, 0, true);
    fb.set_pixel(1, 9, true);
    fb.set_pixel(295, 127, true);
    let bytes = fb.as_transmit_buffer();
    assert_eq!(bytes.len(), 296 * 16);
    assert_eq!(bytes[0], 0x80);
    assert_eq!(bytes[17], 0x40);
    assert_eq!(bytes[295 * 16 + 15], 0x01);
    assert_eq!(bytes.iter().filter(|b| **b != 0).count(), 3);
}

fn round_trip(fb: &Framebuffer) {
    let bytes = fb.as_transmit_buffer();
    let back = from_transmit_buffer(&bytes, fb.width(), fb.height());
    assert!(same_grid(fb, &back));
}

#[test]
fn transmit_round_trip_all_set_all_clear_and_checkerboard() {
    let mut fb = Framebuffer::new(296, 128);
    round_trip(&fb);
    fb.clear(true);
    round_trip(&fb);
    assert!(fb.as_transmit_buffer().iter().all(|b| *b == 0xff));
    for y in 0..128 {
        for x in 0..296 {
            fb.set_pixel(x, y, (x + y) % 2 == 0);
        }
    }
    round_trip(&fb);
    assert_eq!(fb.as_transmit_buffer()[0], 0b1010_1010);
    assert_eq!(fb.as_transmit_buffer()[16], 0b0101_0101);
}

#[test]
fn transmit_padding_bits_are_clear() {
    let mut fb = Framebuffer::new(3, 10);
    fb.clear(true);
    let bytes = fb.as_transmit_buffer();
    assert_eq!(bytes, vec![0xff, 0xc0, 0xff, 0xc0, 0xff, 0xc0]);
    round_trip(&fb);
    fb.set_pixel(1, 9, false);
    round_trip(&fb);
}

#[test]
fn repacking_an_unpacked_grid_gives_the_same_bytes() {
    let mut fb = Framebuffer::new(37, 21);
    for y in 0..21 {
        for x in 0..37 {
            fb.set_pixel(x, y, (x * 3 + y * 5) % 7 < 3);
        }
    }
    let bytes = fb.as_transmit_buffer();
    let back = from_transmit_buffer(&bytes, 37, 21);
    assert_eq!(back.as_transmit_buffer(), bytes);
}
