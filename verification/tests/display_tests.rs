use chip8::display::DisplayBuffer;
use chip8::display::GRID_HEIGHT;
use chip8::display::GRID_WIDTH;

#[test]
fn fresh_display_is_clear() {
    let d = DisplayBuffer::new();
    for y in 0..GRID_HEIGHT {
        for x in 0..GRID_WIDTH {
            assert!(!d.pixel(x, y));
        }
    }
}

#[test]
fn blit_sets_pixels_from_bits() {
    let mut d = DisplayBuffer::new();
    // 0xA5 = 0b1010_0101: pixels at columns 0, 2, 5, 7.
    let erased = d.blit_sprite(&vec![0xA5], 0, 0);
    assert!(!erased);
    assert!(d.pixel(0, 0));
    assert!(!d.pixel(1, 0));
    assert!(d.pixel(2, 0));
    assert!(!d.pixel(3, 0));
    assert!(!d.pixel(4, 0));
    assert!(d.pixel(5, 0));
    assert!(!d.pixel(6, 0));
    assert!(d.pixel(7, 0));
    assert!(!d.pixel(8, 0));
    assert!(!d.pixel(0, 1));
}

#[test]
fn blit_twice_restores_every_pixel() {
    let mut d = DisplayBuffer::new();
    d.blit_sprite(&vec![0x3C, 0x42, 0x81], 30, 12);
    d.blit_sprite(&vec![0x18], 31, 13);
    // Blit one sprite twice in succession: the buffer returns to the
    // state it had before the first of the two blits.
    let sprite = vec![0xF0, 0x0F, 0xAA];
    let mut before = Vec::new();
    for y in 0..GRID_HEIGHT {
        for x in 0..GRID_WIDTH {
            before.push(d.pixel(x, y));
        }
    }
    d.blit_sprite(&sprite, 29, 11);
    let erased = d.blit_sprite(&sprite, 29, 11);
    assert!(erased);
    for y in 0..GRID_HEIGHT {
        for x in 0..GRID_WIDTH {
            assert_eq!(d.pixel(x, y), before[y * GRID_WIDTH + x]);
        }
    }
}

#[test]
fn blit_wraps_around_the_right_edge() {
    let mut d = DisplayBuffer::new();
    let erased = d.blit_sprite(&vec![0xFF], GRID_WIDTH as u8 - 1, 3);
    assert!(!erased);
    // One pixel in the last column, the remaining seven in columns 0..6.
    assert!(d.pixel(GRID_WIDTH - 1, 3));
    for x in 0..7 {
        assert!(d.pixel(x, 3));
    }
    assert!(!d.pixel(7, 3));
    assert!(!d.pixel(GRID_WIDTH - 2, 3));
}

#[test]
fn blit_wraps_around_the_bottom_edge() {
    let mut d = DisplayBuffer::new();
    d.blit_sprite(&vec![0x80, 0x80], 5, GRID_HEIGHT as u8 - 1);
    assert!(d.pixel(5, GRID_HEIGHT - 1));
    assert!(d.pixel(5, 0));
}

#[test]
fn blit_coordinates_wrap_modulo_grid() {
    let mut d = DisplayBuffer::new();
    // 200 % 64 == 8, 100 % 32 == 4.
    d.blit_sprite(&vec![0x80], 200, 100);
    assert!(d.pixel(8, 4));
}

#[test]
fn collision_reported_on_full_overlap_only() {
    let mut d = DisplayBuffer::new();
    let erased_on_clear = d.blit_sprite(&vec![0xFF], 8, 4);
    assert!(!erased_on_clear);
    let erased_on_set = d.blit_sprite(&vec![0xFF], 8, 4);
    assert!(erased_on_set);
    // The second blit erased the row entirely.
    for x in 8..16 {
        assert!(!d.pixel(x, 4));
    }
}

#[test]
fn clear_turns_every_pixel_off() {
    let mut d = DisplayBuffer::new();
    d.blit_sprite(&vec![0xFF, 0xFF], 0, 0);
    d.clear();
    for y in 0..GRID_HEIGHT {
        for x in 0..GRID_WIDTH {
            assert!(!d.pixel(x, y));
        }
    }
}

#[test]
fn empty_sprite_changes_nothing() {
    let mut d = DisplayBuffer::new();
    let erased = d.blit_sprite(&vec![], 10, 10);
    assert!(!erased);
    for y in 0..GRID_HEIGHT {
        for x in 0..GRID_WIDTH {
            assert!(!d.pixel(x, y));
        }
    }
}
