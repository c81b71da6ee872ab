use rowscan::framebuffer::{Framebuffer, COLS, FRAME_BYTES, ROWS, ROW_BYTES};

#[test]
fn new_frame_is_all_dark() {
    let fb = Framebuffer::new();
    for y in [0usize, 1, 127, 255] {
        let row = fb.row_slice(y);
        assert_eq!(row.len(), ROW_BYTES);
        assert!(row.iter().all(|&b| b == 0));
    }
}

#[test]
fn geometry_constants() {
    assert_eq!(ROWS, 256);
    assert_eq!(COLS, 320);
    assert_eq!(ROW_BYTES, 40);
    assert_eq!(FRAME_BYTES, 10240);
}

#[test]
fn set_pixel_origin_sets_msb_of_first_byte() {
    let mut fb = Framebuffer::new();
    fb.set_pixel(0, 0, true);
    let row = fb.row_slice(0);
    assert_eq!(row[0], 0x80);
    for k in 1..ROW_BYTES {
        assert_eq!(row[k], 0);
    }
}

#[test]
fn set_pixel_bit_position_within_row() {
    // Pixel (9, 1): byte 9/8 = 1 of row 1, bit 7 - (9 % 8) = 6.
    let mut fb = Framebuffer::new();
    fb.set_pixel(9, 1, true);
    let row = fb.row_slice(1);
    assert_eq!(row[1], 0x40);
    assert_eq!(row[0], 0);
    // Row 0 stays untouched.
    assert!(fb.row_slice(0).iter().all(|&b| b == 0));
}

#[test]
fn set_pixel_last_pixel_sets_lsb_of_last_byte() {
    let mut fb = Framebuffer::new();
    fb.set_pixel(COLS - 1, ROWS - 1, true);
    let row = fb.row_slice(ROWS - 1);
    assert_eq!(row[ROW_BYTES - 1], 0x01);
}

#[test]
fn set_pixel_false_clears_only_that_bit() {
    let mut fb = Framebuffer::new();
    fb.set_pixel(16, 2, true);
    fb.set_pixel(17, 2, true);
    fb.set_pixel(16, 2, false);
    let row = fb.row_slice(2);
    assert_eq!(row[2], 0x40); // bit of (17, 2) survives
}

#[test]
fn clear_true_then_false_round_trip() {
    let mut fb = Framebuffer::new();
    fb.clear(true);
    assert!(fb.row_slice(100).iter().all(|&b| b == 0xFF));
    fb.clear(false);
    assert!(fb.row_slice(100).iter().all(|&b| b == 0x00));
}

#[test]
fn clear_restores_all_ones_row_after_set_pixel() {
    let mut fb = Framebuffer::new();
    fb.clear(false);
    fb.set_pixel(5, 3, true);
    fb.clear(true);
    assert!(fb.row_slice(3).iter().all(|&b| b == 0xFF));
}
