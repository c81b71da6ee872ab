use rowscan::framebuffer::{ROWS, ROW_BYTES};
use rowscan::swapchain::Swapchain;

fn frame_bytes(chain: &mut Swapchain) -> Vec<u8> {
    let frame = chain.read();
    let mut out = Vec::new();
    for y in 0..ROWS {
        out.extend_from_slice(frame.row_slice(y));
    }
    out
}

#[test]
fn fresh_chain_reads_dark_frame() {
    let mut chain = Swapchain::new();
    let bytes = frame_bytes(&mut chain);
    assert!(bytes.iter().all(|&b| b == 0));
}

#[test]
fn submit_visibility() {
    let mut chain = Swapchain::new();
    let mut img = chain.acquire_next();
    img.framebuffer().set_pixel(12, 34, true);
    img.submit(&mut chain);
    let frame = chain.read();
    let row = frame.row_slice(34);
    assert_eq!(row[12 / 8], 0x08); // bit 7 - (12 % 8) = 3
}

#[test]
fn idle_repeat_idempotence() {
    let mut chain = Swapchain::new();
    let mut img = chain.acquire_next();
    img.framebuffer().set_pixel(1, 1, true);
    img.submit(&mut chain);
    let first = frame_bytes(&mut chain);
    let second = frame_bytes(&mut chain);
    assert_eq!(first, second);
}

#[test]
fn writer_never_aliases_read_frame() {
    let mut chain = Swapchain::new();
    let mut img = chain.acquire_next();
    img.framebuffer().set_pixel(7, 7, true);
    img.submit(&mut chain);
    let _ = chain.read();
    // Acquire a new buffer and scribble over it without submitting: the
    // scan-out frame must not change.
    let before = frame_bytes(&mut chain);
    let mut img2 = chain.acquire_next();
    img2.framebuffer().clear(true);
    let after = frame_bytes(&mut chain);
    assert_eq!(before, after);
}

#[test]
fn drop_oldest_keeps_newest_submission() {
    let mut chain = Swapchain::new();
    let mut a = chain.acquire_next();
    a.framebuffer().set_pixel(0, 0, true);
    a.submit(&mut chain);
    // Submit again before the consumer latched: the older pending frame is
    // dropped and the newer one must win.
    let mut b = chain.acquire_next();
    b.framebuffer().clear(false);
    b.framebuffer().set_pixel(8, 0, true);
    b.submit(&mut chain);
    let frame = chain.read();
    let row = frame.row_slice(0);
    assert_eq!(row[0], 0x00);
    assert_eq!(row[1], 0x80);
}

#[test]
fn reacquire_after_submit_cycles_through_pool() {
    let mut chain = Swapchain::new();
    for round in 0..6u8 {
        let mut img = chain.acquire_next();
        img.framebuffer().clear(false);
        img.framebuffer().set_pixel(round as usize, 0, true);
        img.submit(&mut chain);
        let frame = chain.read();
        let row = frame.row_slice(0);
        assert_eq!(row[0], 0x80u8 >> round);
    }
}

#[test]
fn diagonal_scenario() {
    let mut chain = Swapchain::new();
    let mut img = chain.acquire_next();
    let fb = img.framebuffer();
    fb.clear(false);
    for y in 0..100 {
        fb.set_pixel(y, y, true);
    }
    img.submit(&mut chain);
    let frame = chain.read();
    // Row 50 has exactly one set bit, at column 50.
    let row50 = frame.row_slice(50);
    for k in 0..ROW_BYTES {
        if k == 50 / 8 {
            assert_eq!(row50[k], 0x80u8 >> (50 % 8));
        } else {
            assert_eq!(row50[k], 0);
        }
    }
    // Row 200 is entirely dark.
    assert!(frame.row_slice(200).iter().all(|&b| b == 0));
}
