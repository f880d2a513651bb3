//! Whole-buffer behaviour: the byte stream layout and the clear round
//! trip.

use matrix_controller::framebuffer::{dma_buffer_size_bytes, DmaFrameBuffer};

#[test]
fn stream_covers_every_word_once() {
    let fb = DmaFrameBuffer::new();
    // 7 planes of 8 rows of 193 control words, one byte each
    assert_eq!(fb.read_buffer().len(), 7 * 8 * 193);
    assert_eq!(dma_buffer_size_bytes(), 7 * 8 * 193);
}

#[test]
fn stream_bytes_encode_the_template() {
    let fb = DmaFrameBuffer::new();
    let out = fb.read_buffer();
    // plane 0, row 0, column 0: blank bit plus previous address 7
    assert_eq!(out[0], 8 + 7);
    // column 1: display enabled, previous address only
    assert_eq!(out[1], 7);
    // start of the ghosting window
    assert_eq!(out[166], 8 + 7);
    // the latch word: latch, blank, previous address
    assert_eq!(out[191], 16 + 8 + 7);
    // the trailing word: blank plus the new address 0
    assert_eq!(out[192], 8);
    // row 3 carries the previous address 2
    assert_eq!(out[3 * 193], 8 + 2);
    assert_eq!(out[3 * 193 + 1], 2);
    // plane boundaries repeat the same template
    assert_eq!(out[1544], 8 + 7);
    assert_eq!(out[6 * 1544 + 192], 8);
}

#[test]
fn stream_reflects_pixel_writes() {
    let mut fb = DmaFrameBuffer::new();
    fb.set_pixel_internal(0, 0, 255);
    let out = fb.read_buffer();
    // the pixel data bit joins the template word in every plane
    assert_eq!(out[0], 32 + 8 + 7);
    assert_eq!(out[1544], 32 + 8 + 7);
    assert_eq!(out[6 * 1544], 32 + 8 + 7);
}

#[test]
fn clear_round_trip_restores_a_fresh_buffer() {
    let fresh = DmaFrameBuffer::new();
    let mut fb = DmaFrameBuffer::new();
    fb.clear();
    for y in 0..16i32 {
        for x in 0..96i32 {
            fb.set_pixel(x, y, ((x + y) % 256) as u8);
        }
    }
    assert_ne!(fb.read_buffer(), fresh.read_buffer());
    fb.clear();
    assert_eq!(fb.read_buffer(), fresh.read_buffer());
}

#[test]
fn new_buffers_are_identical() {
    let a = DmaFrameBuffer::new();
    let b = DmaFrameBuffer::new();
    assert_eq!(a.read_buffer(), b.read_buffer());
}
