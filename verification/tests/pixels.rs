//! Pixel compositor behaviour: threshold exactness, clipping, and
//! brightness monotonicity on concrete values.

use matrix_controller::framebuffer::DmaFrameBuffer;

/// How many planes light the logical pixel `(x, y)`.
fn planes_set(fb: &DmaFrameBuffer, x: usize, y: usize) -> usize {
    let r = if y < 8 { y } else { y - 8 };
    let c = if y < 8 { x } else { x + 96 };
    fb.frames.iter().filter(|f| f.rows[r].data[c].value).count()
}

#[test]
fn threshold_full_white_lights_all_planes() {
    let mut fb = DmaFrameBuffer::new();
    fb.set_pixel_internal(10, 3, 255);
    assert_eq!(planes_set(&fb, 10, 3), 7);
}

#[test]
fn threshold_black_lights_no_plane() {
    let mut fb = DmaFrameBuffer::new();
    fb.set_pixel_internal(10, 3, 0);
    assert_eq!(planes_set(&fb, 10, 3), 0);
}

#[test]
fn threshold_mid_luma_lights_exactly_three() {
    let mut fb = DmaFrameBuffer::new();
    fb.set_pixel_internal(20, 12, 100);
    // 100 exceeds the thresholds 32, 64 and 96 but not 128..=224
    assert_eq!(planes_set(&fb, 20, 12), 3);
    assert!(fb.frames[0].rows[4].data[116].value);
    assert!(fb.frames[1].rows[4].data[116].value);
    assert!(fb.frames[2].rows[4].data[116].value);
    assert!(!fb.frames[3].rows[4].data[116].value);
    assert!(!fb.frames[6].rows[4].data[116].value);
}

#[test]
fn threshold_edge_is_strict() {
    let mut fb = DmaFrameBuffer::new();
    // a luma equal to the first threshold does not light it
    fb.set_pixel_internal(0, 0, 32);
    assert_eq!(planes_set(&fb, 0, 0), 0);
    fb.set_pixel_internal(0, 0, 33);
    assert_eq!(planes_set(&fb, 0, 0), 1);
}

#[test]
fn bottom_half_lands_in_upper_columns() {
    let mut fb = DmaFrameBuffer::new();
    fb.set_pixel_internal(5, 9, 255);
    // y = 9 shares row address 1 with y = 1, shifted by half the row
    assert!(fb.frames[0].rows[1].data[101].value);
    assert!(!fb.frames[0].rows[1].data[5].value);
}

#[test]
fn out_of_range_writes_are_dropped() {
    let mut fb = DmaFrameBuffer::new();
    let before = fb.read_buffer();
    fb.set_pixel_internal(96, 0, 255);
    fb.set_pixel_internal(0, 16, 255);
    fb.set_pixel_internal(usize::MAX, usize::MAX, 255);
    fb.set_pixel(-1, 0, 255);
    fb.set_pixel(0, -1, 255);
    fb.set_pixel(i32::MIN, i32::MIN, 255);
    fb.set_pixel(96, 0, 255);
    fb.set_pixel(0, 16, 255);
    assert_eq!(fb.read_buffer(), before);
}

#[test]
fn in_range_edges_are_kept() {
    let mut fb = DmaFrameBuffer::new();
    fb.set_pixel(95, 15, 255);
    assert_eq!(planes_set(&fb, 95, 15), 7);
}

#[test]
fn brighter_luma_never_lights_fewer_planes() {
    let mut counts = Vec::new();
    for luma in [0u8, 31, 32, 33, 64, 100, 128, 200, 224, 225, 255] {
        let mut fb = DmaFrameBuffer::new();
        fb.set_pixel_internal(7, 7, luma);
        counts.push(planes_set(&fb, 7, 7));
    }
    for pair in counts.windows(2) {
        assert!(pair[0] <= pair[1]);
    }
}

#[test]
fn surface_size_matches_panel() {
    let fb = DmaFrameBuffer::new();
    assert_eq!(fb.size(), (96, 16));
}
