//! Driver core for a multiplexed monochrome/grayscale LED dot-matrix panel.
//!
//! The panel is refreshed by clocking one control word per column cycle over a
//! parallel bus.  This crate holds the verified heart of that driver: the
//! control-word codec, the per-row timing template (address, blanking, latch),
//! the bit-plane framebuffer with its pixel compositor, and the render state
//! machine that owns the transmit resource and always hands it back, even when
//! a transfer fails.  The hardware peripheral itself, and the network glue
//! around the device, live outside this crate.

use vstd::prelude::*;

pub mod config;
pub mod control_word;
pub mod frame;
pub mod framebuffer;
pub mod layout;
pub mod render;

verus! {

/// Number of addressable scan lines: half the physical height, because the
/// top and bottom panel halves share one row address.
pub const ROWS: usize = 16 / 2;

/// Control words per row of pixel data: twice the physical half-panel width,
/// because the two panel halves are chained on one shift register.
pub const COLS: usize = 96 * 2;

/// Grayscale depth in bits; `FRAME_COUNT` brightness planes give
/// `2^BITS` achievable levels.
pub const BITS: u8 = 3;

/// Number of brightness planes: one full scan per comparison threshold.
pub const FRAME_COUNT: usize = 7;

/// Trailing control words appended to each row, used to pre-stage the next
/// row's address before the next row begins.
pub const ROW_EXTRA: usize = 1;

/// Number of columns at the end of a row during which the display is
/// blanked to hide data-settling and address-change transients.
pub const BLANKING_DELAY: usize = 25;

} // verus!
