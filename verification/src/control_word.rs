//! The control word: the one byte clocked onto the panel bus per column
//! cycle.  Besides the pixel data bit it carries the latch strobe, the
//! display-blank signal and the three row-address bits.

use vstd::prelude::*;

verus! {

/// One control word.  On the bus it is encoded as a single byte, MSB first:
/// two reserved bits, the pixel `value` bit, the latch strobe `le`, the
/// display-blank bit `blank`, and the three `row` address bits.
#[derive(Clone, Copy, PartialEq, Eq, Structural, Debug)]
pub struct Entry {
    /// Pixel data bit shifted into the column drivers.
    pub value: bool,
    /// Latch strobe: commits the shifted data into the active row.
    pub le: bool,
    /// Display blank: forces the panel output off while asserted.
    pub blank: bool,
    /// Row address, `0..ROWS`; only the low three bits exist on the bus.
    pub row: u8,
}

impl Entry {
    /// A control word is well formed when its row address fits in the
    /// three address bits of the bus encoding.
    pub open spec fn wf(self) -> bool {
        self.row < 8
    }

    /// The byte representation on the panel bus: bit 5 is `value`, bit 4
    /// `le`, bit 3 `blank`, bits 2..0 the row address; bits 7..6 reserved 0.
    pub open spec fn encoded(self) -> u8 {
        ((if self.value { 32int } else { 0int })
            + (if self.le { 16int } else { 0int })
            + (if self.blank { 8int } else { 0int })
            + self.row) as u8
    }

    /// This word with its pixel data bit replaced and all timing signals
    /// kept.
    pub open spec fn with_value(self, lit: bool) -> Entry {
        Entry { value: lit, ..self }
    }

    /// The all-clear control word: no data, no latch, display enabled,
    /// address zero.
    pub open spec fn spec_empty() -> Entry {
        Entry { value: false, le: false, blank: false, row: 0 }
    }

    /// The word driven onto the bus while no transfer is active: display
    /// blanked, nothing else asserted.
    pub open spec fn spec_idle() -> Entry {
        Entry { value: false, le: false, blank: true, row: 0 }
    }

    /// Builds the all-clear control word.
    pub fn empty() -> (e: Entry)
        ensures
            e == Entry::spec_empty(),
            e.wf(),
    {
        Entry { value: false, le: false, blank: false, row: 0 }
    }

    /// Builds the idle control word.
    pub fn idle() -> (e: Entry)
        ensures
            e == Entry::spec_idle(),
            e.wf(),
    {
        Entry { value: false, le: false, blank: true, row: 0 }
    }

    /// Encodes this control word as its bus byte.
    pub fn encode(&self) -> (b: u8)
        requires
            self.wf(),
        ensures
            b == self.encoded(),
    {
        (if self.value { 32u8 } else { 0u8 })
            + (if self.le { 16u8 } else { 0u8 })
            + (if self.blank { 8u8 } else { 0u8 })
            + self.row
    }

    /// Sets the pixel data bit from a grayscale comparison: the pixel is
    /// driven exactly when its luma exceeds the plane's threshold.
    pub fn set_color(&mut self, luma: u8, brightness: u8)
        ensures
            *final(self) == (Entry { value: luma > brightness, ..*old(self) }),
    {
        self.value = luma > brightness;
    }
}

} // verus!
