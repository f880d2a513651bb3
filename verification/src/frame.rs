//! One frame: a full scan of every addressable row at a single brightness
//! threshold, and the pixel compositor's per-frame write.

use vstd::prelude::*;

use crate::control_word::Entry;
use crate::layout::Row;
use crate::{COLS, ROWS, ROW_EXTRA};

verus! {

/// The address scanned before `addr`: the scan wraps, so row 0 follows the
/// last row.
pub open spec fn prev_of(addr: int) -> int {
    if addr == 0 {
        ROWS - 1
    } else {
        addr - 1
    }
}

/// The row that holds a logical coordinate `y`: the top and bottom panel
/// halves share one address, so `y` and `y + ROWS` land in the same row.
pub open spec fn phys_row(y: int) -> int {
    if y < ROWS {
        y
    } else {
        y - ROWS
    }
}

/// The column that holds logical `(y, x)`: the bottom half occupies the
/// upper `COLS / 2` columns of the shared row.
pub open spec fn phys_col(y: int, x: int) -> int {
    if y < ROWS {
        x
    } else {
        x + COLS / 2
    }
}

/// One full scan of the panel at a single brightness threshold.
pub struct Frame {
    pub rows: Vec<Row>,
}

impl Frame {
    /// `after` is this frame with the data bit of logical pixel `(y, x)`
    /// set to `lit`, every other word and every timing signal unchanged.
    pub open spec fn pixel_updated(self, after: Frame, y: int, x: int, lit: bool) -> bool {
        &&& after.rows@.len() == self.rows@.len()
        &&& forall|a: int|
            0 <= a < self.rows@.len() && a != phys_row(y) ==> after.rows@[a] == self.rows@[a]
        &&& after.rows@[phys_row(y)]@ == self.rows@[phys_row(y)]@.update(
            phys_col(y, x),
            self.rows@[phys_row(y)]@[phys_col(y, x)].with_value(lit),
        )
    }

    /// A frame holds one well-formed row per addressable scan line.
    pub open spec fn wf(self) -> bool {
        &&& self.rows@.len() == ROWS
        &&& forall|a: int| 0 <= a < ROWS ==> (#[trigger] self.rows@[a]).wf()
    }

    /// Every row of the frame holds exactly its timing template, with no
    /// pixel lit.
    pub open spec fn is_template(self) -> bool {
        &&& self.rows@.len() == ROWS
        &&& forall|a: int| 0 <= a < ROWS ==> (#[trigger] self.rows@[a]).is_template(a, prev_of(a))
    }

    /// Builds a frame of all-clear control words.
    pub fn new() -> (f: Frame)
        ensures
            f.wf(),
    {
        let mut rows: Vec<Row> = Vec::new();
        let mut a: usize = 0;
        while a < ROWS
            invariant
                rows@.len() == a,
                a <= ROWS,
                forall|i: int| 0 <= i < a ==> (#[trigger] rows@[i]).wf(),
            decreases ROWS - a,
        {
            rows.push(Row::new());
            a += 1;
        }
        Frame { rows }
    }

    /// Re-applies the timing template to every row of the frame, each
    /// addressed by its own index and carrying its predecessor's address
    /// through the bulk of the line.
    pub fn format(&mut self)
        requires
            old(self).wf(),
        ensures
            final(self).is_template(),
            final(self).wf(),
    {
        let mut a: usize = 0;
        while a < ROWS
            invariant
                self.rows@.len() == ROWS,
                a <= ROWS,
                forall|i: int| 0 <= i < a ==> (#[trigger] self.rows@[i]).is_template(i, prev_of(i)),
                forall|i: int| 0 <= i < ROWS ==> (#[trigger] self.rows@[i]).wf(),
            decreases ROWS - a,
        {
            let prev_addr: u8 = if a == 0 {
                (ROWS - 1) as u8
            } else {
                (a - 1) as u8
            };
            self.rows[a].format(a as u8, prev_addr);
            a += 1;
        }
    }

    /// Writes one logical pixel into this frame, on either panel half:
    /// the pixel's data bit becomes the comparison of its luma against
    /// this frame's threshold, and nothing else changes.
    pub fn set_pixel(&mut self, y: usize, x: usize, luma: u8, brightness: u8)
        requires
            old(self).wf(),
            y < 2 * ROWS,
            x < COLS / 2,
        ensures
            final(self).wf(),
            old(self).pixel_updated(*final(self), y as int, x as int, luma > brightness),
    {
        let r: usize = if y < ROWS {
            y
        } else {
            y - ROWS
        };
        let c: usize = if y < ROWS {
            x
        } else {
            x + COLS / 2
        };
        let mut e = self.rows[r].data[c];
        e.set_color(luma, brightness);
        self.rows[r].data[c] = e;
        proof {
            assert forall|a: int| 0 <= a < ROWS implies (#[trigger] self.rows@[a]).wf() by {
                assert(old(self).rows@[a].wf());
                if a == r {
                    assert forall|cc: int|
                        0 <= cc < self.rows@[a]@.len() implies #[trigger] self.rows@[a]@[cc].wf() by {
                        assert(old(self).rows@[a]@[cc].wf());
                    }
                }
            }
        }
    }
}

} // verus!
