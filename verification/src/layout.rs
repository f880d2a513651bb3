//! The row timing template: the deterministic non-pixel portion of every
//! control word of a scan line.  `Row::format` computes it; pixel writes
//! later touch only the `value` bit, so the template survives until the
//! buffer is re-initialized.

use vstd::prelude::*;

use crate::control_word::Entry;
use crate::{BLANKING_DELAY, COLS, ROWS, ROW_EXTRA};

verus! {

/// The control word a formatted row holds at column `col`, given the row's
/// own address `addr` and the address of the previously scanned row
/// `prev_addr`:
///
/// - column `0` is blanked, so the address change of the previous row's
///   trailing word settles off-screen;
/// - columns `1 ..= COLS - BLANKING_DELAY - 2` display normally;
/// - the last `BLANKING_DELAY` pixel columns and the trailing extra words
///   are blanked again, hiding latch and address transients (ghosting);
/// - column `COLS - 1` carries the latch strobe that commits the shifted
///   row on the next clock edge, and no other column does;
/// - every column carries the previous row's address except the trailing
///   extra words, which pre-stage this row's own address;
/// - the pixel `value` bit is clear everywhere.
pub open spec fn template_entry(col: int, addr: int, prev_addr: int) -> Entry {
    Entry {
        value: false,
        le: col == COLS - 1,
        blank: col == 0 || col >= COLS - BLANKING_DELAY - 1,
        row: if col >= COLS { addr as u8 } else { prev_addr as u8 },
    }
}

/// One scan line: `COLS` control words of pixel data plus `ROW_EXTRA`
/// trailing words that pre-stage the next row address.
pub struct Row {
    pub data: Vec<Entry>,
}

impl View for Row {
    type V = Seq<Entry>;

    open spec fn view(&self) -> Seq<Entry> {
        self.data@
    }
}

impl Row {
    /// A row always holds exactly `COLS + ROW_EXTRA` well-formed words.
    pub open spec fn wf(self) -> bool {
        &&& self@.len() == COLS + ROW_EXTRA
        &&& forall|c: int| 0 <= c < self@.len() ==> #[trigger] self@[c].wf()
    }

    /// The row holds exactly the timing template for address `addr`
    /// preceded by `prev_addr`, with no pixel lit.
    pub open spec fn is_template(self, addr: int, prev_addr: int) -> bool {
        &&& self@.len() == COLS + ROW_EXTRA
        &&& forall|c: int| 0 <= c < self@.len() ==> self@[c] == template_entry(c, addr, prev_addr)
    }

    /// Builds a row of all-clear control words.
    pub fn new() -> (r: Row)
        ensures
            r.wf(),
            forall|c: int| 0 <= c < r@.len() ==> r@[c] == Entry::spec_empty(),
    {
        let mut data: Vec<Entry> = Vec::new();
        let mut i: usize = 0;
        while i < COLS + ROW_EXTRA
            invariant
                data@.len() == i,
                i <= COLS + ROW_EXTRA,
                forall|c: int| 0 <= c < i ==> data@[c] == Entry::spec_empty(),
            decreases COLS + ROW_EXTRA - i,
        {
            data.push(Entry::empty());
            i += 1;
        }
        Row { data }
    }

    /// Writes the timing template into the row: blanking window, latch
    /// strobe and row addressing, clearing every pixel bit.  The ordering of
    /// blank, latch and address changes is load-bearing for the panel's
    /// electrical timing and is part of the contract via `template_entry`.
    pub fn format(&mut self, addr: u8, prev_addr: u8)
        requires
            old(self).wf(),
            addr < ROWS,
            prev_addr < ROWS,
        ensures
            final(self).is_template(addr as int, prev_addr as int),
            final(self).wf(),
    {
        let mut entry = Entry::empty();
        entry.row = prev_addr;
        entry.blank = true;
        entry.le = false;
        let mut x: usize = 0;
        while x < COLS
            invariant
                self@.len() == COLS + ROW_EXTRA,
                x <= COLS,
                addr < ROWS,
                prev_addr < ROWS,
                entry == template_entry(if x == 0 { 0int } else { x - 1 }, addr as int, prev_addr as int),
                forall|c: int| 0 <= c < x ==> self@[c] == template_entry(c, addr as int, prev_addr as int),
                forall|c: int| x <= c < self@.len() ==> #[trigger] self@[c].wf(),
            decreases COLS - x,
        {
            // enabling the display any sooner than one blanking window
            // before the latch causes visible ghosting
            if x == COLS - BLANKING_DELAY - 1 {
                entry.blank = true;
            } else if x == COLS - 1 {
                entry.le = true;
            } else if x == 1 {
                entry.blank = false;
            }
            self.data[x] = entry;
            x += 1;
        }
        // trailing extra words: pre-stage this row's own address with the
        // latch released, so the next row starts without a dead cycle
        entry.row = addr;
        entry.le = false;
        let mut e: usize = 0;
        while e < ROW_EXTRA
            invariant
                self@.len() == COLS + ROW_EXTRA,
                e <= ROW_EXTRA,
                addr < ROWS,
                prev_addr < ROWS,
                entry == template_entry(COLS as int, addr as int, prev_addr as int),
                forall|c: int| 0 <= c < COLS + e ==> self@[c] == template_entry(c, addr as int, prev_addr as int),
            decreases ROW_EXTRA - e,
        {
            self.data[COLS + e] = entry;
            e += 1;
        }
        assert forall|c: int| 0 <= c < self@.len() implies #[trigger] self@[c].wf() by {
            assert(self@[c] == template_entry(c, addr as int, prev_addr as int));
        }
    }
}

/// Template invariants of a formatted row: exactly one control word asserts
/// the latch, namely the last pixel column; the display is blanked at column
/// 0 and from the start of the blanking window through the trailing words,
/// and nowhere else; no pixel bit is set; every pixel column still carries
/// the previous row's address while the trailing words carry the new one.
pub proof fn lemma_template_invariants(r: Row, addr: int, prev_addr: int)
    requires
        r.is_template(addr, prev_addr),
    ensures
        r@.len() == COLS + ROW_EXTRA,
        r@[COLS - 1].le,
        forall|c: int| 0 <= c < r@.len() && c != COLS - 1 ==> !(#[trigger] r@[c].le),
        forall|c: int|
            0 <= c < r@.len() ==> ((#[trigger] r@[c].blank) <==> (c == 0 || c
                >= COLS - BLANKING_DELAY - 1)),
        forall|c: int| 0 <= c < r@.len() ==> !(#[trigger] r@[c].value),
        forall|c: int| 0 <= c < COLS ==> (#[trigger] r@[c].row) == prev_addr as u8,
        forall|c: int| COLS <= c < r@.len() ==> (#[trigger] r@[c].row) == addr as u8,
{
}

} // verus!
