//! The bit-plane framebuffer: one frame per brightness threshold, laid out
//! so the whole buffer streams over the bus as one contiguous byte sequence,
//! and the pixel compositor that fans a grayscale write out across every
//! plane.

use vstd::prelude::*;

use crate::control_word::Entry;
use crate::frame::{phys_col, phys_row, Frame};
use crate::{COLS, FRAME_COUNT, ROWS, ROW_EXTRA};

verus! {

/// The luma a pixel must exceed to light in plane `p`.  The step between
/// adjacent planes is `256 >> BITS`, so the `FRAME_COUNT` equal-duration
/// planes approximate `2^BITS` brightness levels.
pub open spec fn plane_threshold(p: int) -> int {
    (p + 1) * 32
}

/// How many of the planes `0..n` light for a pixel of luma `luma`.
pub open spec fn planes_lit(luma: int, n: int) -> int
    decreases n,
{
    if n <= 0 {
        0
    } else {
        planes_lit(luma, n - 1) + if luma > plane_threshold(n - 1) {
            1int
        } else {
            0int
        }
    }
}

/// Position of the word `(p, r, c)` — plane, row, column — in the byte
/// stream the buffer transfers: frames, then rows, then columns, nested
/// contiguously in that order.  A row takes `COLS + ROW_EXTRA` = 193 bytes
/// and a frame `ROWS` such rows = 1544 bytes; the strides are written as
/// literals to keep the index arithmetic linear for the solver.
pub open spec fn stream_index(p: int, r: int, c: int) -> int {
    p * 1544 + r * 193 + c
}

/// Monotonicity of the per-plane comparison: a brighter pixel lights at
/// least as many of the planes `0..n`.
pub proof fn lemma_planes_lit_monotonic(luma1: int, luma2: int, n: int)
    requires
        luma1 <= luma2,
    ensures
        planes_lit(luma1, n) <= planes_lit(luma2, n),
    decreases n,
{
    if n > 0 {
        lemma_planes_lit_monotonic(luma1, luma2, n - 1);
    }
}

/// Size in bytes of one complete transfer of the buffer: the quantity the
/// transfer engine's descriptors are sized for.
pub fn dma_buffer_size_bytes() -> (n: usize)
    ensures
        n == stream_index(FRAME_COUNT as int, 0, 0),
{
    FRAME_COUNT * (ROWS * (COLS + ROW_EXTRA))
}

/// The multi-plane framebuffer.  Created once, cleared on demand, shared
/// between the drawing producer and the render loop for the life of the
/// process.  The producer mutates it under its lock; the render loop reads
/// the same memory without that lock by design, trading an occasional torn
/// frame for a scan that never pauses (see `MatrixParlIo::render`).
pub struct DmaFrameBuffer {
    pub frames: Vec<Frame>,
}

impl DmaFrameBuffer {
    /// The buffer holds one well-formed frame per brightness plane.
    pub open spec fn wf(self) -> bool {
        &&& self.frames@.len() == FRAME_COUNT
        &&& forall|p: int| 0 <= p < FRAME_COUNT ==> (#[trigger] self.frames@[p]).wf()
    }

    /// The control word of plane `p`, row `r`, column `c`.
    pub open spec fn entry_at(self, p: int, r: int, c: int) -> Entry {
        self.frames@[p].rows@[r]@[c]
    }

    /// The byte stream one render pass transfers: every control word of
    /// every plane, encoded, frames nested over rows over columns.  The
    /// word at stream position `i` is recovered by peeling off the frame
    /// and row strides of `stream_index`.
    pub open spec fn stream(self) -> Seq<u8> {
        Seq::new(
            stream_index(FRAME_COUNT as int, 0, 0) as nat,
            |i: int| self.entry_at(i / 1544, (i % 1544) / 193, i % 193).encoded(),
        )
    }

    /// Every plane holds exactly the row timing template: the state of a
    /// freshly constructed buffer, an all-black image.
    pub open spec fn is_cleared(self) -> bool {
        &&& self.frames@.len() == FRAME_COUNT
        &&& forall|p: int| 0 <= p < FRAME_COUNT ==> (#[trigger] self.frames@[p]).is_template()
    }

    /// `after` is this buffer with the logical pixel `(y, x)` rewritten for
    /// luma `luma`: in every plane the pixel's data bit becomes the
    /// comparison of `luma` against that plane's threshold, and nothing
    /// else changes.
    pub open spec fn pixel_updated(self, after: DmaFrameBuffer, y: int, x: int, luma: int) -> bool {
        &&& after.frames@.len() == self.frames@.len()
        &&& forall|p: int|
            0 <= p < self.frames@.len() ==> (#[trigger] self.frames@[p]).pixel_updated(
                after.frames@[p],
                y,
                x,
                luma > plane_threshold(p),
            )
    }

    /// Builds the framebuffer with the timing template applied to every
    /// plane.
    pub fn new() -> (fb: DmaFrameBuffer)
        ensures
            fb.wf(),
            fb.is_cleared(),
    {
        let mut frames: Vec<Frame> = Vec::new();
        let mut i: usize = 0;
        while i < FRAME_COUNT
            invariant
                frames@.len() == i,
                i <= FRAME_COUNT,
                forall|p: int| 0 <= p < i ==> (#[trigger] frames@[p]).wf(),
            decreases FRAME_COUNT - i,
        {
            frames.push(Frame::new());
            i += 1;
        }
        let mut fb = DmaFrameBuffer { frames };
        fb.clear();
        fb
    }

    /// Re-applies the timing template to every row of every plane,
    /// resetting all pixel bits: the buffer becomes an all-black image,
    /// identical to a freshly constructed one whatever was drawn before.
    pub fn clear(&mut self)
        requires
            old(self).wf(),
        ensures
            final(self).wf(),
            final(self).is_cleared(),
    {
        let mut i: usize = 0;
        while i < FRAME_COUNT
            invariant
                self.frames@.len() == FRAME_COUNT,
                i <= FRAME_COUNT,
                forall|p: int| 0 <= p < i ==> (#[trigger] self.frames@[p]).is_template(),
                forall|p: int| 0 <= p < FRAME_COUNT ==> (#[trigger] self.frames@[p]).wf(),
            decreases FRAME_COUNT - i,
        {
            self.frames[i].format();
            i += 1;
        }
    }

    /// Writes one logical pixel across all brightness planes.  Coordinates
    /// outside the drawing surface are silently dropped, leaving the buffer
    /// untouched, as a clipped raster surface does.
    pub fn set_pixel_internal(&mut self, x: usize, y: usize, luma: u8)
        requires
            old(self).wf(),
        ensures
            final(self).wf(),
            x < COLS / 2 && y < 2 * ROWS ==> old(self).pixel_updated(
                *final(self),
                y as int,
                x as int,
                luma as int,
            ),
            !(x < COLS / 2 && y < 2 * ROWS) ==> *final(self) == *old(self),
    {
        if x >= COLS / 2 || y >= 2 * ROWS {
            return ;
        }
        let mut i: usize = 0;
        while i < FRAME_COUNT
            invariant
                self.frames@.len() == FRAME_COUNT,
                i <= FRAME_COUNT,
                x < COLS / 2,
                y < 2 * ROWS,
                forall|p: int| 0 <= p < FRAME_COUNT ==> (#[trigger] self.frames@[p]).wf(),
                forall|p: int|
                    0 <= p < i ==> old(self).frames@[p].pixel_updated(
                        #[trigger] self.frames@[p],
                        y as int,
                        x as int,
                        luma as int > plane_threshold(p),
                    ),
                forall|p: int| i <= p < FRAME_COUNT ==> self.frames@[p] == old(self).frames@[p],
            decreases FRAME_COUNT - i,
        {
            let brightness: u8 = ((i + 1) * 32) as u8;
            self.frames[i].set_pixel(y, x, luma, brightness);
            i += 1;
        }
    }

    /// Writes one logical pixel, dropping negative coordinates as well:
    /// the signed entry point the drawing surface exposes.
    pub fn set_pixel(&mut self, x: i32, y: i32, luma: u8)
        requires
            old(self).wf(),
        ensures
            final(self).wf(),
            0 <= x < COLS / 2 && 0 <= y < 2 * ROWS ==> old(self).pixel_updated(
                *final(self),
                y as int,
                x as int,
                luma as int,
            ),
            !(0 <= x < COLS / 2 && 0 <= y < 2 * ROWS) ==> *final(self) == *old(self),
    {
        if x < 0 || y < 0 {
            return ;
        }
        self.set_pixel_internal(x as usize, y as usize, luma);
    }

    /// The drawing surface the buffer exposes: the physical panel width and
    /// height in logical pixels.
    pub fn size(&self) -> (s: (u32, u32))
        ensures
            s.0 == COLS / 2,
            s.1 == 2 * ROWS,
    {
        ((COLS / 2) as u32, (ROWS * 2) as u32)
    }

    /// The exact byte sequence a render pass streams over the bus: every
    /// control word of every plane, encoded, frames nested over rows over
    /// columns in stream order.  On the device the buffer's own memory is
    /// transferred directly; this function states, byte for byte, what that
    /// memory holds.
    pub fn read_buffer(&self) -> (out: Vec<u8>)
        requires
            self.wf(),
        ensures
            out@ == self.stream(),
            out@.len() == stream_index(FRAME_COUNT as int, 0, 0),
            forall|p: int, r: int, c: int|
                0 <= p < FRAME_COUNT && 0 <= r < ROWS && 0 <= c < COLS + ROW_EXTRA
                    ==> out@[stream_index(p, r, c)] == self.entry_at(p, r, c).encoded(),
    {
        let mut out: Vec<u8> = Vec::new();
        let mut p: usize = 0;
        while p < FRAME_COUNT
            invariant
                self.wf(),
                p <= FRAME_COUNT,
                out@.len() == stream_index(p as int, 0, 0),
                forall|pp: int, rr: int, cc: int|
                    0 <= pp < FRAME_COUNT && 0 <= rr < ROWS && 0 <= cc < COLS + ROW_EXTRA
                        && stream_index(pp, rr, cc) < out@.len() ==> out@[stream_index(pp, rr, cc)]
                        == self.entry_at(pp, rr, cc).encoded(),
            decreases FRAME_COUNT - p,
        {
            let mut r: usize = 0;
            while r < ROWS
                invariant
                    self.wf(),
                    p < FRAME_COUNT,
                    r <= ROWS,
                    out@.len() == stream_index(p as int, r as int, 0),
                    forall|pp: int, rr: int, cc: int|
                        0 <= pp < FRAME_COUNT && 0 <= rr < ROWS && 0 <= cc < COLS + ROW_EXTRA
                            && stream_index(pp, rr, cc) < out@.len() ==> out@[stream_index(
                            pp,
                            rr,
                            cc,
                        )] == self.entry_at(pp, rr, cc).encoded(),
                decreases ROWS - r,
            {
                let mut c: usize = 0;
                while c < COLS + ROW_EXTRA
                    invariant
                        self.wf(),
                        p < FRAME_COUNT,
                        r < ROWS,
                        c <= COLS + ROW_EXTRA,
                        out@.len() == stream_index(p as int, r as int, c as int),
                        forall|pp: int, rr: int, cc: int|
                            0 <= pp < FRAME_COUNT && 0 <= rr < ROWS && 0 <= cc < COLS + ROW_EXTRA
                                && stream_index(pp, rr, cc) < out@.len() ==> out@[stream_index(
                                pp,
                                rr,
                                cc,
                            )] == self.entry_at(pp, rr, cc).encoded(),
                    decreases COLS + ROW_EXTRA - c,
                {
                    let ghost out0 = out@;
                    let word = self.frames[p].rows[r].data[c];
                    out.push(word.encode());
                    proof {
                        let n: int = stream_index(p as int, r as int, c as int);
                        assert(out@ == out0.push(word.encoded()));
                        assert forall|pp: int, rr: int, cc: int|
                            0 <= pp < FRAME_COUNT && 0 <= rr < ROWS && 0 <= cc < COLS + ROW_EXTRA
                                && stream_index(pp, rr, cc) < out@.len() implies out@[stream_index(
                            pp,
                            rr,
                            cc,
                        )] == self.entry_at(pp, rr, cc).encoded() by {
                            let i: int = stream_index(pp, rr, cc);
                            if i < n {
                                assert(out@[i] == out0[i]);
                            } else {
                                assert(pp == p && rr == r && cc == c);
                                assert(out@[i] == word.encoded());
                            }
                        }
                    }
                    c += 1;
                }
                proof {
                    assert(out@.len() == stream_index(p as int, 1 + r as int, 0));
                }
                r += 1;
            }
            proof {
                assert(out@.len() == stream_index(1 + p as int, 0, 0));
            }
            p += 1;
        }
        proof {
            assert forall|i: int|
                0 <= i < stream_index(FRAME_COUNT as int, 0, 0) implies out@[i]
                == self.stream()[i] by {
                let pp: int = i / 1544;
                let rr: int = (i % 1544) / 193;
                let cc: int = i % 193;
                assert(0 <= pp < FRAME_COUNT);
                assert(0 <= rr < ROWS);
                assert(0 <= cc < COLS + ROW_EXTRA);
                assert(stream_index(pp, rr, cc) == i);
            }
            assert(out@ =~= self.stream());
        }
        out
    }

    /// Counting view of one pixel: how many of the planes `0..n` have its
    /// data bit set in this buffer.
    pub open spec fn lit_count_at(self, y: int, x: int, n: int) -> int
        decreases n,
    {
        if n <= 0 {
            0
        } else {
            self.lit_count_at(y, x, n - 1) + if self.entry_at(
                n - 1,
                phys_row(y),
                phys_col(y, x),
            ).value {
                1int
            } else {
                0int
            }
        }
    }
}

/// After a pixel write, the number of planes lighting that pixel is exactly
/// the number of thresholds its luma exceeds.
pub proof fn lemma_pixel_update_lit_count(
    b: DmaFrameBuffer,
    after: DmaFrameBuffer,
    y: int,
    x: int,
    luma: int,
    n: int,
)
    requires
        b.wf(),
        b.pixel_updated(after, y, x, luma),
        0 <= y < 2 * ROWS,
        0 <= x < COLS / 2,
        0 <= n <= FRAME_COUNT,
    ensures
        after.lit_count_at(y, x, n) == planes_lit(luma, n),
    decreases n,
{
    if n > 0 {
        lemma_pixel_update_lit_count(b, after, y, x, luma, n - 1);
        let pr: int = phys_row(y);
        let pc: int = phys_col(y, x);
        assert(b.frames@[n - 1].wf());
        assert(b.frames@[n - 1].rows@[pr].wf());
        assert(b.frames@[n - 1].pixel_updated(after.frames@[n - 1], y, x, luma > plane_threshold(
            n - 1,
        )));
        assert(after.frames@[n - 1].rows@[pr]@[pc] == b.frames@[n - 1].rows@[pr]@[pc].with_value(
            luma > plane_threshold(n - 1),
        ));
    }
}

/// Monotonic brightness: writing a brighter luma to one pixel of a shared
/// starting buffer never lights fewer planes than writing a darker one.
pub proof fn lemma_monotonic_brightness(
    b: DmaFrameBuffer,
    after1: DmaFrameBuffer,
    after2: DmaFrameBuffer,
    y: int,
    x: int,
    luma1: int,
    luma2: int,
)
    requires
        b.wf(),
        b.pixel_updated(after1, y, x, luma1),
        b.pixel_updated(after2, y, x, luma2),
        luma1 <= luma2,
        0 <= y < 2 * ROWS,
        0 <= x < COLS / 2,
    ensures
        after1.lit_count_at(y, x, FRAME_COUNT as int) <= after2.lit_count_at(
            y,
            x,
            FRAME_COUNT as int,
        ),
{
    lemma_pixel_update_lit_count(b, after1, y, x, luma1, FRAME_COUNT as int);
    lemma_pixel_update_lit_count(b, after2, y, x, luma2, FRAME_COUNT as int);
    lemma_planes_lit_monotonic(luma1, luma2, FRAME_COUNT as int);
}

/// Round-trip clear: any two cleared buffers hold identical control words
/// everywhere, so clearing after any sequence of pixel writes restores a
/// buffer indistinguishable from a freshly constructed one.
pub proof fn lemma_cleared_buffers_identical(b1: DmaFrameBuffer, b2: DmaFrameBuffer)
    requires
        b1.is_cleared(),
        b2.is_cleared(),
    ensures
        b1.frames@.len() == b2.frames@.len(),
        forall|p: int, r: int, c: int|
            0 <= p < FRAME_COUNT && 0 <= r < ROWS && 0 <= c < COLS + ROW_EXTRA ==> #[trigger] b1
                .entry_at(p, r, c) == b2.entry_at(p, r, c),
        b1.stream() == b2.stream(),
{
    assert forall|p: int, r: int, c: int|
        0 <= p < FRAME_COUNT && 0 <= r < ROWS && 0 <= c < COLS + ROW_EXTRA implies #[trigger] b1
        .entry_at(p, r, c) == b2.entry_at(p, r, c) by {
        assert(b1.frames@[p].is_template());
        assert(b2.frames@[p].is_template());
        assert(b1.frames@[p].rows@[r].is_template(r, crate::frame::prev_of(r)));
        assert(b2.frames@[p].rows@[r].is_template(r, crate::frame::prev_of(r)));
    }
    assert forall|i: int|
        0 <= i < stream_index(FRAME_COUNT as int, 0, 0) implies b1.stream()[i]
        == b2.stream()[i] by {
        let pp: int = i / 1544;
        let rr: int = (i % 1544) / 193;
        let cc: int = i % 193;
        assert(0 <= pp < FRAME_COUNT && 0 <= rr < ROWS && 0 <= cc < COLS + ROW_EXTRA);
        assert(b1.entry_at(pp, rr, cc) == b2.entry_at(pp, rr, cc));
    }
    assert(b1.stream() =~= b2.stream());
}

} // verus!
