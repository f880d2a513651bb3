//! The render state machine: it owns the transmit resource, streams the
//! whole framebuffer once per call, and hands the resource back to the
//! caller on success and on failure alike, so a transfer in flight can
//! never coexist with a usable handle.

use vstd::prelude::*;

use crate::control_word::Entry;
use crate::framebuffer::DmaFrameBuffer;

verus! {

/// A render-time fault.  Both kinds are local to one transfer cycle: they
/// never invalidate the buffer or the timing template, and the transmit
/// resource is recovered alongside them.
#[derive(Clone, Copy, PartialEq, Eq, Structural, Debug)]
pub enum RenderError {
    /// Bus-level fault reported by the transmit peripheral.
    ParlIo,
    /// Descriptor or memory fault reported by the transfer engine.
    Dma,
}

/// What the hardware reported for one attempted bulk transfer.  The
/// platform layer that drives the bus performs the transfer and hands this
/// event back; the state machine decides what it means for the caller.
#[derive(Clone, Copy, PartialEq, Eq, Structural, Debug)]
pub enum TransferOutcome {
    /// The whole buffer was clocked out.
    Completed,
    /// The peripheral refused the transfer before it started.
    PeripheralFault,
    /// The transfer engine faulted while the transfer was in flight.
    DmaFault,
}

/// The idle transmit resource.  A value of this type means no transfer is
/// in flight: `render` consumes it for the duration of one transfer and a
/// fresh value comes back with the result, so holding one is proof of
/// exclusive ownership of the bus.
#[derive(Clone, Copy, PartialEq, Eq, Structural, Debug)]
pub struct MatrixParlIo {
    /// The control word the peripheral drives while idle: display blanked,
    /// so the panel shows nothing between transfers.
    pub idle_word: Entry,
}

/// How one transfer outcome maps to the caller's result: completion yields
/// the handle back as `Ok`; either fault yields its error kind together
/// with the recovered handle, never losing the resource.
pub open spec fn spec_render(m: MatrixParlIo, outcome: TransferOutcome) -> Result<
    MatrixParlIo,
    (RenderError, MatrixParlIo),
> {
    match outcome {
        TransferOutcome::Completed => Ok(m),
        TransferOutcome::PeripheralFault => Err((RenderError::ParlIo, m)),
        TransferOutcome::DmaFault => Err((RenderError::Dma, m)),
    }
}

impl MatrixParlIo {
    /// The handle is configured with the blank-only idle word.
    pub open spec fn wf(self) -> bool {
        self.idle_word == Entry::spec_idle()
    }

    /// Acquires the transmit resource, configured to drive the idle word
    /// whenever no transfer is active.
    pub fn new() -> (m: MatrixParlIo)
        ensures
            m.wf(),
    {
        MatrixParlIo { idle_word: Entry::idle() }
    }

    /// One complete render pass: stages the framebuffer's raw bytes for one
    /// contiguous bulk transfer and consumes this idle handle until the
    /// hardware reports `outcome`.  The staged bytes are exactly the
    /// buffer's stream; the result always carries a usable idle handle,
    /// tagged with the fault kind when the transfer failed, so the caller
    /// may retry immediately and the resource is never lost.
    ///
    /// The render loop deliberately reads the shared buffer without the
    /// producer's lock, so the scan never stalls behind drawing: a write
    /// landing mid-pass may be streamed only partially, a torn frame for at
    /// most one scan period, and the next pass converges to the fully
    /// written state.  The staged bytes are therefore exact for whatever
    /// the buffer held when the pass began.
    pub fn render(self, fb: &DmaFrameBuffer, outcome: TransferOutcome) -> (r: (
        Vec<u8>,
        Result<MatrixParlIo, (RenderError, MatrixParlIo)>,
    ))
        requires
            self.wf(),
            fb.wf(),
        ensures
            r.0@ == fb.stream(),
            r.1 == spec_render(self, outcome),
    {
        let tx = fb.read_buffer();
        let result = match outcome {
            TransferOutcome::Completed => Ok(self),
            TransferOutcome::PeripheralFault => Err((RenderError::ParlIo, self)),
            TransferOutcome::DmaFault => Err((RenderError::Dma, self)),
        };
        (tx, result)
    }
}

/// Ownership recovery on failure: a render pass that fails hands back the
/// fault together with a well-formed idle handle, and a following render
/// pass with that handle succeeds whenever its own transfer completes.
pub proof fn lemma_render_recovers_handle(m: MatrixParlIo, outcome: TransferOutcome)
    requires
        m.wf(),
        outcome != TransferOutcome::Completed,
    ensures
        spec_render(m, outcome) matches Err((e, recovered)) && recovered.wf() && spec_render(
            recovered,
            TransferOutcome::Completed,
        ) == Ok::<MatrixParlIo, (RenderError, MatrixParlIo)>(recovered),
{
}

} // verus!
