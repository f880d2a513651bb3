//! Render state machine behaviour: streamed bytes and ownership recovery.

use matrix_controller::framebuffer::DmaFrameBuffer;
use matrix_controller::render::{MatrixParlIo, RenderError, TransferOutcome};

#[test]
fn idle_word_blanks_the_panel() {
    let m = MatrixParlIo::new();
    assert_eq!(m.idle_word.encode(), 8);
}

#[test]
fn successful_render_returns_the_handle() {
    let fb = DmaFrameBuffer::new();
    let m = MatrixParlIo::new();
    let (tx, res) = m.render(&fb, TransferOutcome::Completed);
    assert_eq!(tx, fb.read_buffer());
    assert!(res.is_ok());
}

#[test]
fn peripheral_fault_recovers_the_handle() {
    let fb = DmaFrameBuffer::new();
    let m = MatrixParlIo::new();
    let (_, res) = m.render(&fb, TransferOutcome::PeripheralFault);
    let (err, recovered) = res.unwrap_err();
    assert_eq!(err, RenderError::ParlIo);
    // the recovered handle renders successfully straight away
    let (tx, res) = recovered.render(&fb, TransferOutcome::Completed);
    assert_eq!(tx.len(), 7 * 8 * 193);
    assert!(res.is_ok());
}

#[test]
fn dma_fault_recovers_the_handle() {
    let fb = DmaFrameBuffer::new();
    let m = MatrixParlIo::new();
    let (_, res) = m.render(&fb, TransferOutcome::DmaFault);
    let (err, recovered) = res.unwrap_err();
    assert_eq!(err, RenderError::Dma);
    let (_, res) = recovered.render(&fb, TransferOutcome::Completed);
    assert!(res.is_ok());
}

#[test]
fn render_streams_current_buffer_contents() {
    let mut fb = DmaFrameBuffer::new();
    fb.set_pixel_internal(0, 0, 255);
    let m = MatrixParlIo::new();
    let (tx, _) = m.render(&fb, TransferOutcome::Completed);
    assert_eq!(tx[0], 32 + 8 + 7);
}
