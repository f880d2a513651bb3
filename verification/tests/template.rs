//! Row and frame timing-template behaviour.

use matrix_controller::frame::Frame;
use matrix_controller::layout::Row;

#[test]
fn row_format_blanking_pattern() {
    let mut row = Row::new();
    row.format(3, 2);
    // column 0 is blanked while the previous address settles
    assert!(row.data[0].blank);
    // the display is enabled for the bulk of the row
    assert!(!row.data[1].blank);
    assert!(!row.data[100].blank);
    assert!(!row.data[165].blank);
    // the ghosting-prevention window re-asserts blank to the end
    assert!(row.data[166].blank);
    assert!(row.data[190].blank);
    assert!(row.data[191].blank);
    assert!(row.data[192].blank);
}

#[test]
fn row_format_exactly_one_latch() {
    let mut row = Row::new();
    row.format(5, 4);
    let latches = row.data.iter().filter(|e| e.le).count();
    assert_eq!(latches, 1);
    assert!(row.data[191].le);
    assert!(!row.data[192].le);
}

#[test]
fn row_format_addresses() {
    let mut row = Row::new();
    row.format(3, 2);
    // the previous row's address rides through every pixel column
    assert_eq!(row.data[0].row, 2);
    assert_eq!(row.data[100].row, 2);
    assert_eq!(row.data[191].row, 2);
    // the trailing word pre-stages the new address
    assert_eq!(row.data[192].row, 3);
}

#[test]
fn row_format_clears_pixels() {
    let mut row = Row::new();
    row.format(0, 7);
    assert!(row.data.iter().all(|e| !e.value));
    assert_eq!(row.data.len(), 193);
}

#[test]
fn frame_format_wraps_previous_address() {
    let mut frame = Frame::new();
    frame.format();
    // row 0 follows the last row in scan order
    assert_eq!(frame.rows[0].data[0].row, 7);
    assert_eq!(frame.rows[0].data[192].row, 0);
    assert_eq!(frame.rows[4].data[0].row, 3);
    assert_eq!(frame.rows[4].data[192].row, 4);
    assert_eq!(frame.rows.len(), 8);
}
