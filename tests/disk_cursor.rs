use rcore_net::disk_cursor::{DiskCursor, DiskCursorIoError};

#[test]
fn position_splits_into_sector_and_offset() {
    let mut c = DiskCursor::new();
    assert_eq!(c.get_position(), 0);
    c.set_position(1025);
    assert_eq!((c.sector(), c.offset()), (2, 1));
    assert_eq!(c.get_position(), 1025);
    c.move_cursor(511);
    assert_eq!((c.sector(), c.offset()), (3, 0));
}

#[test]
fn chunk_len_stays_within_sector() {
    let mut c = DiskCursor::new();
    assert_eq!(c.chunk_len(4096), 512);
    assert_eq!(c.chunk_len(100), 100);
    c.set_position(500);
    assert_eq!(c.chunk_len(100), 12);
    assert_eq!(c.chunk_len(5), 5);
}

#[test]
fn io_errors() {
    assert_eq!(DiskCursorIoError::new_unexpected_eof_error(), DiskCursorIoError::UnexpectedEof);
    assert_eq!(DiskCursorIoError::new_write_zero_error(), DiskCursorIoError::WriteZero);
    assert!(!DiskCursorIoError::WriteZero.is_interrupted());
}
