use fdw::cursor::{Cursor, CursorError};

#[test]
fn cursor_starts_at_zero() {
    let c = Cursor::new(vec![1, 2, 3]);
    assert_eq!(c.position(), 0);
    assert_eq!(c.len(), 3);
}

#[test]
fn cursor_read_u8_advances_by_one() {
    let mut c = Cursor::new(vec![0xAB, 0xCD]);
    assert_eq!(c.read_u8(), Ok(0xAB));
    assert_eq!(c.position(), 1);
    assert_eq!(c.read_u8(), Ok(0xCD));
    assert_eq!(c.position(), 2);
    assert_eq!(c.read_u8(), Err(CursorError::UnexpectedEnd));
    assert_eq!(c.position(), 2);
}

#[test]
fn cursor_read_u16_is_little_endian() {
    let mut c = Cursor::new(vec![0x34, 0x12, 0xFF]);
    assert_eq!(c.read_u16(), Ok(0x1234));
    assert_eq!(c.position(), 2);
    assert_eq!(c.read_u16(), Err(CursorError::UnexpectedEnd));
    assert_eq!(c.position(), 2);
}

#[test]
fn cursor_read_u32_is_little_endian() {
    let mut c = Cursor::new(vec![0x78, 0x56, 0x34, 0x12, 0x00]);
    assert_eq!(c.read_u32(), Ok(0x1234_5678));
    assert_eq!(c.position(), 4);
    assert_eq!(c.read_u32(), Err(CursorError::UnexpectedEnd));
}

#[test]
fn cursor_read_u64_is_little_endian() {
    let mut c = Cursor::new(vec![0xEF, 0xCD, 0xAB, 0x89, 0x67, 0x45, 0x23, 0x01]);
    assert_eq!(c.read_u64(), Ok(0x0123_4567_89AB_CDEF));
    assert_eq!(c.position(), 8);
    assert_eq!(c.read_u64(), Err(CursorError::UnexpectedEnd));
    assert_eq!(c.position(), 8);
}

#[test]
fn cursor_reads_at_the_position_it_was_moved_to() {
    let mut c = Cursor::new(vec![0, 0, 0x4D, 0x5A, 0, 0]);
    c.seek(2);
    assert_eq!(c.position(), 2);
    assert_eq!(c.read_u16(), Ok(0x5A4D));
    assert_eq!(c.position(), 4);
}

#[test]
fn cursor_seek_past_the_end_fails_only_on_read() {
    let mut c = Cursor::new(vec![1, 2, 3, 4]);
    c.seek(100);
    assert_eq!(c.position(), 100);
    assert_eq!(c.read_u8(), Err(CursorError::UnexpectedEnd));
    assert_eq!(c.read_u32(), Err(CursorError::UnexpectedEnd));
    assert_eq!(c.position(), 100);
    c.seek(u64::MAX);
    assert_eq!(c.read_u64(), Err(CursorError::UnexpectedEnd));
    assert_eq!(c.position(), u64::MAX);
}

#[test]
fn cursor_read_exact_takes_the_bytes_asked_for() {
    let mut c = Cursor::new(vec![10, 20, 30, 40, 50]);
    c.seek(1);
    assert_eq!(c.read_exact(3), Ok(vec![20, 30, 40]));
    assert_eq!(c.position(), 4);
    assert_eq!(c.read_exact(2), Err(CursorError::UnexpectedEnd));
    assert_eq!(c.position(), 4);
    assert_eq!(c.read_exact(0), Ok(vec![]));
    assert_eq!(c.read_exact(1), Ok(vec![50]));
}

#[test]
fn cursor_read_on_empty_buffer_fails() {
    let mut c = Cursor::new(Vec::new());
    assert_eq!(c.read_u8(), Err(CursorError::UnexpectedEnd));
    assert_eq!(c.read_u16(), Err(CursorError::UnexpectedEnd));
    assert_eq!(c.position(), 0);
}
