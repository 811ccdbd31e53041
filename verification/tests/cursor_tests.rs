use rust_erpc::cursor::{BufferCursor, Cursor, CursorError, SliceCursor};

#[test]
fn short_read_returns_a_shorter_count() {
    let mut cursor = SliceCursor::new(vec![1, 2, 3]);
    let mut dest = vec![0u8; 5];
    let n = cursor.read(&mut dest).unwrap();
    assert_eq!(n, 3);
    assert_eq!(&dest[..n], &[1, 2, 3]);
    assert_eq!(cursor.get_position(), 3);
}

#[test]
fn read_leaves_the_rest_of_dest_alone() {
    let mut cursor = SliceCursor::new(vec![9, 8]);
    let mut dest = vec![7u8; 4];
    let n = cursor.read(&mut dest).unwrap();
    assert_eq!(n, 2);
    assert_eq!(dest, vec![9, 8, 7, 7]);
}

#[test]
fn write_that_does_not_fit_fails_without_partial_write() {
    let mut cursor = SliceCursor::new(vec![0u8; 2]);
    assert_eq!(
        cursor.write(&[1, 2, 3]),
        Err(CursorError::InsufficientBuffer)
    );
    assert_eq!(cursor.get_position(), 0);
    assert_eq!(cursor.release(), vec![0u8, 0]);
}

#[test]
fn write_then_read_round_trips_through_a_buffer_cursor() {
    let mut cursor = BufferCursor::new(vec![0u8; 8]);
    cursor.write(&[1, 2, 3, 4]).unwrap();
    assert_eq!(cursor.get_position(), 4);
    cursor.reset();
    let mut dest = vec![0u8; 4];
    let n = cursor.read(&mut dest).unwrap();
    assert_eq!(n, 4);
    assert_eq!(dest, vec![1, 2, 3, 4]);
    assert_eq!(cursor.release(), vec![1, 2, 3, 4, 0, 0, 0, 0]);
}

#[test]
fn new_with_position_starts_where_asked() {
    let mut cursor = SliceCursor::new_with_position(vec![1, 2, 3, 4], 2);
    assert_eq!(cursor.get_position(), 2);
    let mut dest = vec![0u8; 2];
    let n = cursor.read(&mut dest).unwrap();
    assert_eq!(n, 2);
    assert_eq!(dest, vec![3, 4]);
    cursor.reset();
    assert_eq!(cursor.get_position(), 0);
}
