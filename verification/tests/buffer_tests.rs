use hexcore::ByteBuffer;

#[test]
fn test_write_marks_modified() {
    let mut buf = ByteBuffer::new(b"hello");
    assert!(!buf.is_modified());
    buf.write(0, b"j").unwrap();
    assert!(buf.is_modified());
}

#[test]
fn test_insert_shifts_bytes() {
    let mut buf = ByteBuffer::new(b"ac");
    buf.insert(1, b"b").unwrap();
    assert_eq!(buf.read(0, 3).unwrap(), b"abc");
}

#[test]
fn test_delete_removes_bytes() {
    let mut buf = ByteBuffer::new(b"abcd");
    buf.delete(1, 2).unwrap();
    assert_eq!(buf.read(0, 2).unwrap(), b"ad");
}

#[test]
fn test_read_out_of_bounds_error() {
    let buf = ByteBuffer::new(b"hi");
    assert!(buf.read(0, 3).is_err());
    assert!(buf.read(5, 1).is_err());
}

#[test]
fn test_get_set_nibble() {
    let mut buf = ByteBuffer::new(b"\xAB\xCD");
    assert_eq!(buf.get_nibble(0, 0).unwrap(), 0xA);
    assert_eq!(buf.get_nibble(0, 1).unwrap(), 0xB);
    assert_eq!(buf.get_nibble(1, 0).unwrap(), 0xC);
    assert_eq!(buf.get_nibble(1, 1).unwrap(), 0xD);
    buf.set_nibble(0, 0, 0x3).unwrap();
    assert_eq!(buf.get_nibble(0, 0).unwrap(), 0x3);
    assert_eq!(buf.get_nibble(0, 1).unwrap(), 0xB);
    assert_eq!(buf.read(0, 1).unwrap(), b"\x3B");
    buf.set_nibble(0, 1, 0xE).unwrap();
    assert_eq!(buf.read(0, 1).unwrap(), b"\x3E");
    assert!(buf.is_modified());
}

#[test]
fn test_insert_nibble_high() {
    let mut buf = ByteBuffer::new(b"\xAB\xCD");
    buf.insert_nibble(0, 0, 0x9).unwrap();
    assert_eq!(buf.read(0, 2).unwrap(), b"\x9A\xBC");
}

#[test]
fn test_insert_nibble_low() {
    let mut buf = ByteBuffer::new(b"\xAB\xCD");
    buf.insert_nibble(0, 1, 0x9).unwrap();
    assert_eq!(buf.read(0, 2).unwrap(), b"\xA9\xBC");
}

#[test]
fn test_insert_nibble_end() {
    let mut buf = ByteBuffer::new(b"\xAB");
    buf.insert_nibble(1, 0, 0x9).unwrap();
    assert_eq!(buf.read(0, 2).unwrap(), b"\xAB\x90");
}

#[test]
fn test_insert_nibble_at_buffer_end() {
    let mut buf = ByteBuffer::new(b"\xAB");
    buf.insert_nibble(1, 0, 0xC).unwrap();
    assert_eq!(buf.len(), 2);
    assert_eq!(buf.read(0, 2).unwrap(), b"\xAB\xC0");
}

#[test]
fn test_delete_nibble_high() {
    let mut buf = ByteBuffer::new(b"\xAB\xCD");
    buf.delete_nibble(0, 0).unwrap();
    assert_eq!(buf.read(0, 2).unwrap(), b"\xBC\xD0");
}

#[test]
fn test_delete_nibble_low() {
    let mut buf = ByteBuffer::new(b"\xAB\xCD");
    buf.delete_nibble(0, 1).unwrap();
    assert_eq!(buf.read(0, 2).unwrap(), b"\xAC\xD0");
}

#[test]
fn test_delete_nibble_single_byte_high() {
    let mut buf = ByteBuffer::new(b"\xA0");
    buf.delete_nibble(0, 0).unwrap();
    assert_eq!(buf.read(0, 1).unwrap(), b"\x00");
    assert_eq!(buf.len(), 1);
}

#[test]
fn test_delete_nibble_single_byte_low() {
    let mut buf = ByteBuffer::new(b"\xAB");
    buf.delete_nibble(0, 1).unwrap();
    assert_eq!(buf.read(0, 1).unwrap(), b"\xA0");
    assert_eq!(buf.len(), 1);
}

// Error messages and edge cases.

#[test]
fn read_error_messages() {
    let buf = ByteBuffer::new(b"abc");
    assert_eq!(buf.read(3, 0).unwrap_err(), "Offset out of bounds");
    assert_eq!(buf.read(1, 3).unwrap_err(), "Read out of bounds");
    assert_eq!(buf.read(1, usize::MAX).unwrap_err(), "Overflow");
    assert_eq!(buf.read(1, 0).unwrap(), b"");
    assert_eq!(buf.read(1, 2).unwrap(), b"bc");
}

#[test]
fn write_error_messages_leave_buffer_unchanged() {
    let mut buf = ByteBuffer::new(b"abc");
    assert_eq!(buf.write(2, b"xy").unwrap_err(), "Write out of bounds");
    assert_eq!(buf.write(u64::MAX, b"xy").unwrap_err(), "Overflow");
    assert!(!buf.is_modified());
    assert_eq!(buf.as_slice(), b"abc");
    buf.write(3, b"").unwrap();
    assert!(buf.is_modified());
    buf.write(1, b"XY").unwrap();
    assert_eq!(buf.as_slice(), b"aXY");
}

#[test]
fn insert_and_delete_edges() {
    let mut buf = ByteBuffer::new(b"ab");
    assert_eq!(buf.insert(3, b"z").unwrap_err(), "Insert offset out of bounds");
    buf.insert(2, b"cd").unwrap();
    assert_eq!(buf.as_slice(), b"abcd");
    buf.insert(0, b"").unwrap();
    assert_eq!(buf.as_slice(), b"abcd");
    assert_eq!(buf.delete(3, 2).unwrap_err(), "Delete out of bounds");
    assert_eq!(buf.delete(u64::MAX, 1).unwrap_err(), "Overflow");
    buf.delete(4, 0).unwrap();
    buf.delete(0, 4).unwrap();
    assert!(buf.is_empty());
    assert_eq!(buf.len(), 0);
}

#[test]
fn nibble_error_messages() {
    let mut buf = ByteBuffer::new(b"\x12");
    assert_eq!(buf.get_nibble(1, 0).unwrap_err(), "Offset out of bounds");
    assert_eq!(buf.get_nibble(0, 2).unwrap_err(), "nibble must be 0 or 1");
    assert_eq!(buf.set_nibble(0, 2, 5).unwrap_err(), "nibble must be 0 or 1");
    assert!(!buf.is_modified());
    assert_eq!(buf.insert_nibble(2, 0, 1).unwrap_err(), "Insert offset out of bounds");
    assert_eq!(buf.delete_nibble(1, 0).unwrap_err(), "Delete offset out of bounds");
    assert_eq!(buf.as_slice(), b"\x12");
}

#[test]
fn nibble_digit_is_masked() {
    let mut buf = ByteBuffer::new(b"\x12\x34");
    buf.set_nibble(1, 1, 0xF7).unwrap();
    assert_eq!(buf.as_slice(), b"\x12\x37");
    buf.insert_nibble(0, 1, 0xAB).unwrap();
    assert_eq!(buf.as_slice(), b"\x1B\x23");
}

#[test]
fn insert_then_delete_nibble_keeps_all_but_last_nibble() {
    let mut buf = ByteBuffer::new(b"\x12\x34\x56");
    buf.insert_nibble(1, 0, 0x9).unwrap();
    assert_eq!(buf.as_slice(), b"\x12\x93\x45");
    buf.delete_nibble(1, 0).unwrap();
    assert_eq!(buf.as_slice(), b"\x12\x34\x50");
}

#[test]
fn path_and_save_bookkeeping() {
    let mut buf = ByteBuffer::new(b"x");
    assert!(buf.path().is_none());
    assert_eq!(buf.save_path().unwrap_err(), "No path set");
    buf.write(0, b"y").unwrap();
    buf.save_as("out.bin".to_string());
    assert_eq!(buf.path().unwrap(), "out.bin");
    assert_eq!(buf.save_path().unwrap(), "out.bin");
    assert!(buf.is_modified());
    buf.mark_saved();
    assert!(!buf.is_modified());
    let opened = ByteBuffer::open("f.bin".to_string(), vec![1, 2, 3]);
    assert_eq!(opened.len(), 3);
    assert_eq!(opened.path().unwrap(), "f.bin");
    assert!(!opened.is_modified());
}

#[test]
fn insert_then_delete_restores_bytes() {
    let mut buf = ByteBuffer::new(b"abcd");
    buf.insert(2, b"XYZ").unwrap();
    assert_eq!(buf.as_slice(), b"abXYZcd");
    buf.delete(2, 3).unwrap();
    assert_eq!(buf.as_slice(), b"abcd");
}

#[test]
fn read_gives_back_written_bytes() {
    let mut buf = ByteBuffer::new(b"abcdef");
    buf.write(1, b"QRS").unwrap();
    assert_eq!(buf.read(1, 3).unwrap(), b"QRS");
    assert_eq!(buf.len(), 6);
}
