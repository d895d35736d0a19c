use std::io::{Read, Seek, SeekFrom, Write};

use hexcore::{ByteBuffer, FileIo};

/// The bytes written to a fresh temporary file, read back, with the file's path.
fn through_temp_file(contents: &[u8]) -> (String, Vec<u8>) {
    let mut f = tempfile::NamedTempFile::new().unwrap();
    f.write_all(contents).unwrap();
    let mut data = Vec::new();
    f.reopen().unwrap().read_to_end(&mut data).unwrap();
    (f.path().to_string_lossy().into_owned(), data)
}

#[test]
fn test_open_and_read_small_file() {
    let (path, data) = through_temp_file(b"hello hex");
    let buf = ByteBuffer::open(path.clone(), data);
    assert_eq!(buf.len(), 9);
    assert_eq!(buf.read(0, 9).unwrap(), b"hello hex");
    assert_eq!(buf.path().unwrap(), &path);
    assert!(!buf.is_modified());
}

#[test]
fn test_save_writes_to_disk() {
    let dir = tempfile::TempDir::new().unwrap();
    let path = dir.path().join("test.bin");
    let mut buf = ByteBuffer::new(b"save test data");
    buf.save_as(path.to_string_lossy().into_owned());

    // Write the bytes to the buffer's file as the program does on save.
    let target = buf.save_path().unwrap().clone();
    let mut tmp = tempfile::NamedTempFile::new_in(dir.path()).unwrap();
    tmp.write_all(buf.as_slice()).unwrap();
    let mut file = tmp.persist(&target).unwrap();
    buf.mark_saved();
    assert!(!buf.is_modified());

    file.seek(SeekFrom::Start(0)).unwrap();
    let mut data = Vec::new();
    file.read_to_end(&mut data).unwrap();
    let loaded = ByteBuffer::open(target, data);
    assert_eq!(loaded.len(), 14);
    assert_eq!(loaded.read(0, 14).unwrap(), b"save test data");
}

#[test]
fn test_open_utf8_file() {
    let (path, data) = through_temp_file(b"hello");
    let (buf, enc) = FileIo::open(path, data);
    assert_eq!(enc, "UTF-8");
    assert_eq!(buf.len(), 5);
}

#[test]
fn test_open_utf16le_file() {
    let (path, data) = through_temp_file(&[0xFF, 0xFE, 0x48, 0x00]);
    let (buf, enc) = FileIo::open(path, data);
    assert_eq!(enc, "UTF-16LE");
    assert_eq!(buf.len(), 4);
}

#[test]
fn test_open_binary_file() {
    let (path, data) = through_temp_file(&[0x00, 0xFF, 0xFE]);
    let (buf, enc) = FileIo::open(path, data);
    assert_eq!(enc, "Binary");
    assert_eq!(buf.len(), 3);
}
