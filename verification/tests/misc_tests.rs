use hexcore::{Config, FileIo};

#[test]
fn test_config_defaults() {
    let cfg = Config::default();
    assert_eq!(cfg.max_undo_depth, 5000);
    assert_eq!(cfg.bytes_per_row, 16);
    assert_eq!(cfg.mmap_threshold_mb, 500);
    assert!(cfg.show_ascii);
    assert!(!cfg.use_overwrite_mode);
}

#[test]
fn test_detect_utf8() {
    assert_eq!(FileIo::detect_encoding(b"hello"), "UTF-8");
}

#[test]
fn test_detect_utf16le() {
    assert_eq!(FileIo::detect_encoding(&[0xFF, 0xFE, 0x48, 0x00]), "UTF-16LE");
}

#[test]
fn test_detect_binary() {
    assert_eq!(FileIo::detect_encoding(&[0x00, 0xFF, 0xFE]), "Binary");
}

// Additional cases.

#[test]
fn detect_encoding_agrees_with_std() {
    let samples: Vec<Vec<u8>> = vec![
        vec![],
        "héllo wörld ✓ 😀".as_bytes().to_vec(),
        vec![0xC0, 0x80],
        vec![0xC2, 0x80],
        vec![0xE0, 0x80, 0x80],
        vec![0xE0, 0xA0, 0x80],
        vec![0xED, 0xA0, 0x80],
        vec![0xEE, 0x80, 0x80],
        vec![0xF0, 0x90, 0x80, 0x80],
        vec![0xF4, 0x90, 0x80, 0x80],
        vec![0xF5, 0x80, 0x80, 0x80],
        vec![0xE2, 0x82],
        vec![0x80],
        vec![0xFF, 0xFF],
    ];
    for s in samples {
        let expected = if std::str::from_utf8(&s).is_ok() { "UTF-8" } else { "Binary" };
        assert_eq!(FileIo::detect_encoding(&s), expected);
    }
    assert_eq!(FileIo::detect_encoding(&[0xFF, 0xFE]), "UTF-16LE");
    assert_eq!(FileIo::detect_encoding(&[0xFF]), "Binary");
}

#[test]
fn open_detects_from_header() {
    let (buf, enc) = FileIo::open("a.txt".to_string(), b"hello".to_vec());
    assert_eq!(enc, "UTF-8");
    assert_eq!(buf.len(), 5);
    let (buf, enc) = FileIo::open("a.bin".to_string(), vec![0xFF, 0xFE, 0x48, 0x00]);
    assert_eq!(enc, "UTF-16LE");
    assert_eq!(buf.len(), 4);
    let (_, enc) = FileIo::open("e".to_string(), vec![]);
    assert_eq!(enc, "UTF-8");
    // Only the first four bytes count: an invalid byte later does not matter.
    let (_, enc) = FileIo::open("t".to_string(), vec![b'a', b'b', b'c', b'd', 0xFF]);
    assert_eq!(enc, "UTF-8");
    // A character cut by the four-byte header makes it binary.
    let (_, enc) = FileIo::open("t".to_string(), "abc✓".as_bytes().to_vec());
    assert_eq!(enc, "Binary");
}
