use hexcore::{App, ByteBuffer, Config, Cursor, Effect, KeyCode, KeyEvent, Mode, SelectionMode};

fn key(c: char) -> KeyEvent {
    KeyEvent { code: KeyCode::Char(c), ctrl: false }
}

fn ctrl(c: char) -> KeyEvent {
    KeyEvent { code: KeyCode::Char(c), ctrl: true }
}

fn esc() -> KeyEvent {
    KeyEvent { code: KeyCode::Esc, ctrl: false }
}

fn enter() -> KeyEvent {
    KeyEvent { code: KeyCode::Enter, ctrl: false }
}

fn new_app() -> App {
    App::new(Config::default(), 0)
}

/// Presses `k` at time 0, checking first that the key may be handled.
fn press(app: &mut App, k: KeyEvent) -> Result<Effect, String> {
    assert!(app.key_acceptable(k, 0));
    app.handle_key(k, 0)
}

#[test]
fn test_app_opens_file() {
    let mut app = new_app();
    app.open_file("/tmp/test.bin".to_string(), "test.bin".to_string(), b"Hello World".to_vec());
    assert_eq!(app.buffer.len(), 11);
    assert_eq!(app.mode, Mode::Normal);
}

#[test]
fn test_normal_mode_movement() {
    let mut app = new_app();
    app.buffer = ByteBuffer::new(b"abcdefghijklmnopqrstuvwxyz");
    app.cursor = Cursor::new(16);

    press(&mut app, key('l')).unwrap();
    assert_eq!(app.cursor.offset, 1);
    press(&mut app, key('h')).unwrap();
    assert_eq!(app.cursor.offset, 0);
    press(&mut app, key('j')).unwrap();
    assert_eq!(app.cursor.offset, 16);
    press(&mut app, key('k')).unwrap();
    assert_eq!(app.cursor.offset, 0);
}

#[test]
fn test_delete_byte_and_undo() {
    let mut app = new_app();
    app.buffer = ByteBuffer::new(b"abcd");

    press(&mut app, key('x')).unwrap();
    assert_eq!(app.buffer.len(), 3);
    assert_eq!(app.buffer.read(0, 3).unwrap(), b"bcd");

    press(&mut app, key('u')).unwrap();
    assert_eq!(app.buffer.len(), 4);
    assert_eq!(app.buffer.read(0, 4).unwrap(), b"abcd");
    assert_eq!(app.cursor.offset, 0);
}

#[test]
fn test_insert_mode() {
    let mut app = new_app();
    app.buffer = ByteBuffer::new(b"ac");
    app.config.use_overwrite_mode = false;

    press(&mut app, key('l')).unwrap();
    assert_eq!(app.cursor.offset, 1);

    press(&mut app, key('i')).unwrap();
    assert_eq!(app.mode, Mode::Insert);

    press(&mut app, key('b')).unwrap();
    assert_eq!(app.mode, Mode::Insert);
    assert_eq!(app.buffer.len(), 3);
    assert_eq!(app.buffer.read(0, 3).unwrap(), b"abc");

    press(&mut app, esc()).unwrap();
    assert_eq!(app.mode, Mode::Normal);
}

#[test]
fn test_visual_mode_selection() {
    let mut app = new_app();
    app.buffer = ByteBuffer::new(b"abcdefgh");

    press(&mut app, key('v')).unwrap();
    assert_eq!(app.mode, Mode::VisualChar);
    assert!(app.cursor.selection_start().is_some());

    press(&mut app, key('l')).unwrap();
    press(&mut app, key('l')).unwrap();
    assert_eq!(app.cursor.offset, 2);

    press(&mut app, key('y')).unwrap();
    assert_eq!(app.clipboard, b"abc");
    assert_eq!(app.mode, Mode::Normal);
}

#[test]
fn test_command_mode_quit() {
    let mut app = new_app();
    press(&mut app, key(':')).unwrap();
    assert_eq!(app.mode, Mode::Command);

    press(&mut app, key('q')).unwrap();
    press(&mut app, enter()).unwrap();
    assert!(app.quit_requested);
}

#[test]
fn test_command_mode_save() {
    let mut app = new_app();
    app.buffer = ByteBuffer::new(b"test data");
    app.buffer.save_as("/tmp/out.bin".to_string());

    press(&mut app, key(':')).unwrap();
    for c in "w".chars() {
        press(&mut app, key(c)).unwrap();
    }
    let effect = press(&mut app, enter()).unwrap();

    // The editor asks for the buffer to be written to its file.
    assert_eq!(effect, Effect::Save { then_quit: false, saved_to: None });
    assert_eq!(app.buffer.save_path().unwrap(), "/tmp/out.bin");
    assert_eq!(app.buffer.as_slice(), b"test data");
    app.finish_save(false, None);
    assert_eq!(app.status_message, "Saved");
    assert!(!app.buffer.is_modified());
}

#[test]
fn test_search_mode() {
    let mut app = new_app();
    app.buffer = ByteBuffer::new(b"Hello World Hello");

    press(&mut app, key('/')).unwrap();
    assert_eq!(app.mode, Mode::Search);

    for c in "Hello".chars() {
        press(&mut app, key(c)).unwrap();
    }
    press(&mut app, enter()).unwrap();
    assert_eq!(app.mode, Mode::Normal);
    assert!(!app.search_results.is_empty());

    press(&mut app, key('n')).unwrap();
    press(&mut app, key('N')).unwrap();
}

#[test]
fn test_dd_delete_line() {
    let mut app = new_app();
    app.buffer = ByteBuffer::new(b"abcdefghijklmnopqrstuvwxyz");
    app.cursor = Cursor::new(16);

    press(&mut app, key('d')).unwrap();
    press(&mut app, key('d')).unwrap();

    assert_eq!(app.buffer.len(), 10);
}

#[test]
fn test_gg_and_g() {
    let mut app = new_app();
    app.buffer = ByteBuffer::new(b"abcdefghijklmnopqrstuvwxyz");
    app.cursor.offset = 10;

    press(&mut app, key('g')).unwrap();
    press(&mut app, key('g')).unwrap();
    assert_eq!(app.cursor.offset, 0);

    app.cursor.offset = 0;
    press(&mut app, key('G')).unwrap();
    assert_eq!(app.cursor.offset, 25);
}

#[test]
fn test_paste_yanked() {
    let mut app = new_app();
    app.buffer = ByteBuffer::new(b"abcd");
    {
        let start = 1;
        let end = 2;
        let len = (end - start + 1) as usize;
        app.clipboard = app.buffer.read(start, len).unwrap().to_vec();
    }
    assert_eq!(app.clipboard, b"bc");

    press(&mut app, key('P')).unwrap();
    assert_eq!(app.buffer.read(0, 6).unwrap(), b"bcabcd");
}

#[test]
fn test_endianness_preview() {
    let mut app = new_app();
    app.buffer = ByteBuffer::new(&[0x12, 0x34, 0x56, 0x78, 0x9A, 0xBC, 0xDE, 0xF0]);

    let bytes = app.buffer.read(0, 8).unwrap();
    let u16_le = u16::from_le_bytes([bytes[0], bytes[1]]);
    let u16_be = u16::from_be_bytes([bytes[0], bytes[1]]);
    assert_eq!(u16_le, 0x3412);
    assert_eq!(u16_be, 0x1234);
}

#[test]
fn test_visual_block_mode() {
    let mut app = new_app();
    app.buffer = ByteBuffer::new(b"abcdefgh");
    press(&mut app, ctrl('v')).unwrap();
    assert_eq!(app.mode, Mode::VisualBlock);
    assert_eq!(app.cursor.selection_mode, SelectionMode::Block);
}

#[test]
fn test_visual_line_mode() {
    let mut app = new_app();
    app.buffer = ByteBuffer::new(b"abcdefghijklmnopqrstuvwxyz");
    press(&mut app, key('V')).unwrap();
    assert_eq!(app.mode, Mode::VisualLine);
    assert_eq!(app.cursor.selection_mode, SelectionMode::Line);

    press(&mut app, key('j')).unwrap();
    press(&mut app, key('y')).unwrap();
    assert_eq!(app.mode, Mode::Normal);
}

#[test]
fn test_a_insert_after() {
    let mut app = new_app();
    app.buffer = ByteBuffer::new(b"abcd");
    app.cursor.offset = 0;

    press(&mut app, key('a')).unwrap();
    assert_eq!(app.mode, Mode::Insert);
    assert_eq!(app.cursor.offset, 1);
}

#[test]
fn test_zero_goes_to_row_start() {
    let mut app = new_app();
    app.buffer = ByteBuffer::new(b"abcdefghijklmnopqrstuvwxyz");
    app.cursor.offset = 10;

    press(&mut app, key('0')).unwrap();
    assert_eq!(app.cursor.offset, 0);
}

#[test]
fn test_r_replace_once() {
    let mut app = new_app();
    app.buffer = ByteBuffer::new(b"abcd");
    app.cursor.offset = 1;

    press(&mut app, key('r')).unwrap();
    assert_eq!(app.mode, Mode::ReplaceOnce);

    press(&mut app, key('X')).unwrap();
    assert_eq!(app.mode, Mode::Normal);
    assert_eq!(app.buffer.read(1, 1).unwrap(), b"X");
}

#[test]
fn test_r_replace_mode() {
    let mut app = new_app();
    app.buffer = ByteBuffer::new(b"abcdefgh");
    app.cursor.offset = 2;

    press(&mut app, key('R')).unwrap();
    assert_eq!(app.mode, Mode::Replace);

    press(&mut app, key('X')).unwrap();
    assert_eq!(app.buffer.read(2, 1).unwrap(), b"X");
    assert_eq!(app.cursor.offset, 3);

    press(&mut app, key('Y')).unwrap();
    assert_eq!(app.buffer.read(3, 1).unwrap(), b"Y");
    assert_eq!(app.cursor.offset, 4);

    press(&mut app, esc()).unwrap();
    assert_eq!(app.mode, Mode::Normal);
}

#[test]
fn test_help_opens() {
    let mut app = new_app();
    app.buffer = ByteBuffer::new(b"test");

    press(&mut app, key(':')).unwrap();
    press(&mut app, key('h')).unwrap();
    press(&mut app, enter()).unwrap();

    assert!(app.show_help);
    assert!(!app.help_lines.is_empty());
    assert_eq!(app.help_scroll, 0);
}

#[test]
fn test_help_command() {
    let mut app = new_app();
    app.buffer = ByteBuffer::new(b"test");

    press(&mut app, key(':')).unwrap();
    for c in "help".chars() {
        press(&mut app, key(c)).unwrap();
    }
    press(&mut app, enter()).unwrap();

    assert!(app.show_help);
}

#[test]
fn test_help_dismiss_with_q() {
    let mut app = new_app();
    app.buffer = ByteBuffer::new(b"test");

    press(&mut app, key(':')).unwrap();
    press(&mut app, key('h')).unwrap();
    press(&mut app, enter()).unwrap();
    assert!(app.show_help);

    press(&mut app, key(':')).unwrap();
    press(&mut app, key('q')).unwrap();
    press(&mut app, enter()).unwrap();
    assert!(!app.show_help);
}

#[test]
fn test_help_scroll() {
    let mut app = new_app();
    app.buffer = ByteBuffer::new(b"test");

    press(&mut app, key(':')).unwrap();
    press(&mut app, key('h')).unwrap();
    press(&mut app, enter()).unwrap();
    assert!(app.show_help);

    let initial = app.help_scroll;
    press(&mut app, key('j')).unwrap();
    assert_eq!(app.help_scroll, initial + 1);

    press(&mut app, key('k')).unwrap();
    assert_eq!(app.help_scroll, initial);
}

#[test]
fn test_nibble_toggle() {
    let mut app = new_app();
    assert!(!app.nibble_mode);
    press(&mut app, key('z')).unwrap();
    assert!(app.nibble_mode);
    press(&mut app, key('z')).unwrap();
    assert!(!app.nibble_mode);
}

#[test]
fn test_nibble_movement_h_l() {
    let mut app = new_app();
    app.buffer = ByteBuffer::new(b"\xAB\xCD");
    app.cursor = Cursor::new(16);
    press(&mut app, key('z')).unwrap();

    assert_eq!(app.cursor.offset, 0);
    assert_eq!(app.cursor.sub_offset, 0);

    press(&mut app, key('l')).unwrap();
    assert_eq!(app.cursor.offset, 0);
    assert_eq!(app.cursor.sub_offset, 1);

    press(&mut app, key('l')).unwrap();
    assert_eq!(app.cursor.offset, 1);
    assert_eq!(app.cursor.sub_offset, 0);

    press(&mut app, key('h')).unwrap();
    assert_eq!(app.cursor.offset, 0);
    assert_eq!(app.cursor.sub_offset, 1);

    press(&mut app, key('h')).unwrap();
    assert_eq!(app.cursor.offset, 0);
    assert_eq!(app.cursor.sub_offset, 0);
}

#[test]
fn test_nibble_replace_r() {
    let mut app = new_app();
    app.buffer = ByteBuffer::new(b"\xAB\xCD");
    app.cursor = Cursor::new(16);
    press(&mut app, key('z')).unwrap();

    press(&mut app, key('r')).unwrap();
    press(&mut app, key('3')).unwrap();
    assert_eq!(app.buffer.read(0, 1).unwrap(), b"\x3B");
    assert_eq!(app.cursor.offset, 0);
    assert_eq!(app.cursor.sub_offset, 0);
    assert_eq!(app.mode, Mode::Normal);
}

#[test]
fn test_nibble_replace_mode() {
    let mut app = new_app();
    app.buffer = ByteBuffer::new(b"\xAB\xCD");
    app.cursor = Cursor::new(16);
    press(&mut app, key('z')).unwrap();

    press(&mut app, key('R')).unwrap();
    press(&mut app, key('3')).unwrap();
    assert_eq!(app.buffer.read(0, 1).unwrap(), b"\x3B");
    assert_eq!(app.cursor.offset, 0);
    assert_eq!(app.cursor.sub_offset, 1);

    press(&mut app, key('7')).unwrap();
    assert_eq!(app.buffer.read(0, 1).unwrap(), b"\x37");
    assert_eq!(app.cursor.offset, 1);
    assert_eq!(app.cursor.sub_offset, 0);

    press(&mut app, esc()).unwrap();
}

#[test]
fn test_nibble_insert_i() {
    let mut app = new_app();
    app.buffer = ByteBuffer::new(b"\xAB\xCD");
    app.cursor = Cursor::new(16);
    press(&mut app, key('z')).unwrap();

    press(&mut app, key('i')).unwrap();
    press(&mut app, key('9')).unwrap();
    assert_eq!(app.buffer.read(0, 2).unwrap(), b"\x9A\xBC");
    assert_eq!(app.cursor.offset, 0);
    assert_eq!(app.cursor.sub_offset, 1);
    press(&mut app, esc()).unwrap();
}

#[test]
fn test_nibble_delete_x() {
    let mut app = new_app();
    app.buffer = ByteBuffer::new(b"\xAB\xCD");
    app.cursor = Cursor::new(16);
    press(&mut app, key('z')).unwrap();

    press(&mut app, key('x')).unwrap();
    assert_eq!(app.buffer.read(0, 2).unwrap(), b"\xBC\xD0");
}

#[test]
fn test_nibble_delete_low_nibble() {
    let mut app = new_app();
    app.buffer = ByteBuffer::new(b"\xAB\xCD");
    app.cursor = Cursor::new(16);
    press(&mut app, key('z')).unwrap();

    press(&mut app, key('l')).unwrap();
    press(&mut app, key('x')).unwrap();
    assert_eq!(app.buffer.read(0, 2).unwrap(), b"\xAC\xD0");
}

#[test]
fn test_nibble_undo() {
    let mut app = new_app();
    app.buffer = ByteBuffer::new(b"\xAB\xCD");
    app.cursor = Cursor::new(16);
    press(&mut app, key('z')).unwrap();

    press(&mut app, key('x')).unwrap();
    assert_eq!(app.buffer.read(0, 2).unwrap(), b"\xBC\xD0");

    press(&mut app, key('u')).unwrap();
    assert_eq!(app.buffer.read(0, 2).unwrap(), b"\xAB\xCD");
    assert_eq!(app.cursor.offset, 0);
}

#[test]
fn test_nibble_visual_delete_range() {
    let mut app = new_app();
    app.buffer = ByteBuffer::new(b"\xAB\xCD\xEF");
    app.cursor = Cursor::new(16);
    press(&mut app, key('z')).unwrap();

    press(&mut app, key('v')).unwrap();
    press(&mut app, key('l')).unwrap();
    press(&mut app, key('l')).unwrap();
    press(&mut app, key('l')).unwrap();
    press(&mut app, key('x')).unwrap();
    assert_eq!(app.buffer.read(0, 3).unwrap(), b"\xEF\x00\x00");
}

#[test]
fn test_nibble_zero_goes_to_row_start() {
    let mut app = new_app();
    app.buffer = ByteBuffer::new(b"abcdefghijklmnopqrstuvwxyz");
    app.cursor = Cursor::new(16);
    app.cursor.offset = 20;
    app.cursor.sub_offset = 1;
    press(&mut app, key('z')).unwrap();

    press(&mut app, key('0')).unwrap();
    assert_eq!(app.cursor.offset, 16);
    assert_eq!(app.cursor.sub_offset, 0);
}
