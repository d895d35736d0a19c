use hexcore::help::{help_lines, is_heading, pad_to};
use hexcore::view::{tab_label, CellKind};
use hexcore::{App, ByteBuffer, Config, Cursor, Effect, KeyCode, KeyEvent, Mode, TabInfo};

fn key(c: char) -> KeyEvent {
    KeyEvent { code: KeyCode::Char(c), ctrl: false }
}

fn ctrl(c: char) -> KeyEvent {
    KeyEvent { code: KeyCode::Char(c), ctrl: true }
}

fn code(k: KeyCode) -> KeyEvent {
    KeyEvent { code: k, ctrl: false }
}

fn new_app() -> App {
    App::new(Config::default(), 0)
}

fn press(app: &mut App, k: KeyEvent) -> Result<Effect, String> {
    assert!(app.key_acceptable(k, 0));
    app.handle_key(k, 0)
}

fn type_line(app: &mut App, s: &str) -> Result<Effect, String> {
    for c in s.chars() {
        press(app, key(c)).unwrap();
    }
    press(app, code(KeyCode::Enter))
}

#[test]
fn delete_then_undo_then_redo() {
    let mut app = new_app();
    app.buffer = ByteBuffer::new(b"abcd");
    app.cursor.offset = 2;
    press(&mut app, key('x')).unwrap();
    assert_eq!(app.buffer.as_slice(), b"abd");
    press(&mut app, key('u')).unwrap();
    assert_eq!(app.buffer.as_slice(), b"abcd");
    assert_eq!(app.cursor.offset, 2);
    press(&mut app, ctrl('r')).unwrap();
    assert_eq!(app.buffer.as_slice(), b"abd");
}

#[test]
fn undo_and_redo_report_empty_history() {
    let mut app = new_app();
    app.buffer = ByteBuffer::new(b"abcd");
    assert_eq!(press(&mut app, key('u')), Err("Nothing to undo".to_string()));
    assert_eq!(press(&mut app, ctrl('r')), Err("Nothing to redo".to_string()));
    assert_eq!(app.buffer.as_slice(), b"abcd");
}

#[test]
fn escape_returns_to_normal_from_every_mode() {
    for first in ['i', 'R', 'r', 'v', 'V', ':', '/'] {
        let mut app = new_app();
        app.buffer = ByteBuffer::new(b"abcd");
        press(&mut app, key(first)).unwrap();
        assert_ne!(app.mode, Mode::Normal);
        assert_eq!(press(&mut app, code(KeyCode::Esc)), Ok(Effect::Nothing));
        assert_eq!(app.mode, Mode::Normal);
    }
}

#[test]
fn nibble_toggle_twice_keeps_mode() {
    let mut app = new_app();
    app.buffer = ByteBuffer::new(b"\xAB\xCD");
    app.cursor.sub_offset = 1;
    press(&mut app, key('z')).unwrap();
    assert_eq!(app.status_message, "Nibble mode on");
    press(&mut app, key('z')).unwrap();
    assert_eq!(app.status_message, "Nibble mode off");
    assert!(!app.nibble_mode);
    assert_eq!(app.cursor.sub_offset, 0);
    assert_eq!(app.buffer.as_slice(), b"\xAB\xCD");
}

#[test]
fn save_without_path_is_refused() {
    let mut app = new_app();
    press(&mut app, key(':')).unwrap();
    assert_eq!(type_line(&mut app, "w"), Err("No path set".to_string()));
    assert_eq!(app.mode, Mode::Normal);
}

#[test]
fn save_as_and_save_and_quit() {
    let mut app = new_app();
    app.buffer = ByteBuffer::new(b"data");
    press(&mut app, key(':')).unwrap();
    let effect = type_line(&mut app, "w out.bin").unwrap();
    assert_eq!(
        effect,
        Effect::Save { then_quit: false, saved_to: Some("out.bin".chars().collect()) }
    );
    assert_eq!(app.buffer.save_path().unwrap(), "out.bin");
    app.finish_save(false, Some("out.bin".chars().collect()));
    assert_eq!(app.status_message, "Saved to out.bin");

    press(&mut app, key(':')).unwrap();
    let effect = type_line(&mut app, "wq").unwrap();
    assert_eq!(effect, Effect::Save { then_quit: true, saved_to: None });
    assert!(!app.quit_requested);
    app.finish_save(true, None);
    assert!(app.quit_requested);
}

#[test]
fn open_command_asks_for_the_file() {
    let mut app = new_app();
    press(&mut app, key(':')).unwrap();
    let effect = type_line(&mut app, "  e notes.txt  ").unwrap();
    assert_eq!(effect, Effect::Open("notes.txt".chars().collect()));
}

#[test]
fn open_file_names_the_encoding_and_tab() {
    let mut app = new_app();
    app.open_file("/tmp/a.txt".to_string(), "a.txt".to_string(), b"hello".to_vec());
    assert_eq!(app.status_message, "Opened a.txt (UTF-8)");
    assert_eq!(app.tabs.len(), 1);
    assert_eq!(app.tabs[0].name, "a.txt");
    app.open_file("/tmp/b.bin".to_string(), "b.bin".to_string(), vec![0xFF, 0xFE, 0x41, 0x00]);
    assert_eq!(app.status_message, "Opened b.bin (UTF-16LE)");
    assert_eq!(app.tabs.len(), 1);
    assert_eq!(app.tabs[0].name, "b.bin");
    assert_eq!(app.buffer.save_path().unwrap(), "/tmp/b.bin");
}

#[test]
fn unknown_command_is_reported() {
    let mut app = new_app();
    press(&mut app, key(':')).unwrap();
    type_line(&mut app, "frobnicate").unwrap();
    assert_eq!(app.status_message, "Unknown command: frobnicate");
}

#[test]
fn substitute_replaces_every_match() {
    let mut app = new_app();
    app.buffer = ByteBuffer::new(b"AAB");
    press(&mut app, key(':')).unwrap();
    type_line(&mut app, "%s/41/42").unwrap();
    assert_eq!(app.buffer.as_slice(), b"BBB");
    assert_eq!(app.status_message, "Replaced 2 occurrences");
    press(&mut app, key('u')).unwrap();
    assert_eq!(app.buffer.as_slice(), b"ABB");
    press(&mut app, key('u')).unwrap();
    assert_eq!(app.buffer.as_slice(), b"AAB");
}

#[test]
fn substitute_length_mismatch_is_reported() {
    let mut app = new_app();
    app.buffer = ByteBuffer::new(b"AAB");
    press(&mut app, key(':')).unwrap();
    type_line(&mut app, "%s/41/4243").unwrap();
    assert_eq!(app.buffer.as_slice(), b"AAB");
    assert_eq!(app.status_message, "Replacement length (2) must match pattern length (1)");
}

#[test]
fn search_reports_matches_and_wraps() {
    let mut app = new_app();
    app.buffer = ByteBuffer::new(b"Hello World Hello");
    press(&mut app, key('/')).unwrap();
    type_line(&mut app, "Hello").unwrap();
    assert_eq!(app.search_results, vec![0, 12]);
    assert_eq!(app.status_message, "1/2 matches");
    press(&mut app, key('n')).unwrap();
    assert_eq!(app.cursor.offset, 12);
    press(&mut app, key('n')).unwrap();
    assert_eq!(app.cursor.offset, 0);
    press(&mut app, key('N')).unwrap();
    assert_eq!(app.cursor.offset, 12);

    press(&mut app, key('?')).unwrap();
    type_line(&mut app, "hello").unwrap();
    assert_eq!(app.search_index, 1);
    assert_eq!(app.cursor.offset, 12);
    assert_eq!(app.status_message, "2/2 matches");

    press(&mut app, key('/')).unwrap();
    type_line(&mut app, "xyz").unwrap();
    assert!(app.search_results.is_empty());
    assert_eq!(app.status_message, "No matches");
}

#[test]
fn search_by_hex_pattern() {
    let mut app = new_app();
    app.buffer = ByteBuffer::new(b"Hello");
    press(&mut app, key('/')).unwrap();
    type_line(&mut app, "6C 6C").unwrap();
    assert_eq!(app.search_results, vec![2]);
    assert_eq!(app.cursor.offset, 2);
}

#[test]
fn nibble_delete_past_end_is_an_error() {
    let mut app = new_app();
    app.buffer = ByteBuffer::new(b"\xAB");
    app.nibble_mode = true;
    app.cursor.offset = 1;
    assert_eq!(press(&mut app, key('x')), Err("Delete offset out of bounds".to_string()));
    assert_eq!(app.buffer.as_slice(), b"\xAB");
}

#[test]
fn nibble_replace_with_bad_nibble_is_an_error() {
    let mut app = new_app();
    app.buffer = ByteBuffer::new(b"\xAB");
    app.nibble_mode = true;
    app.cursor.sub_offset = 2;
    press(&mut app, key('r')).unwrap();
    assert_eq!(press(&mut app, key('5')), Err("nibble must be 0 or 1".to_string()));
    assert_eq!(app.mode, Mode::ReplaceOnce);
}

#[test]
fn insert_past_end_is_an_error() {
    let mut app = new_app();
    app.buffer = ByteBuffer::new(b"ab");
    app.cursor.offset = 5;
    press(&mut app, key('i')).unwrap();
    assert_eq!(press(&mut app, key('c')), Err("Insert offset out of bounds".to_string()));
    assert_eq!(app.buffer.as_slice(), b"ab");
}

#[test]
fn insert_mode_inserts_and_backspace_deletes() {
    let mut app = new_app();
    app.buffer = ByteBuffer::new(b"abc");
    press(&mut app, key('i')).unwrap();
    press(&mut app, key('X')).unwrap();
    assert_eq!(app.buffer.as_slice(), b"Xabc");
    assert_eq!(app.cursor.offset, 1);
    press(&mut app, code(KeyCode::Backspace)).unwrap();
    assert_eq!(app.buffer.as_slice(), b"abc");
    assert_eq!(app.cursor.offset, 0);
}

#[test]
fn insert_mode_inserts_even_with_overwrite_setting() {
    let mut app = new_app();
    app.config.use_overwrite_mode = true;
    app.buffer = ByteBuffer::new(b"ac");
    app.cursor.offset = 1;
    press(&mut app, key('i')).unwrap();
    press(&mut app, key('b')).unwrap();
    assert_eq!(app.buffer.as_slice(), b"abc");
    assert_eq!(app.cursor.offset, 2);
}

#[test]
fn dollar_goes_to_row_end() {
    let mut app = new_app();
    app.buffer = ByteBuffer::new(b"abcdefghijklmnopqrstuvwxyz");
    app.cursor.offset = 3;
    press(&mut app, key('$')).unwrap();
    assert_eq!(app.cursor.offset, 15);
    app.cursor.offset = 20;
    app.cursor.sub_offset = 1;
    press(&mut app, key('$')).unwrap();
    assert_eq!(app.cursor.offset, 25);
    assert_eq!(app.cursor.sub_offset, 0);
}

#[test]
fn nibble_backspace_deletes_previous_nibble() {
    let mut app = new_app();
    app.buffer = ByteBuffer::new(b"\xAB\xCD");
    press(&mut app, key('z')).unwrap();
    app.cursor.offset = 1;
    press(&mut app, key('i')).unwrap();
    press(&mut app, code(KeyCode::Backspace)).unwrap();
    assert_eq!(app.buffer.as_slice(), b"\xAC\xD0");
    assert_eq!(app.cursor.offset, 0);
    assert_eq!(app.cursor.sub_offset, 1);
}

#[test]
fn paste_after_cursor() {
    let mut app = new_app();
    app.buffer = ByteBuffer::new(b"abcd");
    app.clipboard = b"XY".to_vec();
    press(&mut app, key('p')).unwrap();
    assert_eq!(app.buffer.as_slice(), b"aXYbcd");
}

#[test]
fn visual_delete_removes_selection() {
    let mut app = new_app();
    app.buffer = ByteBuffer::new(b"abcdef");
    app.cursor.offset = 1;
    press(&mut app, key('v')).unwrap();
    press(&mut app, key('l')).unwrap();
    press(&mut app, key('d')).unwrap();
    assert_eq!(app.buffer.as_slice(), b"adef");
    assert_eq!(app.cursor.offset, 1);
    assert_eq!(app.mode, Mode::Normal);
    assert!(app.cursor.selection_anchor.is_none());
}

#[test]
fn normal_yank_reports_count() {
    let mut app = new_app();
    app.buffer = ByteBuffer::new(b"abcdef");
    app.cursor.start_selection(hexcore::SelectionMode::Char);
    app.cursor.offset = 3;
    press(&mut app, key('y')).unwrap();
    assert_eq!(app.clipboard, b"abcd");
    assert_eq!(app.status_message, "Yanked 4 bytes");
    assert_eq!(app.mode, Mode::Normal);
}

#[test]
fn jump_list_back_and_forward() {
    let mut app = new_app();
    app.buffer = ByteBuffer::new(b"abcdefghijklmnopqrstuvwxyz");
    app.cursor.offset = 5;
    press(&mut app, key('G')).unwrap();
    assert_eq!(app.cursor.offset, 25);
    press(&mut app, ctrl('o')).unwrap();
    assert_eq!(app.cursor.offset, 5);
    press(&mut app, code(KeyCode::Tab)).unwrap();
    assert_eq!(app.cursor.offset, 25);
}

#[test]
fn single_g_shows_a_star() {
    let mut app = new_app();
    app.buffer = ByteBuffer::new(b"abc");
    app.cursor.offset = 2;
    assert!(app.key_acceptable(key('g'), 0));
    app.handle_key(key('g'), 1000).unwrap();
    assert_eq!(app.status_message, "*");
    app.handle_key(key('g'), 2000).unwrap();
    assert_eq!(app.cursor.offset, 2);
    app.handle_key(key('g'), 2100).unwrap();
    assert_eq!(app.cursor.offset, 0);
}

#[test]
fn page_down_and_up() {
    let mut app = new_app();
    app.buffer = ByteBuffer::new(&[0u8; 400]);
    press(&mut app, ctrl('d')).unwrap();
    assert_eq!(app.cursor.offset, 128);
    press(&mut app, ctrl('u')).unwrap();
    assert_eq!(app.cursor.offset, 0);
}

#[test]
fn report_error_prefixes_message() {
    let mut app = new_app();
    app.report_error("boom");
    assert_eq!(app.status_message, "Error: boom");
}

#[test]
fn overflowing_keys_are_not_acceptable() {
    let mut app = new_app();
    app.buffer = ByteBuffer::new(b"ab");
    app.cursor = Cursor::new(1u64 << 63);
    assert!(!app.key_acceptable(key('k'), 0));
    assert!(!app.key_acceptable(ctrl('d'), 0));
    let mut app = new_app();
    app.mode = Mode::Search;
    app.command_line = "ab".chars().collect();
    assert!(app.key_acceptable(code(KeyCode::Enter), 0));
}

#[test]
fn help_lines_are_padded_by_display_width() {
    let lines = help_lines();
    assert_eq!(lines.len(), 45);
    assert_eq!(lines[0], "");
    assert_eq!(lines[1], "─── NORMAL MODE ───");
    assert_eq!(lines[2], format!("h/← l/→ j/↓ k/↑{}Move cursor", " ".repeat(6)));
    assert_eq!(lines[3], format!("0{}Go to row start", " ".repeat(20)));
    assert!(is_heading(&lines[1]));
    assert!(!is_heading(&lines[3]));
    assert!(!is_heading(""));
}

#[test]
fn pad_to_fills_to_column_twenty() {
    assert_eq!(pad_to("ab", 2, "desc"), format!("ab{}desc", " ".repeat(19)));
    assert_eq!(pad_to("wide", 25, "x"), "wide x");
}

#[test]
fn status_line_texts() {
    let mut app = new_app();
    assert_eq!(app.status_left(), " NORMAL [No File]  0x00000000  ");
    app.open_file("/tmp/f".to_string(), "f".to_string(), vec![0x12, 0x34, 0x56]);
    assert!(app.view_acceptable());
    assert_eq!(app.status_right(), " u16 LE:0x3412 BE:0x1234");
    press(&mut app, key('x')).unwrap();
    press(&mut app, key('z')).unwrap();
    app.cursor.offset = 1;
    assert_eq!(app.status_left(), " NORMAL NIBBLE f  [+] 0x00000001  ");
    assert_eq!(app.status_right(), "");
}

#[test]
fn status_line_selection_sizes() {
    let mut app = new_app();
    app.buffer = ByteBuffer::new(&[0u8; 64]);
    press(&mut app, key('v')).unwrap();
    press(&mut app, key('l')).unwrap();
    press(&mut app, key('l')).unwrap();
    assert!(app.view_acceptable());
    assert_eq!(app.status_right(), " Sel:3 u16 LE:0x0000 BE:0x0000");
    press(&mut app, code(KeyCode::Esc)).unwrap();
    press(&mut app, ctrl('v')).unwrap();
    press(&mut app, key('j')).unwrap();
    press(&mut app, key('l')).unwrap();
    assert_eq!(app.mode, Mode::VisualBlock);
    assert_eq!(app.status_right(), " Sel:4 u16 LE:0x0000 BE:0x0000");
}

#[test]
fn command_bar_texts() {
    let mut app = new_app();
    app.buffer = ByteBuffer::new(b"Hello World Hello");
    assert_eq!(app.command_bar(), (String::new(), false));
    press(&mut app, key(':')).unwrap();
    press(&mut app, key('w')).unwrap();
    assert_eq!(app.command_bar(), (":w".to_string(), false));
    press(&mut app, code(KeyCode::Esc)).unwrap();
    press(&mut app, key('/')).unwrap();
    type_line(&mut app, "Hello").unwrap();
    assert_eq!(app.command_bar(), ("(1/2)".to_string(), true));
    press(&mut app, key('?')).unwrap();
    press(&mut app, key('H')).unwrap();
    assert_eq!(app.command_bar(), ("?H  (1/2)".to_string(), false));
}

#[test]
fn hex_rows_mark_cursor_and_text() {
    let mut app = new_app();
    app.buffer = ByteBuffer::new(b"A\x01");
    app.cursor = Cursor::new(4);
    assert!(app.view_acceptable() && app.row_acceptable(0));
    let cells = app.hex_row(0).unwrap();
    let texts: Vec<&str> = cells.iter().map(|c| c.text.as_str()).collect();
    assert_eq!(texts, vec!["00000000  ", "41 ", "01 ", "   ", "   ", " ", "A", ".", " ", " "]);
    assert_eq!(cells[1].kind, CellKind::Cursor);
    assert_eq!(cells[2].kind, CellKind::Plain);
    assert_eq!(cells[0].kind, CellKind::Label);
    assert_eq!(cells[6].kind, CellKind::TextCursor);
    assert!(app.hex_row(1).is_none());
    assert_eq!(app.first_row(10), 0);
    assert_eq!(app.cursor_row(), 0);
}

#[test]
fn hex_rows_split_nibbles_under_cursor() {
    let mut app = new_app();
    app.buffer = ByteBuffer::new(&[0xAB; 10]);
    app.cursor = Cursor::new(10);
    app.nibble_mode = true;
    app.cursor.sub_offset = 1;
    let cells = app.hex_row(0).unwrap();
    assert_eq!(cells[1].text, "A");
    assert_eq!(cells[1].kind, CellKind::Plain);
    assert_eq!(cells[2].text, "B");
    assert_eq!(cells[2].kind, CellKind::Cursor);
    assert_eq!(cells[3].text, " ");
    // a gap before the ninth column
    let texts: Vec<&str> = cells.iter().map(|c| c.text.as_str()).collect();
    assert_eq!(&texts[10..13], &["AB ", " ", "AB "]);
}

#[test]
fn tab_labels_mark_modified() {
    let tab = TabInfo { name: "a.bin".to_string(), path: None, modified: true };
    assert_eq!(tab_label(&tab), " a.bin * ");
    let tab = TabInfo { name: "b".to_string(), path: None, modified: false };
    assert_eq!(tab_label(&tab), " b ");
}

#[test]
fn undoing_every_edit_walks_back_to_the_start() {
    let mut app = new_app();
    app.buffer = ByteBuffer::new(b"\x10\x20\x30\x40");
    app.clipboard = b"ZZ".to_vec();
    press(&mut app, key('x')).unwrap();
    press(&mut app, key('P')).unwrap();
    press(&mut app, key('z')).unwrap();
    press(&mut app, key('l')).unwrap();
    press(&mut app, key('x')).unwrap();
    press(&mut app, key('z')).unwrap();
    press(&mut app, key('i')).unwrap();
    press(&mut app, key('Q')).unwrap();
    press(&mut app, code(KeyCode::Esc)).unwrap();
    let edited = app.buffer.as_slice().to_vec();
    assert_ne!(edited, b"\x10\x20\x30\x40".to_vec());

    let mut undone = 0;
    while press(&mut app, key('u')).is_ok() {
        undone += 1;
    }
    assert_eq!(undone, 4);
    assert_eq!(app.buffer.as_slice(), b"\x10\x20\x30\x40");
    for _ in 0..undone {
        press(&mut app, ctrl('r')).unwrap();
    }
    assert_eq!(app.buffer.as_slice(), edited.as_slice());
    assert_eq!(press(&mut app, ctrl('r')), Err("Nothing to redo".to_string()));
}

fn nibble_stream(d: &[u8]) -> Vec<u8> {
    let mut v = Vec::new();
    for b in d {
        v.push(b >> 4);
        v.push(b & 0x0F);
    }
    v
}

fn from_nibbles(n: &[u8]) -> Vec<u8> {
    n.chunks(2).map(|p| (p[0] << 4) | p[1]).collect()
}

#[test]
fn block_yank_takes_only_the_rectangle() {
    let mut app = new_app();
    let data: Vec<u8> = (0u8..18).map(|i| 0x40 + i).collect();
    app.buffer = ByteBuffer::new(&data);
    app.cursor.offset = 2;
    press(&mut app, ctrl('v')).unwrap();
    app.cursor.offset = 17;
    press(&mut app, key('y')).unwrap();
    assert_eq!(app.clipboard, vec![0x41, 0x42, 0x51]);
    assert_eq!(app.status_message, "Yanked 3 bytes");
    assert_eq!(app.mode, Mode::Normal);
    assert_eq!(app.cursor.selection_anchor, None);
    assert_eq!(app.buffer.as_slice(), &data[..]);
}

#[test]
fn block_delete_zeroes_the_rectangle_and_undoes_byte_by_byte() {
    let mut app = new_app();
    let data: Vec<u8> = (1u8..=40).collect();
    app.buffer = ByteBuffer::new(&data);
    app.cursor.offset = 1;
    press(&mut app, ctrl('v')).unwrap();
    app.cursor.offset = 18;
    press(&mut app, key('d')).unwrap();
    let mut expected = data.clone();
    for o in [1usize, 2, 17, 18] {
        expected[o] = 0;
    }
    assert_eq!(app.buffer.as_slice(), &expected[..]);
    assert_eq!(app.buffer.len(), 40);
    assert_eq!(app.mode, Mode::Normal);
    assert_eq!(app.cursor.offset, 18);
    press(&mut app, key('u')).unwrap();
    expected[18] = data[18];
    assert_eq!(app.buffer.as_slice(), &expected[..]);
    for _ in 0..3 {
        press(&mut app, key('u')).unwrap();
    }
    assert_eq!(app.buffer.as_slice(), &data[..]);
}

#[test]
fn block_nibble_yank_takes_nibble_columns() {
    let mut app = new_app();
    let data: Vec<u8> = (0u8..32).map(|i| i.wrapping_mul(0x37).wrapping_add(0x1A)).collect();
    app.buffer = ByteBuffer::new(&data);
    press(&mut app, key('z')).unwrap();
    assert!(app.nibble_mode);
    app.cursor.offset = 0;
    app.cursor.sub_offset = 1;
    press(&mut app, ctrl('v')).unwrap();
    app.cursor.offset = 17;
    app.cursor.sub_offset = 0;
    press(&mut app, key('y')).unwrap();
    assert_eq!(
        app.clipboard,
        vec![data[0] & 0x0F, data[1] >> 4, data[16] & 0x0F, data[17] >> 4]
    );
    assert_eq!(app.status_message, "Yanked 4 bytes");
}

#[test]
fn block_nibble_delete_removes_the_block_nibbles() {
    let mut app = new_app();
    let data: Vec<u8> = (0u8..32).map(|i| i.wrapping_mul(0x37).wrapping_add(0x1A)).collect();
    app.buffer = ByteBuffer::new(&data);
    press(&mut app, key('z')).unwrap();
    app.cursor.offset = 0;
    app.cursor.sub_offset = 1;
    press(&mut app, ctrl('v')).unwrap();
    app.cursor.offset = 17;
    app.cursor.sub_offset = 0;
    press(&mut app, key('x')).unwrap();
    let mut n = nibble_stream(&data);
    for p in [34usize, 33, 2, 1] {
        n.remove(p);
        n.push(0);
    }
    assert_eq!(app.buffer.as_slice(), &from_nibbles(&n)[..]);
    assert_eq!(app.mode, Mode::Normal);
    press(&mut app, key('u')).unwrap();
    assert_eq!(app.buffer.as_slice(), &data[..]);
}

#[test]
fn block_selection_past_the_end_yanks_nothing() {
    let mut app = new_app();
    app.buffer = ByteBuffer::new(b"ab");
    app.cursor.offset = 1;
    press(&mut app, ctrl('v')).unwrap();
    app.cursor.offset = 20;
    press(&mut app, key('y')).unwrap();
    assert_eq!(app.clipboard, vec![b'b']);
    press(&mut app, ctrl('v')).unwrap();
    app.cursor.offset = 20;
    app.cursor.selection_anchor = Some(19);
    press(&mut app, key('d')).unwrap();
    assert_eq!(app.buffer.as_slice(), b"ab");
    assert_eq!(app.mode, Mode::Normal);
}

#[test]
fn block_yank_matches_the_highlight() {
    let mut app = new_app();
    let data: Vec<u8> = (0u8..40).map(|i| 0x80 + i).collect();
    app.buffer = ByteBuffer::new(&data);
    app.cursor.offset = 3;
    press(&mut app, ctrl('v')).unwrap();
    app.cursor.offset = 33;
    let shown: Vec<u8> = (0u64..40)
        .filter(|&o| app.cursor.in_selection(o, 40, false, 0))
        .map(|o| data[o as usize])
        .collect();
    press(&mut app, key('y')).unwrap();
    assert_eq!(shown.len(), 9);
    assert_eq!(app.clipboard, shown);
}
