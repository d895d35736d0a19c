use hexcore::{Cursor, SelectionMode};

#[test]
fn test_cursor_move_within_bounds() {
    let mut cursor = Cursor::new(16);
    cursor.move_by(10, 100);
    assert_eq!(cursor.offset, 10);
}

#[test]
fn test_cursor_move_clamps_to_end() {
    let mut cursor = Cursor::new(16);
    cursor.offset = 95;
    cursor.move_by(10, 100);
    assert_eq!(cursor.offset, 99);
}

#[test]
fn test_cursor_move_clamps_to_start() {
    let mut cursor = Cursor::new(16);
    cursor.offset = 0;
    cursor.move_by(-5, 100);
    assert_eq!(cursor.offset, 0);
}

#[test]
fn test_selection_char_mode() {
    let mut cursor = Cursor::new(16);
    cursor.start_selection(SelectionMode::Char);
    assert_eq!(cursor.selection_anchor, Some(0));
    cursor.move_by(5, 100);
    assert_eq!(cursor.selection_anchor, Some(0));
    assert!(cursor.in_selection(3, 100, false, 0));
    assert!(cursor.in_selection(0, 100, false, 0));
    assert!(cursor.in_selection(5, 100, false, 0));
    assert!(!cursor.in_selection(10, 100, false, 0));
}

#[test]
fn test_selection_clear() {
    let mut cursor = Cursor::new(16);
    cursor.start_selection(SelectionMode::Char);
    assert_eq!(cursor.selection_anchor, Some(0));
    cursor.clear_selection();
    assert_eq!(cursor.selection_anchor, None);
}

#[test]
fn test_current_row_start() {
    let cursor = Cursor {
        offset: 20,
        bytes_per_row: 16,
        sub_offset: 0,
        selection_anchor: None,
        selection_sub_anchor: None,
        selection_mode: SelectionMode::Off,
    };
    assert_eq!(cursor.current_row_start(), 16);
}

#[test]
fn test_move_down_up() {
    let mut cursor = Cursor::new(16);
    cursor.move_down(100);
    assert_eq!(cursor.offset, 16);
    cursor.move_up(100);
    assert_eq!(cursor.offset, 0);
}

#[test]
fn test_current_row_end_mid_row() {
    let cursor = Cursor {
        offset: 20,
        bytes_per_row: 16,
        sub_offset: 0,
        selection_anchor: None,
        selection_sub_anchor: None,
        selection_mode: SelectionMode::Off,
    };
    assert_eq!(cursor.current_row_end(100), 31);
}

#[test]
fn test_current_row_end_clamps_to_eof() {
    let cursor = Cursor {
        offset: 20,
        bytes_per_row: 16,
        sub_offset: 0,
        selection_anchor: None,
        selection_sub_anchor: None,
        selection_mode: SelectionMode::Off,
    };
    // row would end at 31 but file only has 22 bytes
    assert_eq!(cursor.current_row_end(22), 21);
}

#[test]
fn test_current_row_end_empty_file() {
    let cursor = Cursor {
        offset: 0,
        bytes_per_row: 16,
        sub_offset: 0,
        selection_anchor: None,
        selection_sub_anchor: None,
        selection_mode: SelectionMode::Off,
    };
    assert_eq!(cursor.current_row_end(0), 0);
}

#[test]
fn test_selection_line_mode() {
    let mut cursor = Cursor::new(16);
    cursor.start_selection(SelectionMode::Line);
    cursor.move_down(100);
    let s = cursor.selection_start().unwrap();
    let e = cursor.selection_end(100).unwrap();
    // Selection spans from row 0 start to row 1 end
    assert_eq!(s, 0);
    assert_eq!(e, 31);
    // All offsets in rows 0-1 should be in selection
    assert!(cursor.in_selection(0, 100, false, 0));
    assert!(cursor.in_selection(15, 100, false, 0));
    assert!(cursor.in_selection(16, 100, false, 0));
    assert!(cursor.in_selection(31, 100, false, 0));
    assert!(!cursor.in_selection(32, 100, false, 0));
}

#[test]
fn test_selection_block_mode() {
    let mut cursor = Cursor::new(16);
    cursor.offset = 18; // row 1, col 2
    cursor.start_selection(SelectionMode::Block);
    cursor.move_up(100);
    // Anchor at row 1 col 2, cursor now at row 0 col 2
    // Block spans rows 0-1, cols 2-2
    assert!(cursor.in_selection(2, 100, false, 0)); // row 0 col 2
    assert!(cursor.in_selection(18, 100, false, 0)); // row 1 col 2
    assert!(!cursor.in_selection(0, 100, false, 0)); // row 0 col 0
    assert!(!cursor.in_selection(1, 100, false, 0)); // row 0 col 1
    assert!(!cursor.in_selection(17, 100, false, 0)); // row 1 col 1
    assert!(!cursor.in_selection(19, 100, false, 0)); // row 1 col 3
}

#[test]
fn test_selection_block_nibble_mode() {
    let mut cursor = Cursor::new(16);
    cursor.sub_offset = 1; // low nibble
    cursor.offset = 18;
    cursor.start_selection(SelectionMode::Block);
    cursor.move_up(100);
    // Block spans rows 0-1, nibble cols 4-5 (since byte 2 has nibbles 4,5)
    assert!(cursor.in_selection(2, 100, true, 1));
    assert!(cursor.in_selection(18, 100, true, 1));
    assert!(!cursor.in_selection(2, 100, true, 0));
    assert!(!cursor.in_selection(18, 100, true, 0));
}

#[test]
fn test_selection_line_mode_anchor_after_cursor() {
    let mut cursor = Cursor::new(16);
    cursor.offset = 20; // row 1, col 4
    cursor.start_selection(SelectionMode::Line);
    cursor.move_up(100); // now row 0, col 4
    // Anchor at row 1, cursor at row 0. Line selection spans rows 0-1
    let s = cursor.selection_start().unwrap();
    let e = cursor.selection_end(100).unwrap();
    assert_eq!(s, 0);
    assert_eq!(e, 31);
}

#[test]
fn test_selection_line_end_clamps_to_file_size() {
    let mut cursor = Cursor::new(16);
    cursor.offset = 18; // row 1, col 2, file of 20 bytes (row 1 has only 4 bytes: 16-19)
    cursor.start_selection(SelectionMode::Line);
    // Single row selection on a partial row
    let s = cursor.selection_start().unwrap();
    let e = cursor.selection_end(20).unwrap();
    assert_eq!(s, 16);
    assert_eq!(e, 19); // clamped to file_size - 1, not 31
    assert_eq!(e - s + 1, 4); // only 4 yankable bytes

    // in_selection should work correctly too
    assert!(cursor.in_selection(16, 20, false, 0));
    assert!(cursor.in_selection(19, 20, false, 0));
    assert!(!cursor.in_selection(20, 20, false, 0));
    assert!(!cursor.in_selection(15, 20, false, 0));
}

#[test]
fn test_selection_line_yank_bounds() {
    let mut cursor = Cursor::new(16);
    cursor.offset = 5; // row 0, col 5
    cursor.start_selection(SelectionMode::Line);
    cursor.move_down(100); // now row 1, col 5
    // Yank should capture rows 0-1 = 32 bytes (offsets 0-31)
    let s = cursor.selection_start().unwrap();
    let e = cursor.selection_end(100).unwrap();
    assert_eq!(s, 0);
    assert_eq!(e, 31);
    assert_eq!(e - s + 1, 32);
}

// Additional cases.

#[test]
fn move_by_edges() {
    let mut c = Cursor::new(16);
    c.move_by(5, 0);
    assert_eq!(c.offset, 0);
    c.offset = 200;
    c.move_by(0, 100);
    assert_eq!(c.offset, 99);
    c.move_by(i64::MAX, 100);
    assert_eq!(c.offset, 99);
    c.move_by(i64::MIN, 100);
    assert_eq!(c.offset, 0);
    c.offset = u64::MAX - 1;
    c.move_by(10, u64::MAX);
    assert_eq!(c.offset, u64::MAX - 1);
}

#[test]
fn selection_without_anchor() {
    let c = Cursor::new(16);
    assert_eq!(c.selection_start(), None);
    assert_eq!(c.selection_end(100), None);
    assert!(!c.in_selection(0, 100, false, 0));
}

#[test]
fn block_bounds_values() {
    let mut c = Cursor::new(16);
    c.offset = 35; // row 2 col 3
    c.start_selection(SelectionMode::Block);
    c.offset = 17; // row 1 col 1
    c.sub_offset = 1;
    assert_eq!(c.block_bounds(false), (1, 2, 1, 3));
    assert_eq!(c.block_bounds(true), (1, 2, 3, 6));
}

#[test]
fn zero_width_rows() {
    let mut c = Cursor::new(0);
    c.offset = 7;
    assert_eq!(c.current_row_start(), 7);
    assert_eq!(c.current_row_end(100), 7);
    c.move_down(100);
    assert_eq!(c.offset, 7);
}
