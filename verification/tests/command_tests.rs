use hexcore::{ByteBuffer, EditCommand, UndoManager};

#[test]
fn test_overwrite_undo_restores_original() {
    let cmd = EditCommand::Overwrite {
        offset: 0,
        old_bytes: b"H".to_vec(),
        new_bytes: b"X".to_vec(),
    };
    let mut buf = ByteBuffer::new(b"Hello");
    cmd.apply(&mut buf).unwrap();
    assert_eq!(buf.read(0, 1).unwrap(), b"X");
    cmd.undo(&mut buf).unwrap();
    assert_eq!(buf.read(0, 1).unwrap(), b"H");
}

#[test]
fn test_insert_undo_removes_bytes() {
    let cmd = EditCommand::Insert { offset: 1, bytes: b"XY".to_vec() };
    let mut buf = ByteBuffer::new(b"ab");
    cmd.apply(&mut buf).unwrap();
    assert_eq!(buf.len(), 4);
    cmd.undo(&mut buf).unwrap();
    assert_eq!(buf.len(), 2);
    assert_eq!(buf.read(0, 2).unwrap(), b"ab");
}

#[test]
fn test_delete_undo_restores_bytes() {
    let cmd = EditCommand::Delete { offset: 1, bytes: b"bc".to_vec() };
    let mut buf = ByteBuffer::new(b"abcd");
    cmd.apply(&mut buf).unwrap();
    assert_eq!(buf.len(), 2);
    cmd.undo(&mut buf).unwrap();
    assert_eq!(buf.len(), 4);
    assert_eq!(buf.read(0, 4).unwrap(), b"abcd");
}

#[test]
fn test_undo_redo_cycle() {
    let mut um = UndoManager::new(100);
    let mut buf = ByteBuffer::new(b"abcd");
    let cmd = EditCommand::Insert { offset: 0, bytes: b"XY".to_vec() };
    cmd.apply(&mut buf).unwrap();
    um.push(cmd);
    assert_eq!(buf.len(), 6);
    assert_eq!(um.undo(&mut buf).unwrap(), 0);
    assert_eq!(buf.read(0, 4).unwrap(), b"abcd");
    assert_eq!(um.redo(&mut buf).unwrap(), 0);
    assert_eq!(buf.read(0, 6).unwrap(), b"XYabcd");
}

#[test]
fn test_new_action_clears_redo() {
    let mut um = UndoManager::new(100);
    let mut buf = ByteBuffer::new(b"test");
    let cmd = EditCommand::Overwrite { offset: 0, old_bytes: b"t".to_vec(), new_bytes: b"T".to_vec() };
    cmd.apply(&mut buf).unwrap();
    um.push(cmd);
    um.undo(&mut buf).unwrap();
    assert!(um.can_redo());
    let cmd2 = EditCommand::Overwrite { offset: 1, old_bytes: b"e".to_vec(), new_bytes: b"E".to_vec() };
    cmd2.apply(&mut buf).unwrap();
    um.push(cmd2);
    assert!(!um.can_redo());
}

// Additional cases.

#[test]
fn command_offsets_and_errors() {
    let del = EditCommand::Delete { offset: 7, bytes: vec![1] };
    assert_eq!(del.offset(), 7);
    let mut buf = ByteBuffer::new(b"abc");
    assert_eq!(del.apply(&mut buf).unwrap_err(), "Delete out of bounds");
    assert_eq!(del.undo(&mut buf).unwrap_err(), "Insert offset out of bounds");
    let ins = EditCommand::Insert { offset: 2, bytes: b"zz".to_vec() };
    assert_eq!(ins.offset(), 2);
    assert_eq!(ins.undo(&mut buf).unwrap_err(), "Delete out of bounds");
    assert_eq!(buf.as_slice(), b"abc");
}

#[test]
fn undo_then_redo_restores_state() {
    let mut um = UndoManager::new(10);
    let mut buf = ByteBuffer::new(b"abcdef");
    let cmds = vec![
        EditCommand::Delete { offset: 1, bytes: b"bc".to_vec() },
        EditCommand::Overwrite { offset: 0, old_bytes: b"a".to_vec(), new_bytes: b"Z".to_vec() },
        EditCommand::Insert { offset: 4, bytes: b"!".to_vec() },
    ];
    for c in cmds {
        c.apply(&mut buf).unwrap();
        um.push(c);
    }
    assert_eq!(buf.as_slice(), b"Zdef!");
    assert_eq!(um.undo(&mut buf).unwrap(), 4);
    assert_eq!(um.undo(&mut buf).unwrap(), 0);
    assert_eq!(um.undo(&mut buf).unwrap(), 1);
    assert_eq!(buf.as_slice(), b"abcdef");
    assert_eq!(um.undo(&mut buf).unwrap_err(), "Nothing to undo");
    assert!(!um.can_undo());
    assert_eq!(um.redo(&mut buf).unwrap(), 1);
    assert_eq!(um.redo(&mut buf).unwrap(), 0);
    assert_eq!(um.redo(&mut buf).unwrap(), 4);
    assert_eq!(buf.as_slice(), b"Zdef!");
    assert_eq!(um.redo(&mut buf).unwrap_err(), "Nothing to redo");
}

#[test]
fn max_depth_drops_oldest() {
    let mut um = UndoManager::new(1);
    let mut buf = ByteBuffer::new(b"ab");
    let c1 = EditCommand::Overwrite { offset: 0, old_bytes: b"a".to_vec(), new_bytes: b"x".to_vec() };
    c1.apply(&mut buf).unwrap();
    um.push(c1);
    let c2 = EditCommand::Overwrite { offset: 1, old_bytes: b"b".to_vec(), new_bytes: b"y".to_vec() };
    c2.apply(&mut buf).unwrap();
    um.push(c2);
    assert_eq!(um.undo(&mut buf).unwrap(), 1);
    assert!(!um.can_undo());
    assert_eq!(buf.as_slice(), b"xb");
    um.set_max_depth(0);
    let c3 = EditCommand::Insert { offset: 0, bytes: b"q".to_vec() };
    c3.apply(&mut buf).unwrap();
    um.push(c3);
    assert!(!um.can_undo());
    assert!(!um.can_redo());
}

#[test]
fn failed_undo_drops_the_edit() {
    let mut um = UndoManager::new(10);
    let mut buf = ByteBuffer::new(b"abc");
    um.push(EditCommand::Insert { offset: 5, bytes: b"zz".to_vec() });
    assert_eq!(um.undo(&mut buf).unwrap_err(), "Delete out of bounds");
    assert!(!um.can_undo());
    assert!(!um.can_redo());
    assert_eq!(buf.as_slice(), b"abc");
}
