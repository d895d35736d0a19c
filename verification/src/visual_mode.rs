//! Keys in the Visual modes: motions extend the selection, `d`/`x` delete it,
//! `y` copies it, Esc drops it. A Visual Block selection is handled in
//! `block_mode`.
use vstd::prelude::*;

use crate::buffer::nibble_deleted;
use crate::commands::EditCommand;
use crate::cursor::Cursor;
use crate::editor::{App, KeyCode, KeyEvent, Mode, is_delete, outcome, read_or_empty, read_bytes};
use crate::normal_mode::last_offset;

verus! {

/// Bytes `d` after the nibble `nibble` of the byte at `off` was deleted `k` times.
pub open spec fn nibbles_deleted(d: Seq<u8>, off: int, nibble: u8, k: nat) -> Seq<u8>
    decreases k,
{
    if k == 0 {
        d
    } else {
        nibble_deleted(nibbles_deleted(d, off, nibble, (k - 1) as nat), off, nibble)
    }
}

/// Deleting nibbles keeps the length.
proof fn lemma_nibbles_deleted_len(d: Seq<u8>, off: int, nibble: u8, k: nat)
    ensures
        nibbles_deleted(d, off, nibble, k).len() == d.len(),
    decreases k,
{
    if k > 0 {
        lemma_nibbles_deleted_len(d, off, nibble, (k - 1) as nat);
    }
}

/// First and last nibble index of the selection of `c`, counted over the whole
/// buffer (two per byte).
pub open spec fn nibble_range(c: Cursor) -> (int, int) {
    let an = c.anchor_or_offset() * 2 + c.sub_anchor_or_zero();
    let cn = c.offset * 2 + c.sub_offset;
    if an <= cn {
        (an, cn)
    } else {
        (cn, an)
    }
}

impl App {
    /// A key in a Visual mode. In Visual Block mode `d`/`x` and `y` act on the
    /// rectangle of the selection; in the other Visual modes on the run of bytes
    /// (or nibbles) from its start to its end.
    pub open spec fn visual_post(old: App, new: App, key: KeyEvent, r: Result<(), Seq<char>>) -> bool {
        match Self::motion(old, key.code) {
            Some(c) => r is Ok && Self::only_cursor(old, new, c),
            None => match key.code {
                KeyCode::Char('d') | KeyCode::Char('x') => if old.mode == Mode::VisualBlock {
                    Self::block_delete_post(old, new, r)
                } else {
                    Self::visual_delete_post(old, new, r)
                },
                KeyCode::Char('y') => r is Ok && if old.mode == Mode::VisualBlock {
                    Self::block_yank_post(old, new)
                } else {
                    Self::visual_yank_post(old, new)
                },
                KeyCode::Esc => r is Ok && new == App {
                    cursor: Self::unselected(old.cursor),
                    mode: Mode::Normal,
                    ..old
                },
                _ => r is Ok && new == old,
            },
        }
    }

    /// `y` in Visual Char or Line mode: the selection is copied, then dropped, and Normal mode.
    pub open spec fn visual_yank_post(old: App, new: App) -> bool {
        &&& Self::copied(old, new)
        &&& new == App {
            cursor: Self::unselected(old.cursor),
            mode: Mode::Normal,
            clipboard: new.clipboard,
            status_message: new.status_message,
            ..old
        }
    }

    /// `d` or `x` in Visual Char or Line mode. In nibble mode the selected nibbles are deleted
    /// one by one at the first of them (the rest of the buffer moves forward, zero
    /// nibbles fill the end), recorded as an overwrite of the tail, and the cursor
    /// goes to the first selected byte's high nibble. Otherwise the selected bytes
    /// are deleted and the cursor goes to where they started, inside the buffer.
    /// Then the selection is dropped and Normal mode follows; on an error nothing
    /// but the buffer and history changed.
    pub open spec fn visual_delete_post(old: App, new: App, r: Result<(), Seq<char>>) -> bool {
        let len = old.buffer@.len();
        if old.nibble_mode {
            let (sn, en) = nibble_range(old.cursor);
            let sb = (sn / 2) as u64;
            let total = (en - sn + 1) as usize;
            if sb < len {
                &&& r is Ok
                &&& Self::nibble_edited(
                    old,
                    new,
                    sb,
                    nibbles_deleted(old.buffer@, sb as int, (sn % 2) as u8, total as nat),
                )
                &&& new == App {
                    buffer: new.buffer,
                    undo: new.undo,
                    cursor: Self::unselected(Cursor { offset: sb, sub_offset: 0, ..old.cursor }),
                    mode: Mode::Normal,
                    ..old
                }
            } else {
                r == Err::<(), Seq<char>>("Delete offset out of bounds"@) && new == old
            }
        } else {
            match Self::selection_span(old.cursor, len as u64) {
                Some((s, e)) => {
                    let n = (e - s + 1) as usize;
                    &&& exists|c: EditCommand|
                        is_delete(c, s, read_or_empty(old.buffer@, s, n as int))
                            && #[trigger] Self::applied(old, new, c, r)
                    &&& new == if r is Ok {
                        App {
                            buffer: new.buffer,
                            undo: new.undo,
                            cursor: Self::unselected(
                                Cursor {
                                    offset: if s <= last_offset(new.buffer@.len()) {
                                        s
                                    } else {
                                        last_offset(new.buffer@.len())
                                    },
                                    ..old.cursor
                                },
                            ),
                            mode: Mode::Normal,
                            ..old
                        }
                    } else {
                        App { buffer: new.buffer, undo: new.undo, ..old }
                    }
                },
                None => r is Ok && new == App {
                    cursor: Self::unselected(old.cursor),
                    mode: Mode::Normal,
                    ..old
                },
            }
        }
    }
}

impl App {
    /// Deletes the selected nibbles (nibble mode).
    fn delete_selected_nibbles(&mut self) -> (r: Result<(), String>)
        requires
            old(self).nibble_mode,
            old(self).nibble_span_ok(),
        ensures
            Self::visual_delete_post(*old(self), *final(self), outcome(r)),
    {
        let ghost a = *self;
        let anchor_off = match self.cursor.selection_anchor {
            Some(x) => x,
            None => self.cursor.offset,
        };
        let anchor_sub = match self.cursor.selection_sub_anchor {
            Some(x) => x,
            None => 0,
        };
        let anchor_nib = anchor_off * 2 + anchor_sub as u64;
        let cur_nib = self.cursor.offset * 2 + self.cursor.sub_offset as u64;
        let start_nib = if anchor_nib <= cur_nib {
            anchor_nib
        } else {
            cur_nib
        };
        let end_nib = if anchor_nib >= cur_nib {
            anchor_nib
        } else {
            cur_nib
        };
        let start_byte = start_nib / 2;
        let start_sub = (start_nib % 2) as u8;
        let total = (end_nib - start_nib + 1) as usize;
        let len = self.buffer.len();
        let remaining = (len - start_byte) as usize;
        let old_tail = read_bytes(&self.buffer, start_byte, remaining);
        let mut i: usize = 0;
        while i < total
            invariant
                0 <= i <= total,
                start_byte <= len == a.buffer@.len(),
                i > 0 ==> start_byte < len,
                self.buffer@ == nibbles_deleted(a.buffer@, start_byte as int, start_sub, i as nat),
                self.buffer.path_spec() == a.buffer.path_spec(),
                i > 0 ==> self.buffer.modified_spec(),
                *self == (App { buffer: self.buffer, ..a }),
                i == 0 ==> *self == a,
                a == *old(self),
                a.nibble_mode,
                start_byte == (nibble_range(a.cursor).0 / 2) as u64,
            decreases total - i,
        {
            proof {
                lemma_nibbles_deleted_len(a.buffer@, start_byte as int, start_sub, i as nat);
            }
            match self.buffer.delete_nibble(start_byte, start_sub) {
                Ok(()) => {},
                Err(e) => {
                    return Err(e);
                },
            }
            i = i + 1;
        }
        proof {
            lemma_nibbles_deleted_len(a.buffer@, start_byte as int, start_sub, total as nat);
        }
        let new_tail = read_bytes(&self.buffer, start_byte, remaining);
        assert(old_tail@ =~= a.buffer@.skip(start_byte as int));
        assert(new_tail@ =~= self.buffer@.skip(start_byte as int));
        let cmd = EditCommand::Overwrite {
            offset: start_byte,
            old_bytes: old_tail,
            new_bytes: new_tail,
        };
        let ghost g = cmd;
        self.undo.push(cmd);
        let n = self.buffer.len();
        let last = if n == 0 {
            0
        } else {
            n - 1
        };
        self.cursor.offset = if start_byte <= last {
            start_byte
        } else {
            last
        };
        self.cursor.sub_offset = 0;
        self.cursor.clear_selection();
        self.mode = Mode::Normal;
        assert(crate::editor::is_overwrite(
            g,
            start_byte,
            a.buffer@.skip(start_byte as int),
            self.buffer@.skip(start_byte as int),
        ));
        assert(Self::recorded(a, *self, g));
        Ok(())
    }

    /// Deletes the selected bytes.
    fn delete_selected_bytes(&mut self) -> (r: Result<(), String>)
        requires
            !old(self).nibble_mode,
            Self::span_ok(old(self).cursor, old(self).buffer@.len() as u64),
        ensures
            Self::visual_delete_post(*old(self), *final(self), outcome(r)),
    {
        let ghost a = *self;
        match self.selection_bounds() {
            Some((start, end)) => {
                let n = (end - start + 1) as usize;
                let bytes = read_bytes(&self.buffer, start, n);
                let cmd = EditCommand::Delete { offset: start, bytes };
                let ghost g = cmd;
                match self.apply_and_record(cmd) {
                    Ok(()) => {},
                    Err(e) => {
                        assert(Self::applied(a, *self, g, outcome(Err::<(), String>(e))));
                        return Err(e);
                    },
                }
                let ghost mid = *self;
                let len = self.buffer.len();
                let last = if len == 0 {
                    0
                } else {
                    len - 1
                };
                self.cursor.offset = if start <= last {
                    start
                } else {
                    last
                };
                self.cursor.clear_selection();
                self.mode = Mode::Normal;
                assert(is_delete(g, start, read_or_empty(a.buffer@, start, n as int)));
                assert(Self::applied(a, mid, g, Ok(())));
                assert(Self::applied(a, *self, g, Ok(())));
                Ok(())
            },
            None => {
                self.cursor.clear_selection();
                self.mode = Mode::Normal;
                Ok(())
            },
        }
    }

    /// A key in a Visual mode.
    pub(crate) fn handle_visual(&mut self, key: KeyEvent) -> (r: Result<(), String>)
        requires
            old(self).visual_key_ok(key),
        ensures
            Self::visual_post(*old(self), *final(self), key, outcome(r)),
    {
        if self.motion_key(key.code) {
            return Ok(());
        }
        match key.code {
            KeyCode::Char('d') | KeyCode::Char('x') => {
                if self.mode == Mode::VisualBlock {
                    self.delete_block()
                } else if self.nibble_mode {
                    self.delete_selected_nibbles()
                } else {
                    self.delete_selected_bytes()
                }
            },
            KeyCode::Char('y') => {
                if self.mode == Mode::VisualBlock {
                    self.yank_block();
                    return Ok(());
                }
                self.yank_selection();
                self.cursor.clear_selection();
                self.mode = Mode::Normal;
                Ok(())
            },
            KeyCode::Esc => {
                self.cursor.clear_selection();
                self.mode = Mode::Normal;
                Ok(())
            },
            _ => Ok(()),
        }
    }
}

} // verus!
