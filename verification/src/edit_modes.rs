//! Keys in the typing modes: Insert, Replace and replace-once.
use vstd::prelude::*;

use crate::buffer::{nibble_inserted};
use crate::commands::EditCommand;
use crate::cursor::Cursor;
use crate::editor::{
    App, KeyCode, KeyEvent, Mode, char_digit, char_byte, is_insert, is_delete, is_overwrite,
    outcome, read_or_empty, read_bytes, one_byte, digit_value, byte_of_char,
};
use crate::normal_mode::last_offset;

verus! {

/// A digit below 16 is unchanged by masking it to four bits.
proof fn lemma_small_digit(d: u8)
    requires
        d < 16,
    ensures
        d & 0x0F == d,
{
    assert(d < 16 ==> d & 0x0F == d) by (bit_vector);
}

/// The cursor one nibble further: to the low nibble, or to the next byte's high one.
pub open spec fn nibble_advanced(c: Cursor) -> Cursor {
    if c.sub_offset == 0 {
        Cursor { sub_offset: 1, ..c }
    } else {
        Cursor { offset: (c.offset + 1) as u64, sub_offset: 0, ..c }
    }
}

/// The byte at `o` of `d` with nibble `nibble` (0 high, 1 low) replaced by `dg`.
pub open spec fn with_nibble(b: u8, nibble: u8, dg: u8) -> u8 {
    if nibble == 0 {
        (dg << 4) | (b & 0x0F)
    } else {
        (b & 0xF0) | dg
    }
}

impl App {
    /// Byte `b` written over the byte at `o` and recorded; only the buffer and the
    /// history change.
    pub open spec fn byte_written(old: App, new: App, o: u64, b: u8, r: Result<(), Seq<char>>) -> bool {
        exists|c: EditCommand|
            is_overwrite(c, o, read_or_empty(old.buffer@, o, 1), seq![b]) && #[trigger] Self::applied(
                old,
                new,
                c,
                r,
            )
    }

    /// Bytes `bytes` inserted at `o` and recorded.
    pub open spec fn bytes_inserted(old: App, new: App, o: u64, bytes: Seq<u8>, r: Result<(), Seq<char>>) -> bool {
        exists|c: EditCommand| is_insert(c, o, bytes) && #[trigger] Self::applied(old, new, c, r)
    }

    /// The byte at `o` (if any) deleted and recorded.
    pub open spec fn byte_deleted(old: App, new: App, o: u64, r: Result<(), Seq<char>>) -> bool {
        exists|c: EditCommand|
            is_delete(c, o, read_or_empty(old.buffer@, o, 1)) && #[trigger] Self::applied(
                old,
                new,
                c,
                r,
            )
    }

    /// Nibble `nibble` of the byte at `o` (inside the buffer) set to `dg`, recorded as
    /// an overwrite of that byte; a nibble other than 0 or 1 is an error.
    pub open spec fn nibble_set_post(old: App, new: App, o: u64, nibble: u8, dg: u8, r: Result<(), Seq<char>>) -> bool {
        if nibble <= 1 {
            let b = old.buffer@[o as int];
            let nb = with_nibble(b, nibble, dg);
            &&& r is Ok
            &&& Self::edited(old, new, old.buffer@.update(o as int, nb))
            &&& exists|c: EditCommand|
                is_overwrite(c, o, seq![b], seq![nb]) && #[trigger] Self::recorded(old, new, c)
            &&& new == App { buffer: new.buffer, undo: new.undo, ..old }
        } else {
            r == Err::<(), Seq<char>>("nibble must be 0 or 1"@) && new == old
        }
    }

    /// A key in Insert mode: Esc leaves it, a character is typed, Backspace
    /// deletes before the cursor.
    pub open spec fn insert_post(old: App, new: App, key: KeyEvent, r: Result<(), Seq<char>>) -> bool {
        match key.code {
            KeyCode::Esc => r is Ok && new == App { mode: Mode::Normal, ..old },
            KeyCode::Char(ch) => Self::typed_post(old, new, ch, r),
            KeyCode::Backspace => Self::backspace_post(old, new, r),
            _ => r is Ok && new == old,
        }
    }

    /// Typing `ch` in Insert mode. In nibble mode a hex digit is inserted as a nibble
    /// at the cursor (a new byte past the end) and the cursor moves one nibble;
    /// another character does nothing. Otherwise the character's byte is inserted at
    /// the cursor and the cursor moves past it.
    pub open spec fn typed_post(old: App, new: App, ch: char, r: Result<(), Seq<char>>) -> bool {
        let len = old.buffer@.len();
        let o = old.cursor.offset;
        if old.nibble_mode {
            match char_digit(ch) {
                None => r is Ok && new == old,
                Some(dg) => if o >= len {
                    &&& Self::bytes_inserted(old, new, o, seq![(dg << 4) as u8], r)
                    &&& new == App {
                        buffer: new.buffer,
                        undo: new.undo,
                        cursor: if r is Ok {
                            nibble_advanced(old.cursor)
                        } else {
                            old.cursor
                        },
                        ..old
                    }
                } else {
                    &&& r is Ok
                    &&& Self::nibble_edited(
                        old,
                        new,
                        o,
                        nibble_inserted(old.buffer@, o as int, old.cursor.sub_offset, dg),
                    )
                    &&& new == App {
                        buffer: new.buffer,
                        undo: new.undo,
                        cursor: nibble_advanced(old.cursor),
                        ..old
                    }
                },
            }
        } else {
            let b = char_byte(ch);
            &&& Self::bytes_inserted(old, new, o, seq![b], r)
            &&& new == App {
                buffer: new.buffer,
                undo: new.undo,
                cursor: if r is Ok {
                    Cursor { offset: (o + 1) as u64, ..old.cursor }
                } else {
                    old.cursor
                },
                ..old
            }
        }
    }

    /// Backspace in Insert mode. In nibble mode the cursor steps back one nibble and
    /// that nibble is deleted; otherwise the byte before the cursor is deleted and
    /// the cursor goes to where it was, inside the buffer. Nothing at the start.
    pub open spec fn backspace_post(old: App, new: App, r: Result<(), Seq<char>>) -> bool {
        let o = old.cursor.offset;
        let s = old.cursor.sub_offset;
        if old.nibble_mode {
            if o > 0 || s > 0 {
                let c = if s == 0 {
                    Cursor { offset: (o - 1) as u64, sub_offset: 1, ..old.cursor }
                } else {
                    Cursor { sub_offset: 0, ..old.cursor }
                };
                Self::nibble_delete_post(App { cursor: c, ..old }, new, c.offset, c.sub_offset, r)
            } else {
                r is Ok && new == old
            }
        } else if o > 0 {
            let p = (o - 1) as u64;
            &&& Self::byte_deleted(old, new, p, r)
            &&& new == App {
                buffer: new.buffer,
                undo: new.undo,
                cursor: if r is Ok {
                    Cursor {
                        offset: if p <= last_offset(new.buffer@.len()) {
                            p
                        } else {
                            last_offset(new.buffer@.len())
                        },
                        ..old.cursor
                    }
                } else {
                    old.cursor
                },
                ..old
            }
        } else {
            r is Ok && new == old
        }
    }

    /// A key in replace-once mode: a character replaces the byte under the cursor
    /// (in nibble mode, a hex digit replaces the nibble under it), then Normal mode;
    /// any other key just returns to Normal mode.
    pub open spec fn replace_once_post(old: App, new: App, key: KeyEvent, r: Result<(), Seq<char>>) -> bool {
        let o = old.cursor.offset;
        let back = App { mode: Mode::Normal, ..old };
        match key.code {
            KeyCode::Char(ch) => if o < old.buffer@.len() {
                if old.nibble_mode {
                    match char_digit(ch) {
                        None => r is Ok && new == back,
                        Some(dg) => {
                            &&& Self::nibble_set_post(
                                old,
                                App { mode: old.mode, ..new },
                                o,
                                old.cursor.sub_offset,
                                dg,
                                r,
                            )
                            &&& new.mode == if r is Ok {
                                Mode::Normal
                            } else {
                                old.mode
                            }
                        },
                    }
                } else {
                    &&& Self::byte_written(old, new, o, char_byte(ch), r)
                    &&& new == App {
                        buffer: new.buffer,
                        undo: new.undo,
                        mode: if r is Ok {
                            Mode::Normal
                        } else {
                            old.mode
                        },
                        ..old
                    }
                }
            } else {
                r is Ok && new == back
            },
            _ => r is Ok && new == back,
        }
    }

    /// A key in Replace mode: Esc leaves it; a character replaces the byte under the
    /// cursor and moves on (in nibble mode, a hex digit replaces the nibble under it
    /// and moves one nibble); nothing past the end.
    pub open spec fn replace_post(old: App, new: App, key: KeyEvent, r: Result<(), Seq<char>>) -> bool {
        let o = old.cursor.offset;
        match key.code {
            KeyCode::Esc => r is Ok && new == App { mode: Mode::Normal, ..old },
            KeyCode::Char(ch) => if o < old.buffer@.len() {
                if old.nibble_mode {
                    match char_digit(ch) {
                        None => r is Ok && new == old,
                        Some(dg) => {
                            &&& Self::nibble_set_post(
                                old,
                                App { cursor: old.cursor, ..new },
                                o,
                                old.cursor.sub_offset,
                                dg,
                                r,
                            )
                            &&& new.cursor == if r is Ok {
                                nibble_advanced(old.cursor)
                            } else {
                                old.cursor
                            }
                        },
                    }
                } else {
                    &&& Self::byte_written(old, new, o, char_byte(ch), r)
                    &&& new == App {
                        buffer: new.buffer,
                        undo: new.undo,
                        cursor: if r is Ok {
                            Cursor { offset: (o + 1) as u64, ..old.cursor }
                        } else {
                            old.cursor
                        },
                        ..old
                    }
                }
            } else {
                r is Ok && new == old
            },
            _ => r is Ok && new == old,
        }
    }
}

/// What a recorded edit says of the buffer and the history carries over to a state
/// that differs from `mid` only in other fields.
proof fn lemma_edit_frame(old: App, mid: App, new: App, o: u64, bytes: Seq<u8>, b: u8, r: Result<(), Seq<char>>)
    requires
        mid.buffer == new.buffer,
        mid.undo == new.undo,
    ensures
        App::byte_written(old, mid, o, b, r) ==> App::byte_written(old, new, o, b, r),
        App::bytes_inserted(old, mid, o, bytes, r) ==> App::bytes_inserted(old, new, o, bytes, r),
        App::byte_deleted(old, mid, o, r) ==> App::byte_deleted(old, new, o, r),
        forall|d: Seq<u8>| #[trigger] App::nibble_edited(old, mid, o, d) ==> App::nibble_edited(old, new, o, d),
{
    if App::byte_written(old, mid, o, b, r) {
        let c = choose|c: EditCommand|
            is_overwrite(c, o, read_or_empty(old.buffer@, o, 1), seq![b]) && #[trigger] App::applied(
                old,
                mid,
                c,
                r,
            );
        assert(App::applied(old, new, c, r));
    }
    if App::bytes_inserted(old, mid, o, bytes, r) {
        let c = choose|c: EditCommand| is_insert(c, o, bytes) && #[trigger] App::applied(old, mid, c, r);
        assert(App::applied(old, new, c, r));
    }
    if App::byte_deleted(old, mid, o, r) {
        let c = choose|c: EditCommand|
            is_delete(c, o, read_or_empty(old.buffer@, o, 1)) && #[trigger] App::applied(
                old,
                mid,
                c,
                r,
            );
        assert(App::applied(old, new, c, r));
    }
    assert forall|d: Seq<u8>| #[trigger] App::nibble_edited(old, mid, o, d) implies App::nibble_edited(old, new, o, d) by {
        let c = choose|c: EditCommand|
            is_overwrite(c, o, old.buffer@.skip(o as int), d.skip(o as int))
                && #[trigger] App::recorded(old, mid, c);
        assert(App::recorded(old, new, c));
    }
}

impl App {
    /// Sets nibble `nibble` of the byte at `o` to `dg` and records the change.
    fn nibble_set(&mut self, o: u64, nibble: u8, dg: u8) -> (r: Result<(), String>)
        requires
            o < old(self).buffer@.len(),
            dg < 16,
        ensures
            Self::nibble_set_post(*old(self), *final(self), o, nibble, dg, outcome(r)),
    {
        let ghost a = *self;
        proof {
            lemma_small_digit(dg);
            a.buffer.lemma_len_fits();
        }
        let old_byte = read_bytes(&self.buffer, o, 1);
        match self.buffer.set_nibble(o, nibble, dg) {
            Ok(()) => {},
            Err(e) => {
                return Err(e);
            },
        }
        let new_byte = read_bytes(&self.buffer, o, 1);
        let ghost nb = with_nibble(a.buffer@[o as int], nibble, dg);
        assert(old_byte@ =~= seq![a.buffer@[o as int]]);
        assert(new_byte@ =~= seq![nb]);
        let cmd = EditCommand::Overwrite { offset: o, old_bytes: old_byte, new_bytes: new_byte };
        let ghost g = cmd;
        self.undo.push(cmd);
        assert(is_overwrite(g, o, seq![a.buffer@[o as int]], seq![nb]));
        assert(Self::recorded(a, *self, g));
        Ok(())
    }

    /// Inserts digit `dg` as nibble `nibble` of the byte at `o`, inside the buffer,
    /// and records the change of the tail as an overwrite.
    fn nibble_insert(&mut self, o: u64, nibble: u8, dg: u8) -> (r: Result<(), String>)
        requires
            o < old(self).buffer@.len(),
            dg < 16,
        ensures
            r is Ok,
            Self::nibble_edited(
                *old(self),
                *final(self),
                o,
                nibble_inserted(old(self).buffer@, o as int, nibble, dg),
            ),
            *final(self) == (App { buffer: final(self).buffer, undo: final(self).undo, ..*old(self) }),
    {
        let ghost a = *self;
        proof {
            lemma_small_digit(dg);
        }
        let remaining = (self.buffer.len() - o) as usize;
        let old_tail = read_bytes(&self.buffer, o, remaining);
        match self.buffer.insert_nibble(o, nibble, dg) {
            Ok(()) => {},
            Err(e) => {
                return Err(e);
            },
        }
        let new_tail = read_bytes(&self.buffer, o, remaining);
        assert(old_tail@ =~= a.buffer@.skip(o as int));
        assert(new_tail@ =~= self.buffer@.skip(o as int));
        let cmd = EditCommand::Overwrite { offset: o, old_bytes: old_tail, new_bytes: new_tail };
        let ghost g = cmd;
        self.undo.push(cmd);
        assert(is_overwrite(g, o, a.buffer@.skip(o as int), self.buffer@.skip(o as int)));
        assert(Self::recorded(a, *self, g));
        Ok(())
    }

    /// Writes byte `b` over the byte at `o` and records it.
    fn overwrite_byte(&mut self, o: u64, b: u8) -> (r: Result<(), String>)
        ensures
            Self::byte_written(*old(self), *final(self), o, b, outcome(r)),
            *final(self) == (App { buffer: final(self).buffer, undo: final(self).undo, ..*old(self) }),
    {
        let ghost a = *self;
        let old_bytes = read_bytes(&self.buffer, o, 1);
        let cmd = EditCommand::Overwrite { offset: o, old_bytes, new_bytes: one_byte(b) };
        let ghost g = cmd;
        let r = self.apply_and_record(cmd);
        assert(is_overwrite(g, o, read_or_empty(a.buffer@, o, 1), seq![b]));
        assert(Self::applied(a, *self, g, outcome(r)));
        r
    }

    /// Inserts `bytes` at `o` and records it.
    fn insert_bytes(&mut self, o: u64, bytes: Vec<u8>) -> (r: Result<(), String>)
        ensures
            Self::bytes_inserted(*old(self), *final(self), o, bytes@, outcome(r)),
            *final(self) == (App { buffer: final(self).buffer, undo: final(self).undo, ..*old(self) }),
    {
        let ghost a = *self;
        let ghost v = bytes@;
        let cmd = EditCommand::Insert { offset: o, bytes };
        let ghost g = cmd;
        let r = self.apply_and_record(cmd);
        assert(is_insert(g, o, v));
        assert(Self::applied(a, *self, g, outcome(r)));
        r
    }

    /// Deletes the byte at `o` (nothing when there is none) and records it.
    fn delete_byte(&mut self, o: u64) -> (r: Result<(), String>)
        ensures
            Self::byte_deleted(*old(self), *final(self), o, outcome(r)),
            *final(self) == (App { buffer: final(self).buffer, undo: final(self).undo, ..*old(self) }),
    {
        let ghost a = *self;
        let old_bytes = read_bytes(&self.buffer, o, 1);
        let cmd = EditCommand::Delete { offset: o, bytes: old_bytes };
        let ghost g = cmd;
        let r = self.apply_and_record(cmd);
        assert(is_delete(g, o, read_or_empty(a.buffer@, o, 1)));
        assert(Self::applied(a, *self, g, outcome(r)));
        r
    }

    /// Types `ch` in Insert mode.
    fn type_char(&mut self, ch: char) -> (r: Result<(), String>)
        ensures
            Self::typed_post(*old(self), *final(self), ch, outcome(r)),
    {
        let ghost a = *self;
        let len = self.buffer.len();
        let o = self.cursor.offset;
        if self.nibble_mode {
            let dg = match digit_value(ch) {
                Some(d) => d,
                None => {
                    return Ok(());
                },
            };
            if o >= len {
                match self.insert_bytes(o, one_byte(dg << 4)) {
                    Ok(()) => {},
                    Err(e) => {
                        return Err(e);
                    },
                }
                proof {
                    self.buffer.lemma_len_fits();
                }
            } else {
                let nibble = self.cursor.sub_offset;
                match self.nibble_insert(o, nibble, dg) {
                    Ok(()) => {},
                    Err(e) => {
                        return Err(e);
                    },
                }
            }
            let ghost mid = *self;
            if self.cursor.sub_offset == 0 {
                self.cursor.sub_offset = 1;
            } else {
                self.cursor.offset = self.cursor.offset + 1;
                self.cursor.sub_offset = 0;
            }
            proof {
                lemma_edit_frame(a, mid, *self, o, seq![(dg << 4) as u8], 0, Ok(()));
            }
            Ok(())
        } else {
            let b = byte_of_char(ch);
            match self.insert_bytes(o, one_byte(b)) {
                Ok(()) => {},
                Err(e) => {
                    return Err(e);
                },
            }
            let ghost mid = *self;
            if self.cursor.offset < self.buffer.len() {
                self.cursor.offset = self.cursor.offset + 1;
            }
            proof {
                lemma_edit_frame(a, mid, *self, o, seq![b], b, Ok(()));
            }
            Ok(())
        }
    }

    /// Backspace in Insert mode.
    fn backspace(&mut self) -> (r: Result<(), String>)
        requires
            old(self).insert_key_ok(KeyEvent { code: KeyCode::Backspace, ctrl: false }),
        ensures
            Self::backspace_post(*old(self), *final(self), outcome(r)),
    {
        if self.nibble_mode {
            if self.cursor.offset > 0 || self.cursor.sub_offset > 0 {
                if self.cursor.sub_offset == 0 {
                    self.cursor.offset = self.cursor.offset - 1;
                    self.cursor.sub_offset = 1;
                } else {
                    self.cursor.sub_offset = 0;
                }
                let o = self.cursor.offset;
                let nibble = self.cursor.sub_offset;
                self.nibble_delete(o, nibble)
            } else {
                Ok(())
            }
        } else if self.cursor.offset > 0 {
            let ghost a = *self;
            let p = self.cursor.offset - 1;
            match self.delete_byte(p) {
                Ok(()) => {},
                Err(e) => {
                    return Err(e);
                },
            }
            let ghost mid = *self;
            let n = self.buffer.len();
            let last = if n == 0 {
                0
            } else {
                n - 1
            };
            self.cursor.offset = if p <= last {
                p
            } else {
                last
            };
            proof {
                lemma_edit_frame(a, mid, *self, p, Seq::empty(), 0, Ok(()));
            }
            Ok(())
        } else {
            Ok(())
        }
    }

    /// A key in Insert mode.
    pub(crate) fn handle_insert(&mut self, key: KeyEvent) -> (r: Result<(), String>)
        requires
            old(self).insert_key_ok(key),
        ensures
            Self::insert_post(*old(self), *final(self), key, outcome(r)),
    {
        match key.code {
            KeyCode::Esc => {
                self.mode = Mode::Normal;
                Ok(())
            },
            KeyCode::Char(ch) => self.type_char(ch),
            KeyCode::Backspace => self.backspace(),
            _ => Ok(()),
        }
    }

    /// A key in replace-once mode.
    pub(crate) fn handle_replace_once(&mut self, key: KeyEvent) -> (r: Result<(), String>)
        ensures
            Self::replace_once_post(*old(self), *final(self), key, outcome(r)),
    {
        if let KeyCode::Char(ch) = key.code {
            let o = self.cursor.offset;
            if o < self.buffer.len() {
                if self.nibble_mode {
                    if let Some(dg) = digit_value(ch) {
                        let nibble = self.cursor.sub_offset;
                        match self.nibble_set(o, nibble, dg) {
                            Ok(()) => {},
                            Err(e) => {
                                return Err(e);
                            },
                        }
                    }
                } else {
                    let ghost a = *self;
                    let b = byte_of_char(ch);
                    match self.overwrite_byte(o, b) {
                        Ok(()) => {},
                        Err(e) => {
                            return Err(e);
                        },
                    }
                    let ghost mid = *self;
                    self.mode = Mode::Normal;
                    proof {
                        lemma_edit_frame(a, mid, *self, o, Seq::empty(), b, Ok(()));
                    }
                    return Ok(());
                }
            }
        }
        self.mode = Mode::Normal;
        Ok(())
    }

    /// A key in Replace mode.
    pub(crate) fn handle_replace(&mut self, key: KeyEvent) -> (r: Result<(), String>)
        ensures
            Self::replace_post(*old(self), *final(self), key, outcome(r)),
    {
        match key.code {
            KeyCode::Esc => {
                self.mode = Mode::Normal;
                Ok(())
            },
            KeyCode::Char(ch) => {
                let o = self.cursor.offset;
                if self.nibble_mode {
                    if o < self.buffer.len() {
                        if let Some(dg) = digit_value(ch) {
                            let nibble = self.cursor.sub_offset;
                            match self.nibble_set(o, nibble, dg) {
                                Ok(()) => {},
                                Err(e) => {
                                    return Err(e);
                                },
                            }
                            if self.cursor.sub_offset == 0 {
                                self.cursor.sub_offset = 1;
                            } else {
                                self.cursor.offset = self.cursor.offset + 1;
                                self.cursor.sub_offset = 0;
                            }
                        }
                    }
                } else if o < self.buffer.len() {
                    let ghost a = *self;
                    let b = byte_of_char(ch);
                    match self.overwrite_byte(o, b) {
                        Ok(()) => {},
                        Err(e) => {
                            return Err(e);
                        },
                    }
                    let ghost mid = *self;
                    self.cursor.offset = self.cursor.offset + 1;
                    proof {
                        lemma_edit_frame(a, mid, *self, o, Seq::empty(), b, Ok(()));
                    }
                }
                Ok(())
            },
            _ => Ok(()),
        }
    }
}

} // verus!
