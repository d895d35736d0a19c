//! Keys in Normal mode: motions, jumps, deletes, paste, undo and redo, and the
//! keys that enter the other modes.
use vstd::prelude::*;
use vstd::slice::slice_to_vec;

use crate::buffer::{deleted, nibble_deleted};
use crate::commands::EditCommand;
use crate::cursor::{Cursor, SelectionMode};
use crate::editor::{
    App, KeyCode, KeyEvent, Mode, DOUBLE_TAP_MS, elapsed, jumped, left_of, right_of, moved_by,
    is_delete, is_insert, is_overwrite, lit, outcome, read_or_empty, read_bytes,
    row_negatable,
};
use crate::jump_list::{push_step, back_step, forward_step};
use crate::undo::{undo_step, redo_step};

verus! {

/// The offset of the last byte of a buffer of `len` bytes (0 when it is empty).
pub open spec fn last_offset(len: nat) -> u64 {
    if len == 0 {
        0
    } else {
        (len - 1) as u64
    }
}

/// Last offset of the row of `c` that lies in a buffer of `len` bytes, as
/// `current_row_end` computes it (the cursor itself when rows or the buffer are
/// empty).
pub open spec fn row_end(c: Cursor, len: u64) -> u64 {
    if c.bytes_per_row == 0 || len == 0 {
        c.offset
    } else {
        crate::cursor::min_u64(
            ((c.offset / c.bytes_per_row) * c.bytes_per_row + c.bytes_per_row - 1) as u64,
            (len - 1) as u64,
        )
    }
}

/// `c` pulled back onto the last byte when it lies past the end of a non-empty
/// buffer of `len` bytes.
pub open spec fn clamped(c: Cursor, len: nat) -> Cursor {
    if c.offset >= len && len > 0 {
        Cursor { offset: (len - 1) as u64, ..c }
    } else {
        c
    }
}

/// The cursor after `a` (append): one nibble right in nibble mode, else one
/// byte right unless it is already past the last byte.
pub open spec fn after_cursor(c: Cursor, nibble_mode: bool, len: nat) -> Cursor {
    if nibble_mode {
        if c.sub_offset == 0 {
            Cursor { sub_offset: 1, ..c }
        } else {
            Cursor { offset: (c.offset + 1) as u64, sub_offset: 0, ..c }
        }
    } else if c.offset < len {
        Cursor { offset: (c.offset + 1) as u64, ..c }
    } else {
        c
    }
}

/// Milliseconds from `then` to `now`, zero when the clock went back.
fn elapsed_ms(now: u64, then: u64) -> (r: u64)
    ensures
        r == elapsed(now, then),
{
    if now >= then {
        now - then
    } else {
        0
    }
}

impl App {
    /// The cursor after motion key `code` (h/←, j/↓, k/↑, l/→), when it is one.
    pub open spec fn motion(a: App, code: KeyCode) -> Option<Cursor> {
        let len = a.buffer@.len() as u64;
        let c = a.cursor;
        match code {
            KeyCode::Char('h') | KeyCode::Left => Some(left_of(c, a.nibble_mode, len)),
            KeyCode::Char('j') | KeyCode::Down => Some(moved_by(c, c.bytes_per_row as i64, len)),
            KeyCode::Char('k') | KeyCode::Up => Some(
                moved_by(c, -(c.bytes_per_row as i64) as i64, len),
            ),
            KeyCode::Char('l') | KeyCode::Right => Some(right_of(c, a.nibble_mode, len)),
            _ => None,
        }
    }

    /// `new` is `old` in mode `m` with an empty command line.
    pub open spec fn entered_line_mode(old: App, new: App, m: Mode) -> bool {
        &&& new == App { mode: m, command_line: new.command_line, ..old }
        &&& new.command_line@.len() == 0
    }

    /// A key while the help view is shown: j/↓ and k/↑ scroll it, `:` opens the
    /// command line, anything else does nothing.
    pub open spec fn help_key_post(old: App, new: App, code: KeyCode) -> bool {
        match code {
            KeyCode::Char('j') | KeyCode::Down => {
                let top = if old.help_lines@.len() == 0 {
                    0
                } else {
                    old.help_lines@.len() - 1
                };
                new == App {
                    help_scroll: if old.help_scroll < top {
                        (old.help_scroll + 1) as u64
                    } else {
                        old.help_scroll
                    },
                    ..old
                }
            },
            KeyCode::Char('k') | KeyCode::Up => new == App {
                help_scroll: if old.help_scroll > 0 {
                    (old.help_scroll - 1) as u64
                } else {
                    old.help_scroll
                },
                ..old
            },
            KeyCode::Char(':') => Self::entered_line_mode(old, new, Mode::Command),
            _ => new == old,
        }
    }

    /// `gg`: a second `g` within the window records the position and jumps to the
    /// start; a first one shows `*`. Either way the press is remembered.
    pub open spec fn gg_post(old: App, new: App, now: u64) -> bool {
        let base = App { last_key: (KeyCode::Char('g'), now), ..old };
        if old.double_tap('g', now) {
            &&& new == App { cursor: jumped(old.cursor, 0), jump_list: new.jump_list, ..base }
            &&& new.jump_list@ == push_step(old.jump_list@, old.cursor.offset)
        } else {
            &&& new == App { status_message: new.status_message, ..base }
            &&& new.status_message@ == lit("*")
        }
    }

    /// `new` is `old` after the position was recorded and the cursor jumped to `pos`.
    pub open spec fn jumped_with_history(old: App, new: App, pos: u64) -> bool {
        &&& new == App { cursor: jumped(old.cursor, pos), jump_list: new.jump_list, ..old }
        &&& new.jump_list@ == push_step(old.jump_list@, old.cursor.offset)
    }

    /// `x`: deletes the nibble under the cursor (nibble mode, recorded as an
    /// overwrite of the tail) or the byte under it; nothing on an empty buffer.
    pub open spec fn x_post(old: App, new: App, r: Result<(), Seq<char>>) -> bool {
        let len = old.buffer@.len();
        let o = old.cursor.offset;
        if len == 0 {
            r is Ok && new == old
        } else if old.nibble_mode {
            Self::nibble_delete_post(old, new, o, old.cursor.sub_offset, r)
        } else {
            &&& exists|c: EditCommand|
                is_delete(c, o, read_or_empty(old.buffer@, o, 1)) && #[trigger] Self::applied(
                    old,
                    new,
                    c,
                    r,
                )
            &&& new == App { buffer: new.buffer, undo: new.undo, ..old }
        }
    }

    /// Deleting nibble `nibble` of the byte at `o`: when `o` is in the buffer the
    /// nibble goes and the change is recorded as an overwrite of the tail; otherwise
    /// the delete error and no change.
    pub open spec fn nibble_delete_post(old: App, new: App, o: u64, nibble: u8, r: Result<(), Seq<char>>) -> bool {
        if o < old.buffer@.len() {
            &&& r is Ok
            &&& Self::nibble_edited(old, new, o, nibble_deleted(old.buffer@, o as int, nibble))
            &&& new == App { buffer: new.buffer, undo: new.undo, ..old }
        } else {
            r == Err::<(), Seq<char>>("Delete offset out of bounds"@) && new == old
        }
    }

    /// `dd`: a second `d` within the window deletes the cursor's row (what of it
    /// lies in the buffer) and pulls the cursor back into the buffer. Either way the
    /// press is remembered.
    pub open spec fn dd_post(old: App, new: App, now: u64) -> bool {
        let base = App { last_key: (KeyCode::Char('d'), now), ..old };
        let rs = Self::row_start(old.cursor);
        let len = old.buffer@.len();
        let re = if rs + old.cursor.bytes_per_row <= len {
            rs + old.cursor.bytes_per_row
        } else {
            len as int
        };
        let n = re - rs;
        if old.double_tap('d', now) && n > 0 {
            let d = deleted(old.buffer@, rs as int, n);
            &&& Self::edited(old, new, d)
            &&& exists|c: EditCommand|
                is_delete(c, rs, old.buffer@.subrange(rs as int, re)) && #[trigger] Self::recorded(
                    old,
                    new,
                    c,
                )
            &&& new == App {
                buffer: new.buffer,
                undo: new.undo,
                cursor: clamped(old.cursor, d.len()),
                ..base
            }
        } else {
            new == base
        }
    }

    /// `z`: toggles nibble mode, puts the cursor on the high nibble and says so.
    pub open spec fn nibble_toggled(old: App, new: App) -> bool {
        &&& new == App {
            nibble_mode: !old.nibble_mode,
            cursor: Cursor { sub_offset: 0, ..old.cursor },
            status_message: new.status_message,
            ..old
        }
        &&& new.status_message@ == if !old.nibble_mode {
            lit("Nibble mode on")
        } else {
            lit("Nibble mode off")
        }
    }

    /// Ctrl-O: one step back in the jump list, jumping when it gives a position.
    pub open spec fn back_post(old: App, new: App) -> bool {
        let (js, p) = back_step(old.jump_list@, old.cursor.offset);
        &&& new.jump_list@ == js
        &&& new == App {
            cursor: match p {
                Some(pos) => jumped(old.cursor, pos),
                None => old.cursor,
            },
            jump_list: new.jump_list,
            ..old
        }
    }

    /// Tab: one step forward in the jump list, jumping when it gives a position.
    pub open spec fn forward_post(old: App, new: App) -> bool {
        let (js, p) = forward_step(old.jump_list@);
        &&& new.jump_list@ == js
        &&& new == App {
            cursor: match p {
                Some(pos) => jumped(old.cursor, pos),
                None => old.cursor,
            },
            jump_list: new.jump_list,
            ..old
        }
    }

    /// Undo or redo, whose effect on the history and the bytes is `step`: on success
    /// the cursor goes to the edit's offset (high nibble) and the old position is
    /// recorded; on failure the error is returned and only the history changed.
    pub open spec fn history_post(
        old: App,
        new: App,
        step: (Seq<EditCommand>, Seq<EditCommand>, Seq<u8>, Result<u64, Seq<char>>),
        r: Result<(), Seq<char>>,
    ) -> bool {
        &&& new.undo.undo_spec() == step.0
        &&& new.undo.redo_spec() == step.1
        &&& new.undo.max_depth_spec() == old.undo.max_depth_spec()
        &&& new.buffer@ == step.2
        &&& new.buffer.path_spec() == old.buffer.path_spec()
        &&& match step.3 {
            Ok(off) => {
                &&& r is Ok
                &&& new.buffer.modified_spec()
                &&& new == App {
                    buffer: new.buffer,
                    undo: new.undo,
                    cursor: Cursor { offset: off, sub_offset: 0, ..old.cursor },
                    jump_list: new.jump_list,
                    ..old
                }
                &&& new.jump_list@ == push_step(old.jump_list@, old.cursor.offset)
            },
            Err(e) => r == Err::<(), Seq<char>>(e) && new == App { undo: new.undo, ..old },
        }
    }

    /// `v`, `V`, Ctrl-V: mode `m` with a selection of kind `sm` anchored at the cursor.
    pub open spec fn visual_started(old: App, new: App, m: Mode, sm: SelectionMode) -> bool {
        new == App {
            mode: m,
            cursor: Cursor {
                selection_anchor: Some(old.cursor.offset),
                selection_sub_anchor: Some(old.cursor.sub_offset),
                selection_mode: sm,
                ..old.cursor
            },
            ..old
        }
    }

    /// `p` and `P`: the clipboard inserted at `at`, when it is not empty.
    pub open spec fn paste_post(old: App, new: App, at: u64, r: Result<(), Seq<char>>) -> bool {
        if old.clipboard@.len() == 0 {
            r is Ok && new == old
        } else {
            &&& exists|c: EditCommand|
                is_insert(c, at, old.clipboard@) && #[trigger] Self::applied(old, new, c, r)
            &&& new == App { buffer: new.buffer, undo: new.undo, ..old }
        }
    }

    /// `/` and `?`: the position is recorded and an empty query is started, searching
    /// backwards when `reverse`.
    pub open spec fn search_started(old: App, new: App, reverse: bool) -> bool {
        &&& new == App {
            jump_list: new.jump_list,
            mode: Mode::Search,
            command_line: new.command_line,
            search_reverse: reverse,
            search_index: 0,
            ..old
        }
        &&& new.command_line@.len() == 0
        &&& new.jump_list@ == push_step(old.jump_list@, old.cursor.offset)
    }

    /// `n` (`forward`) and `N`: the position is recorded and, when there are search
    /// results, the cursor goes to the next (previous) one, wrapping around; the
    /// cursor goes to the high nibble either way.
    pub open spec fn result_step_post(old: App, new: App, forward: bool) -> bool {
        let n = old.search_results@.len();
        let i = old.search_index;
        let idx: usize = if n == 0 {
            i
        } else if forward {
            ((i + 1) % (n as int)) as usize
        } else if i == 0 {
            (n - 1) as usize
        } else {
            (i - 1) as usize
        };
        let off = if n == 0 {
            old.cursor.offset
        } else {
            old.search_results@[idx as int]
        };
        &&& new == App {
            jump_list: new.jump_list,
            search_index: idx,
            cursor: Cursor { offset: off, sub_offset: 0, ..old.cursor },
            ..old
        }
        &&& new.jump_list@ == push_step(old.jump_list@, old.cursor.offset)
    }
}

impl App {
    /// A key in Normal mode: with the help view shown only the help keys count;
    /// otherwise a motion moves the cursor, Tab steps forward in the jump list and a
    /// character does what `normal_char_post` says.
    pub open spec fn normal_post(old: App, new: App, key: KeyEvent, now: u64, r: Result<(), Seq<char>>) -> bool {
        if old.show_help {
            r is Ok && Self::help_key_post(old, new, key.code)
        } else {
            match Self::motion(old, key.code) {
                Some(c) => r is Ok && Self::only_cursor(old, new, c),
                None => match key.code {
                    KeyCode::Tab => r is Ok && Self::forward_post(old, new),
                    KeyCode::Char(ch) => Self::normal_char_post(old, new, ch, key.ctrl, now, r),
                    _ => r is Ok && new == old,
                },
            }
        }
    }

    /// A character key in Normal mode (not a motion), with Control held when `ctrl`.
    pub open spec fn normal_char_post(
        old: App,
        new: App,
        ch: char,
        ctrl: bool,
        now: u64,
        r: Result<(), Seq<char>>,
    ) -> bool {
        let c = old.cursor;
        let len = old.buffer@.len();
        let page = 8 * (c.bytes_per_row as i64);
        if ch == 'd' && ctrl {
            r is Ok && Self::only_cursor(old, new, moved_by(c, page as i64, len as u64))
        } else if ch == 'u' && ctrl {
            r is Ok && Self::only_cursor(old, new, moved_by(c, (-page) as i64, len as u64))
        } else if ch == 'g' {
            r is Ok && Self::gg_post(old, new, now)
        } else if ch == 'G' {
            r is Ok && Self::jumped_with_history(old, new, last_offset(len))
        } else if ch == 'x' {
            Self::x_post(old, new, r)
        } else if ch == 'd' {
            r is Ok && Self::dd_post(old, new, now)
        } else if ch == 'a' {
            r is Ok && new == App {
                cursor: after_cursor(c, old.nibble_mode, len),
                mode: Mode::Insert,
                ..old
            }
        } else if ch == 'i' {
            r is Ok && new == App { mode: Mode::Insert, ..old }
        } else if ch == 'z' {
            r is Ok && Self::nibble_toggled(old, new)
        } else if ch == '0' {
            r is Ok && Self::only_cursor(old, new, jumped(c, Self::row_start(c)))
        } else if ch == '$' {
            r is Ok && Self::only_cursor(old, new, jumped(c, row_end(c, len as u64)))
        } else if ch == 'o' && ctrl {
            r is Ok && Self::back_post(old, new)
        } else if ch == 'r' && ctrl {
            Self::history_post(
                old,
                new,
                redo_step(old.undo.undo_spec(), old.undo.redo_spec(), old.buffer@),
                r,
            )
        } else if ch == 'r' {
            r is Ok && new == App { mode: Mode::ReplaceOnce, ..old }
        } else if ch == 'R' {
            r is Ok && new == App { mode: Mode::Replace, ..old }
        } else if ch == 'v' && ctrl {
            r is Ok && Self::visual_started(old, new, Mode::VisualBlock, SelectionMode::Block)
        } else if ch == 'v' {
            r is Ok && Self::visual_started(old, new, Mode::VisualChar, SelectionMode::Char)
        } else if ch == 'V' {
            r is Ok && Self::visual_started(old, new, Mode::VisualLine, SelectionMode::Line)
        } else if ch == 'y' {
            r is Ok && Self::yank_post(old, new)
        } else if ch == 'p' {
            Self::paste_post(old, new, (c.offset + 1) as u64, r)
        } else if ch == 'P' {
            Self::paste_post(old, new, c.offset, r)
        } else if ch == 'u' {
            Self::history_post(
                old,
                new,
                undo_step(old.undo.undo_spec(), old.undo.redo_spec(), old.buffer@),
                r,
            )
        } else if ch == '/' {
            r is Ok && Self::search_started(old, new, false)
        } else if ch == '?' {
            r is Ok && Self::search_started(old, new, true)
        } else if ch == 'n' {
            r is Ok && Self::result_step_post(old, new, true)
        } else if ch == 'N' {
            r is Ok && Self::result_step_post(old, new, false)
        } else if ch == ':' {
            r is Ok && Self::entered_line_mode(old, new, Mode::Command)
        } else {
            r is Ok && new == old
        }
    }

    /// Whether this key press repeats `c` within the double-tap window.
    fn is_double_tap(&self, c: char, now: u64) -> (b: bool)
        ensures
            b == self.double_tap(c, now),
    {
        self.last_key.0 == KeyCode::Char(c) && elapsed_ms(now, self.last_key.1) < DOUBLE_TAP_MS
    }

    /// Carries out motion key `code`, when it is one.
    pub(crate) fn motion_key(&mut self, code: KeyCode) -> (moved: bool)
        requires
            code == KeyCode::Up || code == KeyCode::Char('k') ==> row_negatable(
                old(self).cursor.bytes_per_row,
            ),
        ensures
            match Self::motion(*old(self), code) {
                Some(c) => moved && Self::only_cursor(*old(self), *final(self), c),
                None => !moved && *final(self) == *old(self),
            },
    {
        match code {
            KeyCode::Char('h') | KeyCode::Left => {
                self.step_left();
                true
            },
            KeyCode::Char('j') | KeyCode::Down => {
                self.step_down();
                true
            },
            KeyCode::Char('k') | KeyCode::Up => {
                self.step_up();
                true
            },
            KeyCode::Char('l') | KeyCode::Right => {
                self.step_right();
                true
            },
            _ => false,
        }
    }

    /// Switches to mode `m` with an empty command line.
    pub(crate) fn enter_line_mode(&mut self, m: Mode)
        ensures
            Self::entered_line_mode(*old(self), *final(self), m),
    {
        self.mode = m;
        self.command_line.clear();
    }

    /// A key while the help view is shown.
    fn help_key(&mut self, code: KeyCode)
        ensures
            Self::help_key_post(*old(self), *final(self), code),
    {
        match code {
            KeyCode::Char('j') | KeyCode::Down => {
                let n = self.help_lines.len();
                let top: u64 = if n == 0 {
                    0
                } else {
                    (n - 1) as u64
                };
                if self.help_scroll < top {
                    self.help_scroll = self.help_scroll + 1;
                }
            },
            KeyCode::Char('k') | KeyCode::Up => {
                if self.help_scroll > 0 {
                    self.help_scroll = self.help_scroll - 1;
                }
            },
            KeyCode::Char(':') => {
                self.enter_line_mode(Mode::Command);
            },
            _ => {},
        }
    }

    /// `g`.
    fn key_g(&mut self, now: u64)
        ensures
            Self::gg_post(*old(self), *final(self), now),
    {
        if self.is_double_tap('g', now) {
            self.jump_with_history(0);
        } else {
            self.set_status("*");
        }
        self.last_key = (KeyCode::Char('g'), now);
    }

    /// `G`: records the position and goes to the last byte.
    fn key_big_g(&mut self)
        ensures
            Self::jumped_with_history(*old(self), *final(self), last_offset(old(self).buffer@.len())),
    {
        let len = self.buffer.len();
        let max = if len == 0 {
            0
        } else {
            len - 1
        };
        self.jump_with_history(max);
    }

    /// Deletes nibble `nibble` of the byte at `offset` and records the change of the
    /// tail as an overwrite.
    pub(crate) fn nibble_delete(&mut self, offset: u64, nibble: u8) -> (r: Result<(), String>)
        requires
            offset <= old(self).buffer@.len(),
        ensures
            Self::nibble_delete_post(*old(self), *final(self), offset, nibble, outcome(r)),
    {
        let ghost a = *self;
        let remaining = (self.buffer.len() - offset) as usize;
        let old_tail = read_bytes(&self.buffer, offset, remaining);
        match self.buffer.delete_nibble(offset, nibble) {
            Ok(()) => {},
            Err(e) => {
                return Err(e);
            },
        }
        let new_tail = read_bytes(&self.buffer, offset, remaining);
        assert(old_tail@ =~= a.buffer@.skip(offset as int));
        assert(new_tail@ =~= self.buffer@.skip(offset as int));
        let cmd = EditCommand::Overwrite { offset, old_bytes: old_tail, new_bytes: new_tail };
        let ghost g = cmd;
        self.undo.push(cmd);
        assert(is_overwrite(g, offset, a.buffer@.skip(offset as int), self.buffer@.skip(offset as int)));
        assert(Self::recorded(a, *self, g));
        Ok(())
    }

    /// `x`.
    fn key_x(&mut self) -> (r: Result<(), String>)
        requires
            old(self).nibble_mode && old(self).buffer@.len() > 0 ==> old(self).cursor.offset
                <= old(self).buffer@.len(),
        ensures
            Self::x_post(*old(self), *final(self), outcome(r)),
    {
        let ghost a = *self;
        let len = self.buffer.len();
        if len == 0 {
            return Ok(());
        }
        let offset = self.cursor.offset;
        if self.nibble_mode {
            let nibble = self.cursor.sub_offset;
            match self.nibble_delete(offset, nibble) {
                Ok(()) => {},
                Err(e) => {
                    return Err(e);
                },
            }
            let n = self.buffer.len();
            if self.cursor.offset >= n && n > 0 {
                self.cursor.offset = n - 1;
            }
            Ok(())
        } else {
            let old_bytes = read_bytes(&self.buffer, offset, 1);
            let cmd = EditCommand::Delete { offset, bytes: old_bytes };
            let ghost g = cmd;
            let r = self.apply_and_record(cmd);
            assert(is_delete(g, offset, read_or_empty(a.buffer@, offset, 1)));
            assert(Self::applied(a, *self, g, outcome(r)));
            r
        }
    }

    /// `d`.
    fn key_d(&mut self, now: u64) -> (r: Result<(), String>)
        requires
            old(self).double_tap('d', now) ==> Self::row_start(old(self).cursor)
                + old(self).cursor.bytes_per_row <= u64::MAX && Self::row_start(old(self).cursor)
                <= old(self).buffer@.len(),
        ensures
            r is Ok,
            Self::dd_post(*old(self), *final(self), now),
    {
        let ghost a = *self;
        if self.is_double_tap('d', now) {
            let row_start = self.cursor.current_row_start();
            let blen = self.buffer.len();
            let bpr = self.cursor.bytes_per_row;
            let row_end = if row_start + bpr <= blen {
                row_start + bpr
            } else {
                blen
            };
            let n = (row_end - row_start) as usize;
            if n > 0 {
                let bytes = read_bytes(&self.buffer, row_start, n);
                let cmd = EditCommand::Delete { offset: row_start, bytes };
                let ghost g = cmd;
                match self.apply_and_record(cmd) {
                    Ok(()) => {},
                    Err(e) => {
                        return Err(e);
                    },
                }
                let nl = self.buffer.len();
                if self.cursor.offset >= nl && nl > 0 {
                    self.cursor.offset = nl - 1;
                }
                assert(is_delete(g, row_start, a.buffer@.subrange(row_start as int, row_end as int)));
                assert(Self::recorded(a, App { last_key: (KeyCode::Char('d'), now), ..*self }, g));
            }
        }
        self.last_key = (KeyCode::Char('d'), now);
        Ok(())
    }

    /// `a`: moves past the cursor and enters Insert mode.
    fn key_a(&mut self)
        requires
            old(self).nibble_mode && old(self).cursor.sub_offset != 0 ==> old(self).cursor.offset
                < u64::MAX,
        ensures
            *final(self) == (App {
                cursor: after_cursor(old(self).cursor, old(self).nibble_mode, old(self).buffer@.len()),
                mode: Mode::Insert,
                ..*old(self)
            }),
    {
        if self.nibble_mode {
            if self.cursor.sub_offset == 0 {
                self.cursor.sub_offset = 1;
            } else {
                self.cursor.offset = self.cursor.offset + 1;
                self.cursor.sub_offset = 0;
            }
        } else if self.cursor.offset < self.buffer.len() {
            self.cursor.offset = self.cursor.offset + 1;
        }
        self.mode = Mode::Insert;
    }

    /// `z`.
    fn key_z(&mut self)
        ensures
            Self::nibble_toggled(*old(self), *final(self)),
    {
        self.nibble_mode = !self.nibble_mode;
        self.cursor.sub_offset = 0;
        if self.nibble_mode {
            self.set_status("Nibble mode on");
        } else {
            self.set_status("Nibble mode off");
        }
    }

    /// Ctrl-O.
    fn key_back(&mut self)
        ensures
            Self::back_post(*old(self), *final(self)),
    {
        let cur = self.cursor.offset;
        match self.jump_list.back(cur) {
            Some(pos) => self.jump_to(pos),
            None => {},
        }
    }

    /// Tab.
    pub(crate) fn key_forward(&mut self)
        ensures
            Self::forward_post(*old(self), *final(self)),
    {
        match self.jump_list.forward() {
            Some(pos) => self.jump_to(pos),
            None => {},
        }
    }

    /// `u`.
    fn key_undo(&mut self) -> (r: Result<(), String>)
        ensures
            Self::history_post(
                *old(self),
                *final(self),
                undo_step(old(self).undo.undo_spec(), old(self).undo.redo_spec(), old(self).buffer@),
                outcome(r),
            ),
    {
        let pre = self.cursor.offset;
        let offset = match self.undo.undo(&mut self.buffer) {
            Ok(o) => o,
            Err(e) => {
                return Err(e);
            },
        };
        self.cursor.offset = offset;
        self.cursor.sub_offset = 0;
        self.jump_list.push(pre);
        Ok(())
    }

    /// Ctrl-R.
    fn key_redo(&mut self) -> (r: Result<(), String>)
        ensures
            Self::history_post(
                *old(self),
                *final(self),
                redo_step(old(self).undo.undo_spec(), old(self).undo.redo_spec(), old(self).buffer@),
                outcome(r),
            ),
    {
        let pre = self.cursor.offset;
        let offset = match self.undo.redo(&mut self.buffer) {
            Ok(o) => o,
            Err(e) => {
                return Err(e);
            },
        };
        self.cursor.offset = offset;
        self.cursor.sub_offset = 0;
        self.jump_list.push(pre);
        Ok(())
    }

    /// `v`, `V`, Ctrl-V.
    fn key_visual(&mut self, m: Mode, sm: SelectionMode)
        ensures
            Self::visual_started(*old(self), *final(self), m, sm),
    {
        self.mode = m;
        self.cursor.start_selection(sm);
    }

    /// `p` and `P`: inserts the clipboard at `at`.
    fn paste_at(&mut self, at: u64) -> (r: Result<(), String>)
        ensures
            Self::paste_post(*old(self), *final(self), at, outcome(r)),
    {
        let ghost a = *self;
        if self.clipboard.len() == 0 {
            return Ok(());
        }
        let bytes = slice_to_vec(self.clipboard.as_slice());
        let cmd = EditCommand::Insert { offset: at, bytes };
        let ghost g = cmd;
        let r = self.apply_and_record(cmd);
        assert(is_insert(g, at, a.clipboard@));
        assert(Self::applied(a, *self, g, outcome(r)));
        r
    }

    /// `/` and `?`.
    fn start_search(&mut self, reverse: bool)
        ensures
            Self::search_started(*old(self), *final(self), reverse),
    {
        let cur = self.cursor.offset;
        self.jump_list.push(cur);
        self.mode = Mode::Search;
        self.command_line.clear();
        self.search_reverse = reverse;
        self.search_index = 0;
    }

    /// `n` and `N`.
    fn go_to_result(&mut self, forward: bool)
        requires
            forward && old(self).search_results@.len() > 0 ==> old(self).search_index < usize::MAX,
            !forward && old(self).search_results@.len() > 0 && old(self).search_index != 0
                ==> old(self).search_index - 1 < old(self).search_results@.len(),
        ensures
            Self::result_step_post(*old(self), *final(self), forward),
    {
        let cur = self.cursor.offset;
        self.jump_list.push(cur);
        let n = self.search_results.len();
        if n > 0 {
            if forward {
                self.search_index = (self.search_index + 1) % n;
            } else if self.search_index == 0 {
                self.search_index = n - 1;
            } else {
                self.search_index = self.search_index - 1;
            }
            self.cursor.offset = self.search_results[self.search_index];
        }
        self.cursor.sub_offset = 0;
    }
}

impl App {
    /// A character key in Normal mode that is not a motion.
    fn normal_char(&mut self, ch: char, ctrl: bool, now: u64) -> (r: Result<(), String>)
        requires
            old(self).normal_key_ok(KeyEvent { code: KeyCode::Char(ch), ctrl }, now),
        ensures
            Self::normal_char_post(*old(self), *final(self), ch, ctrl, now, outcome(r)),
    {
        if ch == 'd' && ctrl {
            let page = 8 * (self.cursor.bytes_per_row as i64);
            self.step_by(page);
            Ok(())
        } else if ch == 'u' && ctrl {
            let page = -(8 * (self.cursor.bytes_per_row as i64));
            self.step_by(page);
            Ok(())
        } else if ch == 'g' {
            self.key_g(now);
            Ok(())
        } else if ch == 'G' {
            self.key_big_g();
            Ok(())
        } else if ch == 'x' {
            self.key_x()
        } else if ch == 'd' {
            self.key_d(now)
        } else if ch == 'a' {
            self.key_a();
            Ok(())
        } else if ch == 'i' {
            self.mode = Mode::Insert;
            Ok(())
        } else if ch == 'z' {
            self.key_z();
            Ok(())
        } else if ch == '0' {
            let rs = self.cursor.current_row_start();
            self.jump_to(rs);
            Ok(())
        } else if ch == '$' {
            let b = self.cursor.bytes_per_row;
            let o = self.cursor.offset;
            if b > 0 {
                assert((o / b) * b <= o) by (nonlinear_arith)
                    requires
                        b > 0,
                ;
            }
            let re = self.cursor.current_row_end(self.buffer.len());
            self.jump_to(re);
            Ok(())
        } else if ch == 'o' && ctrl {
            self.key_back();
            Ok(())
        } else if ch == 'r' && ctrl {
            self.key_redo()
        } else if ch == 'r' {
            self.mode = Mode::ReplaceOnce;
            Ok(())
        } else if ch == 'R' {
            self.mode = Mode::Replace;
            Ok(())
        } else if ch == 'v' && ctrl {
            self.key_visual(Mode::VisualBlock, SelectionMode::Block);
            Ok(())
        } else if ch == 'v' {
            self.key_visual(Mode::VisualChar, SelectionMode::Char);
            Ok(())
        } else if ch == 'V' {
            self.key_visual(Mode::VisualLine, SelectionMode::Line);
            Ok(())
        } else if ch == 'y' {
            self.yank_selection();
            Ok(())
        } else if ch == 'p' {
            if self.clipboard.len() == 0 {
                return Ok(());
            }
            let at = self.cursor.offset + 1;
            self.paste_at(at)
        } else if ch == 'P' {
            let at = self.cursor.offset;
            self.paste_at(at)
        } else if ch == 'u' {
            self.key_undo()
        } else if ch == '/' {
            self.start_search(false);
            Ok(())
        } else if ch == '?' {
            self.start_search(true);
            Ok(())
        } else if ch == 'n' {
            self.go_to_result(true);
            Ok(())
        } else if ch == 'N' {
            self.go_to_result(false);
            Ok(())
        } else if ch == ':' {
            self.enter_line_mode(Mode::Command);
            Ok(())
        } else {
            Ok(())
        }
    }

    /// A key in Normal mode.
    pub(crate) fn handle_normal(&mut self, key: KeyEvent, now: u64) -> (r: Result<(), String>)
        requires
            old(self).show_help || old(self).normal_key_ok(key, now),
        ensures
            Self::normal_post(*old(self), *final(self), key, now, outcome(r)),
    {
        if self.show_help {
            self.help_key(key.code);
            return Ok(());
        }
        if self.motion_key(key.code) {
            return Ok(());
        }
        match key.code {
            KeyCode::Tab => {
                self.key_forward();
                Ok(())
            },
            KeyCode::Char(ch) => self.normal_char(ch, key.ctrl, now),
            _ => Ok(()),
        }
    }
}

} // verus!
