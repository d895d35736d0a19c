//! The editor: modes, key handling and commands, as a state machine over the
//! buffer, cursor, history, search results and messages. The terminal, the
//! clock and the files stay outside: a key comes in with the time it was pressed,
//! and saving or opening a file comes out as an `Effect` for the caller to carry
//! out and report back.
use vstd::prelude::*;
use vstd::slice::slice_to_vec;
use vstd::string::StringExecFns;

use crate::buffer::{ByteBuffer, read_error};
use crate::commands::EditCommand;
use crate::config::Config;
use crate::cursor::{Cursor, SelectionMode};
use crate::file_io::FileIo;
use crate::jump_list::JumpList;
use crate::text::{joined_str, decimal_string};
use crate::undo::UndoManager;

verus! {

/// Editing mode.
#[derive(Debug, Clone, Copy, PartialEq, Eq, Structural)]
pub enum Mode {
    Normal,
    Insert,
    Replace,
    ReplaceOnce,
    VisualChar,
    VisualLine,
    VisualBlock,
    Command,
    Search,
}

/// A key as the editor sees it.
#[derive(Debug, Clone, Copy, PartialEq, Eq, Structural)]
pub enum KeyCode {
    Char(char),
    Left,
    Right,
    Up,
    Down,
    Esc,
    Enter,
    Backspace,
    Tab,
    /// No key (the state before the first key press).
    Null,
    /// Any other key.
    Other,
}

/// A key press: the key and whether Control was held.
#[derive(Debug, Clone, Copy, PartialEq, Eq, Structural)]
pub struct KeyEvent {
    pub code: KeyCode,
    pub ctrl: bool,
}

/// What the caller must do after a key: nothing, write the buffer to its file
/// (then quit, or report the file it was saved to), or open a file.
#[derive(Debug, PartialEq, Eq)]
pub enum Effect {
    Nothing,
    Save { then_quit: bool, saved_to: Option<Vec<char>> },
    Open(Vec<char>),
}

/// An open file shown as a tab.
pub struct TabInfo {
    pub name: String,
    pub path: Option<String>,
    pub modified: bool,
}

/// Window within which a second `g` or `d` completes `gg` or `dd`.
pub const DOUBLE_TAP_MS: u64 = 500;

/// The whole editor state.
pub struct App {
    pub buffer: ByteBuffer,
    pub cursor: Cursor,
    pub undo: UndoManager,
    pub config: Config,
    pub mode: Mode,
    pub search_results: Vec<u64>,
    pub search_index: usize,
    pub search_reverse: bool,
    pub command_line: Vec<char>,
    pub clipboard: Vec<u8>,
    pub tabs: Vec<TabInfo>,
    pub active_tab: usize,
    pub quit_requested: bool,
    pub status_message: String,
    pub show_help: bool,
    pub help_scroll: u64,
    pub help_lines: Vec<String>,
    pub nibble_mode: bool,
    pub jump_list: JumpList,
    /// The last `g` or `d` pressed, with the time it was pressed (milliseconds).
    pub last_key: (KeyCode, u64),
}

/// Bytes `read` returns, or none when it fails.
pub open spec fn read_or_empty(d: Seq<u8>, offset: u64, len: int) -> Seq<u8> {
    if read_error(d.len() as int, offset, len) is None {
        d.subrange(offset as int, offset + len)
    } else {
        Seq::empty()
    }
}

/// The bytes `read` returns, or none when it fails.
pub(crate) fn read_bytes(buf: &ByteBuffer, offset: u64, len: usize) -> (r: Vec<u8>)
    ensures
        r@ == read_or_empty(buf@, offset, len as int),
{
    match buf.read(offset, len) {
        Ok(s) => slice_to_vec(s),
        Err(_) => Vec::new(),
    }
}

/// A one-byte vector.
pub(crate) fn one_byte(b: u8) -> (v: Vec<u8>)
    ensures
        v@ == seq![b],
{
    let mut v = Vec::new();
    v.push(b);
    v
}

/// The value of a hex digit character.
pub open spec fn char_digit(c: char) -> Option<u8> {
    if '0' <= c <= '9' {
        Some((c as u32 - 48) as u8)
    } else if 'a' <= c <= 'f' {
        Some((c as u32 - 87) as u8)
    } else if 'A' <= c <= 'F' {
        Some((c as u32 - 55) as u8)
    } else {
        None
    }
}

/// Exec counterpart of `char_digit`.
pub(crate) fn digit_value(c: char) -> (r: Option<u8>)
    ensures
        r == char_digit(c),
{
    if '0' <= c && c <= '9' {
        Some((c as u32 - 48) as u8)
    } else if 'a' <= c && c <= 'f' {
        Some((c as u32 - 87) as u8)
    } else if 'A' <= c && c <= 'F' {
        Some((c as u32 - 55) as u8)
    } else {
        None
    }
}

/// The byte a typed character writes: the low eight bits of its code.
pub open spec fn char_byte(c: char) -> u8 {
    (c as u32) as u8
}

/// The byte a typed character writes.
pub(crate) fn byte_of_char(c: char) -> (b: u8)
    ensures
        b == char_byte(c),
{
    (c as u32) as u8
}

/// The row width whose signed value can be negated.
pub open spec fn row_negatable(bpr: u64) -> bool {
    bpr as i64 != i64::MIN
}

/// A page (eight rows) of `bpr` bytes fits in an `i64`, negated too.
pub open spec fn page_fits(bpr: u64) -> bool {
    i64::MIN < 8 * (bpr as i64) <= i64::MAX
}

/// Spec of `now - then` for milliseconds, zero when the clock went back.
pub open spec fn elapsed(now: u64, then: u64) -> int {
    if now >= then {
        now - then
    } else {
        0
    }
}

/// Characters of a string literal.
pub open spec fn lit(s: &str) -> Seq<char> {
    s@
}

impl App {
    /// `key` is the second press of `c` within the double-tap window.
    pub open spec fn double_tap(&self, c: char, now: u64) -> bool {
        self.last_key.0 == KeyCode::Char(c) && elapsed(now, self.last_key.1) < DOUBLE_TAP_MS
    }

    /// First offset of the selection of `c` in a buffer of `len` bytes and its
    /// last offset, when there is a selection.
    pub open spec fn selection_span(c: Cursor, len: u64) -> Option<(u64, u64)> {
        match (c.selection_start_spec(), c.selection_end_spec(len)) {
            (Some(s), Some(e)) => Some((s, e)),
            _ => None,
        }
    }

    /// The selection of `c` can be measured: its end is computable, not before its
    /// start, and its length fits in a `u64`.
    pub open spec fn span_ok(c: Cursor, len: u64) -> bool {
        &&& c.line_end_fits()
        &&& (Self::selection_span(c, len) matches Some((s, e)) ==> s <= e && e - s < u64::MAX)
    }

    /// Nibble index of the anchor and of the cursor fit in a `u64`, and the first
    /// selected nibble lies within the buffer.
    pub open spec fn nibble_span_ok(&self) -> bool {
        let a = self.cursor.anchor_or_offset();
        let an = a * 2 + self.cursor.sub_anchor_or_zero();
        let cn = self.cursor.offset * 2 + self.cursor.sub_offset;
        &&& an <= u64::MAX
        &&& cn <= u64::MAX
        &&& (if an <= cn { an } else { cn }) / 2 <= self.buffer@.len()
        &&& (if an >= cn { an } else { cn }) - (if an <= cn { an } else { cn }) < usize::MAX
    }

    /// First offset of the cursor's row, as `current_row_start` computes it.
    pub open spec fn row_start(c: Cursor) -> u64 {
        if c.bytes_per_row == 0 {
            c.offset
        } else {
            ((c.offset / c.bytes_per_row) * c.bytes_per_row) as u64
        }
    }

    /// The key can be handled in Normal mode without an arithmetic fault.
    pub open spec fn normal_key_ok(&self, key: KeyEvent, now: u64) -> bool {
        let len = self.buffer@.len();
        let c = self.cursor;
        match key.code {
            KeyCode::Up | KeyCode::Char('k') => row_negatable(c.bytes_per_row),
            KeyCode::Char('d') => if key.ctrl {
                page_fits(c.bytes_per_row)
            } else {
                self.double_tap('d', now) ==> Self::row_start(c) + c.bytes_per_row <= u64::MAX
                    && Self::row_start(c) <= len
            },
            KeyCode::Char('u') => key.ctrl ==> page_fits(c.bytes_per_row),
            KeyCode::Char('x') => len > 0 && self.nibble_mode ==> c.offset <= len,
            KeyCode::Char('a') => self.nibble_mode && c.sub_offset != 0 ==> c.offset < u64::MAX,
            KeyCode::Char('$') => c.bytes_per_row > 0 && len > 0 ==> Self::row_start(c)
                + c.bytes_per_row <= u64::MAX,
            KeyCode::Char('y') => Self::span_ok(c, len as u64),
            KeyCode::Char('p') => self.clipboard@.len() > 0 ==> c.offset < u64::MAX,
            KeyCode::Char('n') => self.search_results@.len() > 0 ==> self.search_index
                < usize::MAX,
            KeyCode::Char('N') => self.search_results@.len() > 0 && self.search_index != 0
                ==> self.search_index - 1 < self.search_results@.len(),
            _ => true,
        }
    }

    /// The key can be handled in Insert mode without an arithmetic fault.
    pub open spec fn insert_key_ok(&self, key: KeyEvent) -> bool {
        key.code == KeyCode::Backspace && self.nibble_mode && (self.cursor.offset > 0
            || self.cursor.sub_offset > 0) ==> (if self.cursor.sub_offset == 0 {
            self.cursor.offset - 1
        } else {
            self.cursor.offset as int
        }) <= self.buffer@.len()
    }

    /// The key can be handled in a Visual mode without an arithmetic fault.
    pub open spec fn visual_key_ok(&self, key: KeyEvent) -> bool {
        match key.code {
            KeyCode::Up | KeyCode::Char('k') => row_negatable(self.cursor.bytes_per_row),
            KeyCode::Char('d') | KeyCode::Char('x') => if self.mode == Mode::VisualBlock {
                self.block_ok()
            } else if self.nibble_mode {
                self.nibble_span_ok()
            } else {
                Self::span_ok(self.cursor, self.buffer@.len() as u64)
            },
            KeyCode::Char('y') => if self.mode == Mode::VisualBlock {
                self.block_ok()
            } else {
                Self::span_ok(self.cursor, self.buffer@.len() as u64)
            },
            _ => true,
        }
    }

    /// The key can be handled without an arithmetic fault or a pattern that cannot
    /// be read.
    pub open spec fn key_ok(&self, key: KeyEvent, now: u64) -> bool {
        match self.mode {
            Mode::Normal => self.show_help || self.normal_key_ok(key, now),
            Mode::Insert => self.insert_key_ok(key),
            Mode::VisualChar | Mode::VisualLine | Mode::VisualBlock => self.visual_key_ok(key),
            Mode::Command => key.code == KeyCode::Enter ==> crate::command_mode::command_readable(
                crate::text::trimmed(self.command_line@),
            ),
            Mode::Search => key.code == KeyCode::Enter ==> pattern_readable(self.command_line@),
            _ => true,
        }
    }
}

/// The text `s` can be read as a hex pattern.
pub open spec fn pattern_readable(s: Seq<char>) -> bool {
    !crate::search::hex_pattern_splits_char(vstd::utf8::encode_utf8(s))
}

/// The value of an exec result, with the error as characters.
pub open spec fn outcome<T>(r: Result<T, String>) -> Result<T, Seq<char>> {
    match r {
        Ok(v) => Ok(v),
        Err(e) => Err(e@),
    }
}

/// `c` with the cursor at `pos`, on the high nibble, without a selection.
pub open spec fn jumped(c: Cursor, pos: u64) -> Cursor {
    Cursor {
        offset: pos,
        sub_offset: 0,
        selection_anchor: None,
        selection_sub_anchor: None,
        selection_mode: SelectionMode::Off,
        bytes_per_row: c.bytes_per_row,
    }
}

/// `c` records an overwrite of `old` by `new` at `offset`.
pub open spec fn is_overwrite(c: EditCommand, offset: u64, old: Seq<u8>, new: Seq<u8>) -> bool {
    c matches EditCommand::Overwrite { offset: o, old_bytes, new_bytes } && o == offset
        && old_bytes@ == old && new_bytes@ == new
}

/// `c` records an insertion of `bytes` at `offset`.
pub open spec fn is_insert(c: EditCommand, offset: u64, bytes: Seq<u8>) -> bool {
    c matches EditCommand::Insert { offset: o, bytes: b } && o == offset && b@ == bytes
}

/// `c` records a deletion of `bytes` at `offset`.
pub open spec fn is_delete(c: EditCommand, offset: u64, bytes: Seq<u8>) -> bool {
    c matches EditCommand::Delete { offset: o, bytes: b } && o == offset && b@ == bytes
}

/// The cursor after one step left: one nibble in nibble mode, else one byte.
pub open spec fn left_of(c: Cursor, nibble_mode: bool, len: u64) -> Cursor {
    if nibble_mode && c.sub_offset == 1 {
        Cursor { sub_offset: 0, ..c }
    } else if nibble_mode {
        Cursor { offset: crate::cursor::moved(c.offset, -1i64, len), sub_offset: 1, ..c }
    } else {
        Cursor { offset: crate::cursor::moved(c.offset, -1i64, len), ..c }
    }
}

/// The cursor after one step right: one nibble in nibble mode, else one byte.
pub open spec fn right_of(c: Cursor, nibble_mode: bool, len: u64) -> Cursor {
    if nibble_mode && c.sub_offset == 0 {
        Cursor { sub_offset: 1, ..c }
    } else if nibble_mode {
        Cursor { offset: crate::cursor::moved(c.offset, 1i64, len), sub_offset: 0, ..c }
    } else {
        Cursor { offset: crate::cursor::moved(c.offset, 1i64, len), ..c }
    }
}

/// The cursor moved by `delta` bytes.
pub open spec fn moved_by(c: Cursor, delta: i64, len: u64) -> Cursor {
    Cursor { offset: crate::cursor::moved(c.offset, delta, len), ..c }
}

impl App {
    /// The tab index a newly opened file takes: the active tab when it exists, else
    /// a new tab at the end.
    pub open spec fn open_slot(a: App) -> int {
        if a.active_tab < a.tabs@.len() {
            a.active_tab as int
        } else {
            a.tabs@.len() as int
        }
    }

    /// `new` is `old` after the file at `path`, called `name`, holding `data` was
    /// loaded: a buffer for the file, a fresh cursor and history, Normal mode, nibble
    /// mode off, an empty jump list, a message naming the file and its encoding, and
    /// the tab for the file in the active slot.
    pub open spec fn opened(old: App, new: App, path: Seq<char>, name: Seq<char>, data: Seq<u8>) -> bool {
        let k = Self::open_slot(old);
        &&& new.buffer@ == data
        &&& new.buffer.path_spec() == Some(path)
        &&& !new.buffer.modified_spec()
        &&& new.cursor == (Cursor {
            offset: 0,
            sub_offset: 0,
            selection_anchor: None,
            selection_sub_anchor: None,
            selection_mode: SelectionMode::Off,
            bytes_per_row: old.config.bytes_per_row,
        })
        &&& new.undo.undo_spec().len() == 0
        &&& new.undo.redo_spec().len() == 0
        &&& new.undo.max_depth_spec() == old.config.max_undo_depth
        &&& new.mode == Mode::Normal
        &&& !new.nibble_mode
        &&& new.jump_list@ == (crate::jump_list::JumpState {
            entries: Seq::empty(),
            index: 0,
            max_size: old.jump_list@.max_size,
            saved_target: None,
        })
        &&& new.status_message@ == lit("Opened ") + name + lit(" (") + crate::file_io::encoding_name(
            crate::file_io::header(data),
        ) + lit(")")
        &&& new.tabs@.len() == if k < old.tabs@.len() {
            old.tabs@.len() as int
        } else {
            old.tabs@.len() + 1int
        }
        &&& new.tabs@[k].name@ == name
        &&& new.tabs@[k].path matches Some(p) && p@ == path
        &&& !new.tabs@[k].modified
        &&& forall|j: int| 0 <= j < new.tabs@.len() && j != k ==> new.tabs@[j] == old.tabs@[j]
        &&& new == (App {
            buffer: new.buffer,
            cursor: new.cursor,
            undo: new.undo,
            mode: new.mode,
            nibble_mode: new.nibble_mode,
            jump_list: new.jump_list,
            status_message: new.status_message,
            tabs: new.tabs,
            ..old
        })
    }

    /// `new` differs from `old` only by having the cursor `c`.
    pub open spec fn only_cursor(old: App, new: App, c: Cursor) -> bool {
        new == App { cursor: c, ..old }
    }

    /// `new` holds `old`'s history with edit `c` recorded on top.
    pub open spec fn recorded(old: App, new: App, c: EditCommand) -> bool {
        &&& new.undo.undo_spec() == crate::undo::push_step(
            old.undo.undo_spec(),
            old.undo.max_depth_spec(),
            c,
        )
        &&& new.undo.redo_spec() == Seq::<EditCommand>::empty()
        &&& new.undo.max_depth_spec() == old.undo.max_depth_spec()
    }

    /// `new`'s buffer holds `d`, marked modified, for the same file as `old`'s.
    pub open spec fn edited(old: App, new: App, d: Seq<u8>) -> bool {
        &&& new.buffer@ == d
        &&& new.buffer.modified_spec()
        &&& new.buffer.path_spec() == old.buffer.path_spec()
    }

    /// Applying edit `c` and recording it: on success the buffer is edited and `c`
    /// recorded (and nothing else changes but the fields `new` lets differ through
    /// `frame`); on failure nothing changes and the error is returned.
    pub open spec fn applied(old: App, new: App, c: EditCommand, r: Result<(), Seq<char>>) -> bool {
        match r {
            Ok(()) => {
                &&& c.apply_spec(old.buffer@) is Ok
                &&& Self::edited(old, new, c.apply_spec(old.buffer@)->Ok_0)
                &&& Self::recorded(old, new, c)
            },
            Err(e) => c.apply_spec(old.buffer@) == Err::<Seq<u8>, Seq<char>>(e) && new.buffer
                == old.buffer && new.undo == old.undo,
        }
    }

    /// `new` is `old` with the buffer and history changed by a nibble edit of the
    /// bytes from `offset` on, which became `d`, recorded as an overwrite of the old
    /// tail by the new one.
    pub open spec fn nibble_edited(old: App, new: App, offset: u64, d: Seq<u8>) -> bool {
        &&& Self::edited(old, new, d)
        &&& exists|c: EditCommand|
            is_overwrite(c, offset, old.buffer@.skip(offset as int), d.skip(offset as int))
                && #[trigger] Self::recorded(old, new, c)
    }
}
impl App {
    /// A fresh editor with settings `config`, created at time `now` (milliseconds).
    pub fn new(config: Config, now: u64) -> (app: Self)
        ensures
            app.buffer@ == Seq::<u8>::empty(),
            !app.buffer.modified_spec(),
            app.buffer.path_spec() is None,
            app.cursor.offset == 0,
            app.cursor.sub_offset == 0,
            app.cursor.selection_anchor is None,
            app.cursor.selection_sub_anchor is None,
            app.cursor.selection_mode == SelectionMode::Off,
            app.cursor.bytes_per_row == config.bytes_per_row,
            app.undo.undo_spec().len() == 0,
            app.undo.redo_spec().len() == 0,
            app.undo.max_depth_spec() == config.max_undo_depth,
            app.config == config,
            app.mode == Mode::Normal,
            app.search_results@.len() == 0,
            app.search_index == 0,
            !app.search_reverse,
            app.command_line@.len() == 0,
            app.clipboard@.len() == 0,
            app.tabs@.len() == 0,
            app.active_tab == 0,
            !app.quit_requested,
            app.status_message@.len() == 0,
            !app.show_help,
            app.help_scroll == 0,
            app.help_lines@.len() == 0,
            !app.nibble_mode,
            app.jump_list@.entries.len() == 0,
            app.jump_list@.index == 0,
            app.jump_list@.max_size == 100,
            app.jump_list@.saved_target is None,
            app.last_key == (KeyCode::Null, now),
    {
        let empty: [u8; 0] = [];
        App {
            buffer: ByteBuffer::new(&empty),
            cursor: Cursor::new(config.bytes_per_row),
            undo: UndoManager::new(config.max_undo_depth),
            config,
            mode: Mode::Normal,
            search_results: Vec::new(),
            search_index: 0,
            search_reverse: false,
            command_line: Vec::new(),
            clipboard: Vec::new(),
            tabs: Vec::new(),
            active_tab: 0,
            quit_requested: false,
            status_message: String::new(),
            show_help: false,
            help_scroll: 0,
            help_lines: Vec::new(),
            nibble_mode: false,
            jump_list: JumpList::new(100),
            last_key: (KeyCode::Null, now),
        }
    }

    /// Sets the message shown in the status line.
    pub(crate) fn set_status(&mut self, msg: &str)
        ensures
            *final(self) == (App { status_message: final(self).status_message, ..*old(self) }),
            final(self).status_message@ == msg@,
    {
        self.status_message = String::from_str(msg);
    }

    /// Shows `e` as an error in the status line (as `Error: e`).
    pub fn report_error(&mut self, e: &str)
        ensures
            *final(self) == (App { status_message: final(self).status_message, ..*old(self) }),
            final(self).status_message@ == lit("Error: ") + e@,
    {
        self.status_message = joined_str("Error: ", e);
    }

    /// Loads the file at `path`, called `name`, whose contents are `data`, into the
    /// current tab: a fresh cursor and history in Normal mode, and a message naming
    /// the file and its encoding.
    pub fn open_file(&mut self, path: String, name: String, data: Vec<u8>)
        ensures
            Self::opened(*old(self), *final(self), path@, name@, data@),
    {
        let (buf, encoding) = FileIo::open(path.clone(), data);
        self.buffer = buf;
        self.cursor = Cursor::new(self.config.bytes_per_row);
        self.undo = UndoManager::new(self.config.max_undo_depth);
        self.mode = Mode::Normal;
        self.nibble_mode = false;
        self.jump_list.clear();
        let mut msg = joined_str("Opened ", name.as_str());
        msg.append(" (");
        msg.append(encoding);
        msg.append(")");
        self.status_message = msg;
        let tab = TabInfo { name, path: Some(path), modified: false };
        if self.active_tab < self.tabs.len() {
            self.tabs.set(self.active_tab, tab);
        } else {
            self.tabs.push(tab);
        }
    }

    /// Moves one byte (one nibble in nibble mode) to the left.
    pub(crate) fn step_left(&mut self)
        ensures
            Self::only_cursor(
                *old(self),
                *final(self),
                left_of(old(self).cursor, old(self).nibble_mode, old(self).buffer@.len() as u64),
            ),
    {
        let len = self.buffer.len();
        if self.nibble_mode {
            if self.cursor.sub_offset == 1 {
                self.cursor.sub_offset = 0;
            } else {
                self.cursor.move_by(-1, len);
                self.cursor.sub_offset = 1;
            }
        } else {
            self.cursor.move_by(-1, len);
        }
    }

    /// Moves one byte (one nibble in nibble mode) to the right.
    pub(crate) fn step_right(&mut self)
        ensures
            Self::only_cursor(
                *old(self),
                *final(self),
                right_of(old(self).cursor, old(self).nibble_mode, old(self).buffer@.len() as u64),
            ),
    {
        let len = self.buffer.len();
        if self.nibble_mode {
            if self.cursor.sub_offset == 0 {
                self.cursor.sub_offset = 1;
            } else {
                self.cursor.move_by(1, len);
                self.cursor.sub_offset = 0;
            }
        } else {
            self.cursor.move_by(1, len);
        }
    }

    /// Moves one row down.
    pub(crate) fn step_down(&mut self)
        ensures
            Self::only_cursor(
                *old(self),
                *final(self),
                moved_by(
                    old(self).cursor,
                    old(self).cursor.bytes_per_row as i64,
                    old(self).buffer@.len() as u64,
                ),
            ),
    {
        let len = self.buffer.len();
        self.cursor.move_down(len);
    }

    /// Moves one row up.
    pub(crate) fn step_up(&mut self)
        requires
            row_negatable(old(self).cursor.bytes_per_row),
        ensures
            Self::only_cursor(
                *old(self),
                *final(self),
                moved_by(
                    old(self).cursor,
                    -(old(self).cursor.bytes_per_row as i64) as i64,
                    old(self).buffer@.len() as u64,
                ),
            ),
    {
        let len = self.buffer.len();
        self.cursor.move_up(len);
    }

    /// Moves by `delta` bytes.
    pub(crate) fn step_by(&mut self, delta: i64)
        ensures
            Self::only_cursor(
                *old(self),
                *final(self),
                moved_by(old(self).cursor, delta, old(self).buffer@.len() as u64),
            ),
    {
        let len = self.buffer.len();
        self.cursor.move_by(delta, len);
    }

    /// Applies an edit to the buffer and records it.
    pub(crate) fn apply_and_record(&mut self, cmd: EditCommand) -> (r: Result<(), String>)
        ensures
            Self::applied(*old(self), *final(self), cmd, outcome(r)),
            *final(self) == (App { buffer: final(self).buffer, undo: final(self).undo, ..*old(self) }),
    {
        match cmd.apply(&mut self.buffer) {
            Ok(()) => {},
            Err(e) => return Err(e),
        }
        self.undo.push(cmd);
        Ok(())
    }

    /// Moves the cursor to `pos`, dropping the selection.
    pub(crate) fn jump_to(&mut self, pos: u64)
        ensures
            Self::only_cursor(*old(self), *final(self), jumped(old(self).cursor, pos)),
    {
        self.cursor.offset = pos;
        self.cursor.sub_offset = 0;
        self.cursor.clear_selection();
    }

    /// Records the cursor position in the jump list, then moves to `pos`.
    pub(crate) fn jump_with_history(&mut self, pos: u64)
        ensures
            *final(self) == (App {
                cursor: jumped(old(self).cursor, pos),
                jump_list: final(self).jump_list,
                ..*old(self)
            }),
            final(self).jump_list@ == crate::jump_list::push_step(
                old(self).jump_list@,
                old(self).cursor.offset,
            ),
    {
        self.jump_list.push(self.cursor.offset);
        self.jump_to(pos);
    }

    /// The first and last offsets of the selection, when there is one.
    pub(crate) fn selection_bounds(&self) -> (r: Option<(u64, u64)>)
        requires
            self.cursor.line_end_fits(),
        ensures
            r == Self::selection_span(self.cursor, self.buffer@.len() as u64),
    {
        let len = self.buffer.len();
        match (self.cursor.selection_start(), self.cursor.selection_end(len)) {
            (Some(s), Some(e)) => Some((s, e)),
            _ => None,
        }
    }

    /// `c` without a selection.
    pub open spec fn unselected(c: Cursor) -> Cursor {
        Cursor {
            selection_anchor: None,
            selection_sub_anchor: None,
            selection_mode: SelectionMode::Off,
            ..c
        }
    }

    /// The clipboard and message after the selection of `old` is copied: when there
    /// is a selection whose bytes can be read they become the clipboard and the
    /// message tells how many; otherwise both stay.
    pub open spec fn copied(old: App, new: App) -> bool {
        match Self::selection_span(old.cursor, old.buffer@.len() as u64) {
            Some((s, e)) if read_error(old.buffer@.len() as int, s, (e - s + 1) as usize as int)
                is None => {
                let n = (e - s + 1) as usize;
                &&& new.clipboard@ == old.buffer@.subrange(s as int, s + n)
                &&& new.status_message@ == lit("Yanked ") + crate::text::decimal(n as nat) + lit(
                    " bytes",
                )
            },
            _ => new.clipboard == old.clipboard && new.status_message == old.status_message,
        }
    }

    /// `y` in Normal mode: the selection is copied and dropped; nothing else changes.
    pub open spec fn yank_post(old: App, new: App) -> bool {
        &&& Self::copied(old, new)
        &&& new == App {
            cursor: if Self::selection_span(old.cursor, old.buffer@.len() as u64) is Some {
                Self::unselected(old.cursor)
            } else {
                old.cursor
            },
            clipboard: new.clipboard,
            status_message: new.status_message,
            ..old
        }
    }

    /// Copies the selected bytes to the clipboard (when they can be read).
    pub(crate) fn yank_selection(&mut self)
        requires
            Self::span_ok(old(self).cursor, old(self).buffer@.len() as u64),
        ensures
            Self::yank_post(*old(self), *final(self)),
    {
        if let Some((start, end)) = self.selection_bounds() {
            let len = (end - start + 1) as usize;
            if let Ok(data) = self.buffer.read(start, len) {
                self.clipboard = slice_to_vec(data);
                let count = decimal_string(self.clipboard.len() as u64);
                let mut msg = joined_str("Yanked ", count.as_str());
                msg.append(" bytes");
                self.status_message = msg;
            }
            self.cursor.clear_selection();
        }
    }
}

/// The result of a handler that asks nothing of the caller, as a unit result with
/// the error as characters.
pub open spec fn unit_of(r: Result<Effect, String>) -> Result<(), Seq<char>> {
    match r {
        Ok(_) => Ok(()),
        Err(e) => Err(e@),
    }
}

impl App {
    /// What handling `key`, pressed at time `now`, does in each mode.
    pub open spec fn key_post(old: App, new: App, key: KeyEvent, now: u64, r: Result<Effect, String>) -> bool {
        let quiet = r is Ok ==> r == Ok::<Effect, String>(Effect::Nothing);
        match old.mode {
            Mode::Normal => quiet && Self::normal_post(old, new, key, now, unit_of(r)),
            Mode::Insert => quiet && Self::insert_post(old, new, key, unit_of(r)),
            Mode::Replace => quiet && Self::replace_post(old, new, key, unit_of(r)),
            Mode::ReplaceOnce => quiet && Self::replace_once_post(old, new, key, unit_of(r)),
            Mode::VisualChar | Mode::VisualLine | Mode::VisualBlock => quiet && Self::visual_post(
                old,
                new,
                key,
                unit_of(r),
            ),
            Mode::Command => Self::command_key_post(old, new, key, r),
            Mode::Search => r == Ok::<Effect, String>(Effect::Nothing) && Self::search_post(
                old,
                new,
                key,
            ),
        }
    }

    /// Handles `key`, pressed at time `now` (milliseconds), in the current mode. The
    /// result says what the caller must do (save or open a file), or is the error
    /// the key ran into.
    pub fn handle_key(&mut self, key: KeyEvent, now: u64) -> (r: Result<Effect, String>)
        requires
            old(self).key_ok(key, now),
        ensures
            Self::key_post(*old(self), *final(self), key, now, r),
    {
        let r = match self.mode {
            Mode::Normal => self.handle_normal(key, now),
            Mode::Insert => self.handle_insert(key),
            Mode::Replace => self.handle_replace(key),
            Mode::ReplaceOnce => self.handle_replace_once(key),
            Mode::VisualChar | Mode::VisualLine | Mode::VisualBlock => self.handle_visual(key),
            Mode::Command => {
                return self.handle_command(key);
            },
            Mode::Search => {
                self.handle_search(key);
                return Ok(Effect::Nothing);
            },
        };
        match r {
            Ok(()) => Ok(Effect::Nothing),
            Err(e) => Err(e),
        }
    }
}

} // verus!
