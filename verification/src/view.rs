//! The text the screen shows: the hex rows with their cursor and selection
//! marks, the status line, the command line and the tab labels. Colours and
//! layout are left to the caller; each piece of text comes with what it marks.
use vstd::prelude::*;
use vstd::string::StringExecFns;

use crate::cursor::{Cursor, SelectionMode, column, row_of};
use crate::editor::{App, Mode, TabInfo, lit};
use crate::key_limits::line_end_fits_now;
use crate::nibble::lemma_nibble_facts;
use crate::text::{decimal, decimal_string, digit_char, digit_of, hex_padded, hex_string, string_of};

verus! {

/// What a piece of a hex row shows.
#[derive(Debug, Clone, Copy, PartialEq, Eq, Structural)]
pub enum CellKind {
    /// Ordinary text.
    Plain,
    /// The row's offset.
    Label,
    /// The cursor in the hex columns.
    Cursor,
    /// The cursor in the text column.
    TextCursor,
    /// A selected byte.
    Selected,
}

/// A piece of a hex row: its text and what it shows.
pub struct Cell {
    pub text: String,
    pub kind: CellKind,
}

/// The text and kind of each cell.
pub open spec fn cells_view(v: Seq<Cell>) -> Seq<(Seq<char>, CellKind)> {
    v.map_values(|c: Cell| (c.text@, c.kind))
}

/// The character the text column shows for byte `b`: itself when it is printable
/// ASCII (space included), else `.`.
pub open spec fn shown_char(b: u8) -> char {
    if 0x20 <= b <= 0x7E {
        b as char
    } else {
        '.'
    }
}

/// The name of mode `m` in the status line.
pub open spec fn mode_name(m: Mode) -> Seq<char> {
    match m {
        Mode::Normal => lit("NORMAL"),
        Mode::Insert => lit("INSERT"),
        Mode::Replace => lit("REPLACE"),
        Mode::ReplaceOnce => lit("REPLACE"),
        Mode::VisualChar => lit("VISUAL"),
        Mode::VisualLine => lit("VISUAL LINE"),
        Mode::VisualBlock => lit("VISUAL BLOCK"),
        Mode::Command => lit("COMMAND"),
        Mode::Search => lit("SEARCH"),
    }
}

/// The name of mode `m` in the status line.
pub fn mode_label(m: Mode) -> (s: &'static str)
    ensures
        s@ == mode_name(m),
{
    match m {
        Mode::Normal => "NORMAL",
        Mode::Insert => "INSERT",
        Mode::Replace => "REPLACE",
        Mode::ReplaceOnce => "REPLACE",
        Mode::VisualChar => "VISUAL",
        Mode::VisualLine => "VISUAL LINE",
        Mode::VisualBlock => "VISUAL BLOCK",
        Mode::Command => "COMMAND",
        Mode::Search => "SEARCH",
    }
}

/// The label of a tab: its name, ` *` when modified, between spaces.
pub open spec fn tab_text(name: Seq<char>, modified: bool) -> Seq<char> {
    lit(" ") + name + (if modified {
        lit(" *")
    } else {
        Seq::empty()
    }) + lit(" ")
}

/// The label of `tab` in the tab bar.
pub fn tab_label(tab: &TabInfo) -> (s: String)
    ensures
        s@ == tab_text(tab.name@, tab.modified),
{
    let mut s = String::from_str(" ");
    s.append(tab.name.as_str());
    if tab.modified {
        s.append(" *");
    }
    s.append(" ");
    s
}

/// A byte's cells: `b` in two hex digits and a space.
fn byte_text(b: u8) -> (s: String)
    ensures
        s@ == hex_padded(b as nat, 2) + lit(" "),
{
    let mut s = hex_string(b as u64, 2);
    s.append(" ");
    s
}

/// A one-character string.
fn char_text(c: char) -> (s: String)
    ensures
        s@ == seq![c],
{
    let v: [char; 1] = [c];
    string_of(&v)
}

fn shown(b: u8) -> (c: char)
    ensures
        c == shown_char(b),
{
    if 0x20 <= b && b <= 0x7E {
        b as char
    } else {
        '.'
    }
}

impl App {
    /// Row of the cursor (0 when rows are empty).
    pub open spec fn cursor_row_spec(&self) -> u64 {
        row_of(self.cursor.bytes_per_row, self.cursor.offset)
    }

    /// First row shown in a view `height` rows tall: the cursor's row is kept in
    /// the middle where it can be.
    pub open spec fn first_row_spec(&self, height: u16) -> u64 {
        let r = self.cursor_row_spec();
        let half = height / 2;
        if r >= half {
            (r - half) as u64
        } else {
            0
        }
    }

    /// Whether byte `off` is shown selected (in a nibble-mode block, by the column
    /// of its high nibble).
    pub open spec fn byte_selected(&self, off: u64) -> bool {
        self.cursor.in_selection_spec(off, self.buffer@.len() as u64, self.nibble_mode, 0)
    }

    /// The cells of column `col` in the hex part of the row starting at `ro`: a gap
    /// before every eighth column, then the byte (blank past the end). Under the
    /// cursor in nibble mode each digit is its own cell, the one under the cursor
    /// marked.
    pub open spec fn hex_col_cells(&self, ro: u64, col: nat) -> Seq<(Seq<char>, CellKind)> {
        let off = (ro + col) as u64;
        let gap = if col > 0 && col % 8 == 0 {
            seq![(lit(" "), CellKind::Plain)]
        } else {
            Seq::empty()
        };
        gap + if off >= self.buffer@.len() {
            seq![(lit("   "), CellKind::Plain)]
        } else {
            let b = self.buffer@[off as int];
            if off == self.cursor.offset && self.nibble_mode {
                let first = self.cursor.sub_offset == 0;
                seq![
                    (seq![digit_char((b >> 4) as int)], if first { CellKind::Cursor } else { CellKind::Plain }),
                    (seq![digit_char((b & 0x0F) as int)], if first { CellKind::Plain } else { CellKind::Cursor }),
                    (lit(" "), CellKind::Plain),
                ]
            } else {
                seq![
                    (
                        hex_padded(b as nat, 2) + lit(" "),
                        if off == self.cursor.offset {
                            CellKind::Cursor
                        } else if self.byte_selected(off) {
                            CellKind::Selected
                        } else {
                            CellKind::Plain
                        },
                    ),
                ]
            }
        }
    }

    /// The cells of the first `n` columns of the hex part of the row at `ro`.
    pub open spec fn hex_cells(&self, ro: u64, n: nat) -> Seq<(Seq<char>, CellKind)>
        decreases n,
    {
        if n == 0 {
            Seq::empty()
        } else {
            self.hex_cells(ro, (n - 1) as nat) + self.hex_col_cells(ro, (n - 1) as nat)
        }
    }

    /// The cell of column `col` in the text part of the row at `ro`.
    pub open spec fn text_col_cell(&self, ro: u64, col: nat) -> (Seq<char>, CellKind) {
        let off = (ro + col) as u64;
        if off >= self.buffer@.len() {
            (lit(" "), CellKind::Plain)
        } else {
            (
                seq![shown_char(self.buffer@[off as int])],
                if off == self.cursor.offset {
                    CellKind::TextCursor
                } else if self.byte_selected(off) {
                    CellKind::Selected
                } else {
                    CellKind::Plain
                },
            )
        }
    }

    /// The cells of the first `n` columns of the text part of the row at `ro`.
    pub open spec fn text_cells(&self, ro: u64, n: nat) -> Seq<(Seq<char>, CellKind)>
        decreases n,
    {
        if n == 0 {
            Seq::empty()
        } else {
            self.text_cells(ro, (n - 1) as nat).push(self.text_col_cell(ro, (n - 1) as nat))
        }
    }

    /// The cells of row `row`: none past the end of the buffer, else its offset in
    /// eight hex digits, the hex part, a space and the text part.
    pub open spec fn row_cells(&self, row: u64) -> Option<Seq<(Seq<char>, CellKind)>> {
        let bpr = self.cursor.bytes_per_row;
        let ro = (row * bpr) as u64;
        if ro >= self.buffer@.len() {
            None
        } else {
            Some(
                seq![(hex_padded(ro as nat, 8) + lit("  "), CellKind::Label)] + self.hex_cells(
                    ro,
                    bpr as nat,
                ) + seq![(lit(" "), CellKind::Plain)] + self.text_cells(ro, bpr as nat),
            )
        }
    }

    /// The selection and cursor can be measured and shown without overflow.
    pub open spec fn view_ok(&self) -> bool {
        let c = self.cursor;
        let (t, b, l, r) = c.block_bounds_spec(self.nibble_mode);
        &&& c.line_end_fits()
        &&& c.selection_mode == SelectionMode::Block ==> {
            &&& c.block_fits(self.nibble_mode)
            &&& 2 * c.bytes_per_row <= u64::MAX + 1
            &&& (b - t + 1) * (r - l + 1) <= u64::MAX
        }
        &&& c.selection_mode != SelectionMode::Block ==> (Self::selection_span(
            c,
            self.buffer@.len() as u64,
        ) matches Some((s, e)) ==> s <= e && e - s < u64::MAX)
        &&& c.offset + 2 <= u64::MAX
        &&& self.search_results@.len() > 0 ==> self.search_index < usize::MAX
    }

    /// Row `row` of the view can be laid out without overflow.
    pub open spec fn row_ok(&self, row: u64) -> bool {
        row * self.cursor.bytes_per_row + self.cursor.bytes_per_row <= u64::MAX
    }

    /// The file name in the status line.
    pub open spec fn file_name_text(&self) -> Seq<char> {
        if self.active_tab < self.tabs@.len() {
            self.tabs@[self.active_tab as int].name@
        } else {
            lit("[No File]")
        }
    }

    /// The left part of the status line: mode, nibble flag, file name, modified
    /// flag and cursor offset.
    pub open spec fn status_left_text(&self) -> Seq<char> {
        lit(" ") + mode_name(self.mode) + (if self.nibble_mode {
            lit(" NIBBLE")
        } else {
            Seq::empty()
        }) + lit(" ") + self.file_name_text() + lit(" ") + (if self.buffer.modified_spec() {
            lit(" [+]")
        } else {
            Seq::empty()
        }) + lit(" ") + lit("0x") + hex_padded(self.cursor.offset as nat, 8) + lit("  ")
    }

    /// The size of the selection in the status line: the bytes (nibble columns in
    /// nibble mode) of a block, else the bytes from first to last.
    pub open spec fn selection_text(&self) -> Seq<char> {
        let c = self.cursor;
        if c.selection_mode == SelectionMode::Block {
            let (t, b, l, r) = c.block_bounds_spec(self.nibble_mode);
            lit(" Sel:") + decimal(((b - t + 1) * (r - l + 1)) as nat)
        } else {
            match Self::selection_span(c, self.buffer@.len() as u64) {
                Some((s, e)) => lit(" Sel:") + decimal((e - s + 1) as nat),
                None => Seq::empty(),
            }
        }
    }

    /// The two bytes at the cursor read as a 16-bit number both ways, when there
    /// are two.
    pub open spec fn endian_text(&self) -> Seq<char> {
        let o = self.cursor.offset;
        let d = self.buffer@;
        if o + 2 <= d.len() {
            let b0 = d[o as int];
            let b1 = d[o + 1];
            lit(" u16 LE:0x") + hex_padded((b0 + 256 * b1) as nat, 4) + lit(" BE:0x") + hex_padded(
                (256 * b0 + b1) as nat,
                4,
            )
        } else {
            Seq::empty()
        }
    }

    /// Which result of how many, as the command line shows it.
    pub open spec fn result_count_text(&self) -> Seq<char> {
        decimal((self.search_index + 1) as nat) + lit("/") + decimal(self.search_results@.len())
    }

    /// The command line: the command being typed, the query being typed (with the
    /// result count when there are results), or the result count alone. The flag
    /// says that the text is shown dimmed (the result count alone).
    pub open spec fn command_bar_text(&self) -> (Seq<char>, bool) {
        let has = self.search_results@.len() > 0;
        match self.mode {
            Mode::Command => (lit(":") + self.command_line@, false),
            Mode::Search => {
                let prompt = if self.search_reverse {
                    lit("?")
                } else {
                    lit("/")
                };
                if has {
                    (
                        prompt + self.command_line@ + lit("  (") + self.result_count_text() + lit(
                            ")",
                        ),
                        false,
                    )
                } else {
                    (prompt + self.command_line@, false)
                }
            },
            _ => if has {
                (lit("(") + self.result_count_text() + lit(")"), true)
            } else {
                (Seq::empty(), false)
            },
        }
    }
}

/// Appends a cell.
fn push_cell(cells: &mut Vec<Cell>, text: String, kind: CellKind)
    ensures
        cells_view(final(cells)@) == cells_view(old(cells)@).push((text@, kind)),
{
    let ghost t = text@;
    cells.push(Cell { text, kind });
    assert(cells_view(cells@) =~= cells_view(old(cells)@).push((t, kind)));
}

impl App {
    /// Row of the cursor.
    pub fn cursor_row(&self) -> (r: u64)
        ensures
            r == self.cursor_row_spec(),
    {
        if self.cursor.bytes_per_row == 0 {
            0
        } else {
            self.cursor.offset / self.cursor.bytes_per_row
        }
    }

    /// First row shown in a view `height` rows tall.
    pub fn first_row(&self, height: u16) -> (r: u64)
        ensures
            r == self.first_row_spec(height),
    {
        let cur = self.cursor_row();
        let half = (height / 2) as u64;
        if cur >= half {
            cur - half
        } else {
            0
        }
    }

    /// Whether byte `off` is selected.
    fn is_byte_selected(&self, off: u64) -> (b: bool)
        requires
            self.view_ok(),
        ensures
            b == self.byte_selected(off),
    {
        let len = self.buffer.len();
        let bpr = self.cursor.bytes_per_row;
        if self.cursor.selection_mode == SelectionMode::Block {
            assert(off % bpr < bpr) by (nonlinear_arith)
                requires
                    bpr > 0,
            ;
        }
        self.cursor.in_selection(off, len, self.nibble_mode, 0)
    }

    /// Appends the cells of column `col` of the hex part of the row at `ro`.
    fn push_hex_col(&self, cells: &mut Vec<Cell>, ro: u64, col: u64)
        requires
            self.view_ok(),
            ro + col <= u64::MAX,
        ensures
            cells_view(final(cells)@) == cells_view(old(cells)@) + self.hex_col_cells(ro, col as nat),
    {
        let ghost start = cells_view(cells@);
        let off = ro + col;
        if col > 0 && col % 8 == 0 {
            push_cell(cells, String::from_str(" "), CellKind::Plain);
        }
        let ghost after_gap = cells_view(cells@);
        assert(after_gap == start + (if col > 0 && col % 8 == 0 {
            seq![(lit(" "), CellKind::Plain)]
        } else {
            Seq::empty()
        }));
        if off >= self.buffer.len() {
            push_cell(cells, String::from_str("   "), CellKind::Plain);
            assert(cells_view(cells@) =~= start + self.hex_col_cells(ro, col as nat));
            return;
        }
        let b = self.buffer.as_slice()[off as usize];
        if off == self.cursor.offset && self.nibble_mode {
            proof {
                lemma_nibble_facts(b, b, 0);
            }
            let first = self.cursor.sub_offset == 0;
            let hi = char_text(digit_of((b >> 4) as u64));
            let lo = char_text(digit_of((b & 0x0F) as u64));
            push_cell(cells, hi, if first { CellKind::Cursor } else { CellKind::Plain });
            push_cell(cells, lo, if first { CellKind::Plain } else { CellKind::Cursor });
            push_cell(cells, String::from_str(" "), CellKind::Plain);
        } else {
            let kind = if off == self.cursor.offset {
                CellKind::Cursor
            } else if self.is_byte_selected(off) {
                CellKind::Selected
            } else {
                CellKind::Plain
            };
            push_cell(cells, byte_text(b), kind);
        }
        assert(cells_view(cells@) =~= start + self.hex_col_cells(ro, col as nat));
    }

    /// Appends the cell of column `col` of the text part of the row at `ro`.
    fn push_text_col(&self, cells: &mut Vec<Cell>, ro: u64, col: u64)
        requires
            self.view_ok(),
            ro + col <= u64::MAX,
        ensures
            cells_view(final(cells)@) == cells_view(old(cells)@).push(self.text_col_cell(ro, col as nat)),
    {
        let off = ro + col;
        if off >= self.buffer.len() {
            push_cell(cells, String::from_str(" "), CellKind::Plain);
            return;
        }
        let b = self.buffer.as_slice()[off as usize];
        let kind = if off == self.cursor.offset {
            CellKind::TextCursor
        } else if self.is_byte_selected(off) {
            CellKind::Selected
        } else {
            CellKind::Plain
        };
        push_cell(cells, char_text(shown(b)), kind);
    }

    /// The cells of row `row`, or none past the end of the buffer.
    pub fn hex_row(&self, row: u64) -> (r: Option<Vec<Cell>>)
        requires
            self.view_ok(),
            self.row_ok(row),
        ensures
            match r {
                Some(v) => self.row_cells(row) == Some(cells_view(v@)),
                None => self.row_cells(row) is None,
            },
    {
        let bpr = self.cursor.bytes_per_row;
        assert(row * bpr <= row * bpr + bpr);
        let ro = row * bpr;
        if ro >= self.buffer.len() {
            return None;
        }
        let mut cells: Vec<Cell> = Vec::new();
        let mut label = hex_string(ro, 8);
        label.append("  ");
        push_cell(&mut cells, label, CellKind::Label);
        let ghost head = cells_view(cells@);
        assert(head =~= seq![(hex_padded(ro as nat, 8) + lit("  "), CellKind::Label)]);
        let mut col: u64 = 0;
        while col < bpr
            invariant
                col <= bpr,
                ro + bpr <= u64::MAX,
                self.view_ok(),
                cells_view(cells@) == head + self.hex_cells(ro, col as nat),
            decreases bpr - col,
        {
            self.push_hex_col(&mut cells, ro, col);
            col = col + 1;
            assert(cells_view(cells@) =~= head + self.hex_cells(ro, col as nat));
        }
        push_cell(&mut cells, String::from_str(" "), CellKind::Plain);
        let ghost mid = cells_view(cells@);
        assert(mid =~= head + self.hex_cells(ro, bpr as nat) + seq![(lit(" "), CellKind::Plain)]);
        col = 0;
        while col < bpr
            invariant
                col <= bpr,
                ro + bpr <= u64::MAX,
                self.view_ok(),
                cells_view(cells@) == mid + self.text_cells(ro, col as nat),
            decreases bpr - col,
        {
            self.push_text_col(&mut cells, ro, col);
            col = col + 1;
            assert(cells_view(cells@) =~= mid + self.text_cells(ro, col as nat));
        }
        Some(cells)
    }
}

impl App {
    /// The left part of the status line.
    pub fn status_left(&self) -> (s: String)
        ensures
            s@ == self.status_left_text(),
    {
        let mut s = String::from_str(" ");
        s.append(mode_label(self.mode));
        if self.nibble_mode {
            s.append(" NIBBLE");
        }
        s.append(" ");
        if self.active_tab < self.tabs.len() {
            s.append(self.tabs[self.active_tab].name.as_str());
        } else {
            s.append("[No File]");
        }
        s.append(" ");
        if self.buffer.is_modified() {
            s.append(" [+]");
        }
        s.append(" ");
        s.append("0x");
        s.append(hex_string(self.cursor.offset, 8).as_str());
        s.append("  ");
        s
    }

    /// The right part of the status line: the selection size and the 16-bit value
    /// at the cursor.
    pub fn status_right(&self) -> (s: String)
        requires
            self.view_ok(),
        ensures
            s@ == self.selection_text() + self.endian_text(),
    {
        let mut s = String::new();
        if self.cursor.selection_mode == SelectionMode::Block {
            let (t, b, l, r) = self.cursor.block_bounds(self.nibble_mode);
            assert((b - t + 1) <= u64::MAX && (r - l + 1) <= u64::MAX) by (nonlinear_arith)
                requires
                    (b - t + 1) * (r - l + 1) <= u64::MAX,
                    b - t + 1 >= 1,
                    r - l + 1 >= 1,
            ;
            let rows = b - t + 1;
            let cols = r - l + 1;
            s.append(" Sel:");
            s.append(decimal_string(rows * cols).as_str());
        } else {
            match self.selection_bounds() {
                Some((st, e)) => {
                    s.append(" Sel:");
                    s.append(decimal_string(e - st + 1).as_str());
                },
                None => {},
            }
        }
        let ghost sel = s@;
        assert(sel =~= self.selection_text());
        let o = self.cursor.offset;
        if o + 2 <= self.buffer.len() {
            let data = self.buffer.as_slice();
            let b0 = data[o as usize] as u64;
            let b1 = data[(o + 1) as usize] as u64;
            s.append(" u16 LE:0x");
            s.append(hex_string(b0 + 256 * b1, 4).as_str());
            s.append(" BE:0x");
            s.append(hex_string(256 * b0 + b1, 4).as_str());
        }
        assert(s@ =~= self.selection_text() + self.endian_text());
        s
    }

    /// The command line's text, and whether it is shown dimmed.
    pub fn command_bar(&self) -> (r: (String, bool))
        requires
            self.view_ok(),
        ensures
            (r.0@, r.1) == self.command_bar_text(),
    {
        let has = self.search_results.len() > 0;
        let count = if has {
            let mut c = decimal_string((self.search_index + 1) as u64);
            c.append("/");
            c.append(decimal_string(self.search_results.len() as u64).as_str());
            c
        } else {
            String::new()
        };
        match self.mode {
            Mode::Command => {
                let mut t = String::from_str(":");
                t.append(string_of(self.command_line.as_slice()).as_str());
                (t, false)
            },
            Mode::Search => {
                let mut t = String::from_str(if self.search_reverse {
                    "?"
                } else {
                    "/"
                });
                t.append(string_of(self.command_line.as_slice()).as_str());
                if has {
                    t.append("  (");
                    t.append(count.as_str());
                    t.append(")");
                }
                (t, false)
            },
            _ => if has {
                let mut t = String::from_str("(");
                t.append(count.as_str());
                t.append(")");
                (t, true)
            } else {
                (String::new(), false)
            },
        }
    }

    /// Whether the status line, the command line and the selection marks can be
    /// computed: the view functions may be called exactly when this holds.
    pub fn view_acceptable(&self) -> (b: bool)
        ensures
            b == self.view_ok(),
    {
        let c = &self.cursor;
        if !line_end_fits_now(c) {
            return false;
        }
        if c.selection_mode == SelectionMode::Block {
            let bpr = c.bytes_per_row;
            if bpr == 0 {
                return false;
            }
            let a = match c.selection_anchor {
                Some(x) => x,
                None => c.offset,
            };
            let sa = match c.selection_sub_anchor {
                Some(x) => x,
                None => 0,
            };
            let (ac, cc) = if self.nibble_mode {
                (
                    ((a % bpr) as u128) * 2 + (sa as u128),
                    ((c.offset % bpr) as u128) * 2 + (c.sub_offset as u128),
                )
            } else {
                ((a % bpr) as u128, (c.offset % bpr) as u128)
            };
            if ac > (u64::MAX as u128) || cc > (u64::MAX as u128) {
                return false;
            }
            if (bpr as u128) * 2 > (u64::MAX as u128) + 1 {
                return false;
            }
            let (t, bo, l, r) = c.block_bounds(self.nibble_mode);
            let rows = (bo - t) as u128 + 1;
            let cols = (r - l) as u128 + 1;
            if rows > (u64::MAX as u128) || cols > (u64::MAX as u128) {
                assert(rows * cols > u64::MAX) by (nonlinear_arith)
                    requires
                        rows > u64::MAX || cols > u64::MAX,
                        rows >= 1,
                        cols >= 1,
                ;
                return false;
            }
            assert(rows * cols <= 0xFFFF_FFFF_FFFF_FFFF * 0xFFFF_FFFF_FFFF_FFFF) by (nonlinear_arith)
                requires
                    rows <= 0xFFFF_FFFF_FFFF_FFFF,
                    cols <= 0xFFFF_FFFF_FFFF_FFFF,
            ;
            if rows * cols > (u64::MAX as u128) {
                return false;
            }
        } else if !self.span_ok_now() {
            return false;
        }
        c.offset <= u64::MAX - 2 && (self.search_results.len() == 0 || self.search_index < usize::MAX)
    }

    /// Whether row `row` can be laid out: `hex_row` may be called on it exactly when
    /// this holds.
    pub fn row_acceptable(&self, row: u64) -> (b: bool)
        ensures
            b == self.row_ok(row),
    {
        let bpr = self.cursor.bytes_per_row as u128;
        assert((row as u128) * bpr <= 0xFFFF_FFFF_FFFF_FFFF * 0xFFFF_FFFF_FFFF_FFFF) by (nonlinear_arith)
            requires
                row <= 0xFFFF_FFFF_FFFF_FFFF,
                bpr <= 0xFFFF_FFFF_FFFF_FFFF,
        ;
        (row as u128) * bpr + bpr <= (u64::MAX as u128)
    }
}

} // verus!
