//! Visual Block selections: the rectangle of rows and columns spanned by anchor
//! and cursor, taken row by row and left to right. `y` copies its cells, `d`/`x`
//! zero its bytes (byte mode) or delete its nibbles (nibble mode).
use vstd::prelude::*;
use vstd::string::StringExecFns;

use crate::buffer::{nibble_deleted, written};
use crate::command_mode::pushed_all;
use crate::commands::EditCommand;
use crate::cursor::{SelectionMode, column, row_of};
use crate::editor::{App, Mode, is_overwrite, lit, read_bytes, read_or_empty};
use crate::history::lemma_nibble_deleted_prefix;
use crate::nibble::{hi, lo};
use crate::text::{decimal, decimal_string, joined_str};

verus! {

/// The cells of one row whose first byte is `ro`: columns `left` to
/// `left + w - 1`, left to right, those that fall inside a buffer of `len`
/// bytes. A cell is a byte offset and, in nibble mode, which nibble of that byte
/// (0 = high, 1 = low); in byte mode the nibble is 0.
pub open spec fn row_cells(ro: int, left: int, w: nat, nibble_mode: bool, len: int) -> Seq<(u64, u8)>
    decreases w,
{
    if w == 0 {
        Seq::empty()
    } else {
        let prev = row_cells(ro, left, (w - 1) as nat, nibble_mode, len);
        let col = left + w - 1;
        let off = if nibble_mode {
            ro + col / 2
        } else {
            ro + col
        };
        if off < len {
            prev.push(
                (
                    off as u64,
                    if nibble_mode {
                        (col % 2) as u8
                    } else {
                        0u8
                    },
                ),
            )
        } else {
            prev
        }
    }
}

/// The cells of the `k` rows from row `top` on (`bpr` bytes per row), row by row.
pub open spec fn rows_cells(
    bpr: int,
    top: int,
    k: nat,
    left: int,
    w: nat,
    nibble_mode: bool,
    len: int,
) -> Seq<(u64, u8)>
    decreases k,
{
    if k == 0 {
        Seq::empty()
    } else {
        rows_cells(bpr, top, (k - 1) as nat, left, w, nibble_mode, len) + row_cells(
            (top + k - 1) * bpr,
            left,
            w,
            nibble_mode,
            len,
        )
    }
}

/// Byte offset of a column of the row starting at `ro`.
pub open spec fn cell_offset(ro: int, col: int, nibble_mode: bool) -> int {
    if nibble_mode {
        ro + col / 2
    } else {
        ro + col
    }
}

/// Every cell of a row lies in the buffer and at or after `f`, when `f` is at or
/// before the row's first column.
proof fn lemma_row_cells_bounds(ro: int, left: int, w: nat, nibble_mode: bool, len: int, f: int)
    requires
        0 <= ro,
        0 <= left,
        f <= cell_offset(ro, left, nibble_mode),
        len <= u64::MAX,
    ensures
        forall|i: int|
            0 <= i < row_cells(ro, left, w, nibble_mode, len).len() ==> f <= (
            #[trigger] row_cells(ro, left, w, nibble_mode, len)[i]).0 < len,
    decreases w,
{
    if w > 0 {
        lemma_row_cells_bounds(ro, left, (w - 1) as nat, nibble_mode, len, f);
        let prev = row_cells(ro, left, (w - 1) as nat, nibble_mode, len);
        let all = row_cells(ro, left, w, nibble_mode, len);
        let col = left + w - 1;
        assert(col / 2 >= left / 2);
        assert(cell_offset(ro, col, nibble_mode) >= f);
        assert forall|i: int| 0 <= i < all.len() implies f <= (#[trigger] all[i]).0 < len by {
            if i < prev.len() {
                assert(all[i] == prev[i]);
            }
        }
    }
}

/// Every cell of the rows lies in the buffer and at or after `f`, when `f` is at
/// or before the first column of the first row.
proof fn lemma_rows_cells_bounds(
    bpr: int,
    top: int,
    k: nat,
    left: int,
    w: nat,
    nibble_mode: bool,
    len: int,
    f: int,
)
    requires
        0 <= bpr,
        0 <= top,
        0 <= left,
        f <= cell_offset(top * bpr, left, nibble_mode),
        len <= u64::MAX,
    ensures
        forall|i: int|
            0 <= i < rows_cells(bpr, top, k, left, w, nibble_mode, len).len() ==> f <= (
            #[trigger] rows_cells(bpr, top, k, left, w, nibble_mode, len)[i]).0 < len,
    decreases k,
{
    if k > 0 {
        let prev = rows_cells(bpr, top, (k - 1) as nat, left, w, nibble_mode, len);
        let ro = (top + k - 1) * bpr;
        lemma_rows_cells_bounds(bpr, top, (k - 1) as nat, left, w, nibble_mode, len, f);
        assert(ro >= top * bpr) by (nonlinear_arith)
            requires
                ro == (top + k - 1) * bpr,
                k >= 1,
                bpr >= 0,
        ;
        assert(0 <= top * bpr) by (nonlinear_arith)
            requires
                top >= 0,
                bpr >= 0,
        ;
        lemma_row_cells_bounds(ro, left, w, nibble_mode, len, f);
        let row = row_cells(ro, left, w, nibble_mode, len);
        let all = rows_cells(bpr, top, k, left, w, nibble_mode, len);
        assert(all == prev + row);
        assert forall|i: int| 0 <= i < all.len() implies f <= (#[trigger] all[i]).0 < len by {
            if i < prev.len() {
                assert(all[i] == prev[i]);
            } else {
                assert(all[i] == row[i - prev.len()]);
            }
        }
    }
}

/// What a cell holds in `d`: the byte, or in nibble mode the nibble.
pub open spec fn cell_value(d: Seq<u8>, cell: (u64, u8), nibble_mode: bool) -> u8 {
    let b = d[cell.0 as int];
    if !nibble_mode {
        b
    } else if cell.1 == 0 {
        hi(b)
    } else {
        lo(b)
    }
}

/// Bytes `d` with the bytes of the first `k` cells set to zero, one after the
/// other.
pub open spec fn zeroed_first(d: Seq<u8>, cells: Seq<(u64, u8)>, k: nat) -> Seq<u8>
    decreases k,
{
    if k == 0 || k > cells.len() {
        d
    } else {
        written(zeroed_first(d, cells, (k - 1) as nat), cells[k - 1].0 as int, seq![0u8])
    }
}

/// Bytes `d` after the nibbles of the last `k` cells were deleted, the last cell
/// first.
pub open spec fn cells_deleted(d: Seq<u8>, cells: Seq<(u64, u8)>, k: nat) -> Seq<u8>
    decreases k,
{
    if k == 0 || k > cells.len() {
        d
    } else {
        let c = cells[cells.len() - k];
        nibble_deleted(cells_deleted(d, cells, (k - 1) as nat), c.0 as int, c.1)
    }
}

/// Zeroing bytes inside the buffer keeps its length.
proof fn lemma_zeroed_first_len(d: Seq<u8>, cells: Seq<(u64, u8)>, k: nat)
    requires
        forall|i: int| 0 <= i < cells.len() ==> (#[trigger] cells[i]).0 < d.len(),
    ensures
        zeroed_first(d, cells, k).len() == d.len(),
    decreases k,
{
    if k > 0 && k <= cells.len() {
        lemma_zeroed_first_len(d, cells, (k - 1) as nat);
        assert(cells[k - 1].0 < d.len());
    }
}

/// Deleting nibbles of cells at or after `f` keeps the length and the bytes
/// before `f`.
pub proof fn lemma_cells_deleted_prefix(d: Seq<u8>, cells: Seq<(u64, u8)>, k: nat, f: int)
    requires
        0 <= f,
        forall|i: int| 0 <= i < cells.len() ==> f <= (#[trigger] cells[i]).0 < d.len(),
    ensures
        cells_deleted(d, cells, k).len() == d.len(),
        cells_deleted(d, cells, k).take(f) == d.take(f),
    decreases k,
{
    if k > 0 && k <= cells.len() {
        lemma_cells_deleted_prefix(d, cells, (k - 1) as nat, f);
        let e = cells_deleted(d, cells, (k - 1) as nat);
        let c = cells[cells.len() - k];
        lemma_nibble_deleted_prefix(e, c.0 as int, c.1);
        let g = nibble_deleted(e, c.0 as int, c.1);
        assert(g.take(f) =~= g.take(c.0 as int).take(f));
        assert(e.take(f) =~= e.take(c.0 as int).take(f));
    }
}

/// Every cell of a row lies in row `row` (of `bpr` bytes) and, counted as
/// `column` counts, in the columns `l` to `r`.
proof fn lemma_row_cells_in_block(
    bpr: u64,
    row: int,
    left: int,
    w: nat,
    nibble_mode: bool,
    len: int,
    l: int,
    r: int,
)
    requires
        bpr > 0,
        0 <= row,
        l <= left,
        0 <= left,
        left + w - 1 <= r,
        r < if nibble_mode {
            2 * bpr
        } else {
            bpr as int
        },
        len <= u64::MAX,
    ensures
        forall|i: int|
            #![trigger row_cells(row * bpr, left, w, nibble_mode, len)[i]]
            0 <= i < row_cells(row * bpr, left, w, nibble_mode, len).len() ==> {
                let c = row_cells(row * bpr, left, w, nibble_mode, len)[i];
                &&& row_of(bpr, c.0) == row
                &&& l <= column(bpr, c.0, nibble_mode, c.1) <= r
            },
    decreases w,
{
    if w > 0 {
        lemma_row_cells_in_block(bpr, row, left, (w - 1) as nat, nibble_mode, len, l, r);
        let ro = row * bpr;
        let prev = row_cells(ro, left, (w - 1) as nat, nibble_mode, len);
        let all = row_cells(ro, left, w, nibble_mode, len);
        let col = left + w - 1;
        let x = if nibble_mode {
            col / 2
        } else {
            col
        };
        let off = ro + x;
        if off < len {
            assert(0 <= ro) by (nonlinear_arith)
                requires
                    ro == row * bpr,
                    row >= 0,
            ;
            vstd::arithmetic::div_mod::lemma_fundamental_div_mod_converse(off, bpr as int, row, x);
            let c = all[all.len() - 1];
            assert(c.0 == off);
            assert(row_of(bpr, c.0) == row);
            assert(column(bpr, c.0, nibble_mode, c.1) == col);
        }
        assert forall|i: int| 0 <= i < all.len() implies {
            let c = #[trigger] all[i];
            &&& row_of(bpr, c.0) == row
            &&& l <= column(bpr, c.0, nibble_mode, c.1) <= r
        } by {
            if i < prev.len() {
                assert(all[i] == prev[i]);
            }
        }
    }
}

/// Every cell of the rows lies in rows `t` to `b` and columns `l` to `r`.
proof fn lemma_rows_cells_in_block(
    bpr: u64,
    top: int,
    k: nat,
    left: int,
    w: nat,
    nibble_mode: bool,
    len: int,
    t: int,
    b: int,
    l: int,
    r: int,
)
    requires
        bpr > 0,
        t <= top,
        0 <= top,
        top + k - 1 <= b,
        l <= left,
        0 <= left,
        left + w - 1 <= r,
        r < if nibble_mode {
            2 * bpr
        } else {
            bpr as int
        },
        len <= u64::MAX,
    ensures
        forall|i: int|
            #![trigger rows_cells(bpr as int, top, k, left, w, nibble_mode, len)[i]]
            0 <= i < rows_cells(bpr as int, top, k, left, w, nibble_mode, len).len() ==> {
                let c = rows_cells(bpr as int, top, k, left, w, nibble_mode, len)[i];
                &&& t <= row_of(bpr, c.0) <= b
                &&& l <= column(bpr, c.0, nibble_mode, c.1) <= r
            },
    decreases k,
{
    if k > 0 {
        lemma_rows_cells_in_block(bpr, top, (k - 1) as nat, left, w, nibble_mode, len, t, b, l, r);
        let row = top + k - 1;
        lemma_row_cells_in_block(bpr, row, left, w, nibble_mode, len, l, r);
        let prev = rows_cells(bpr as int, top, (k - 1) as nat, left, w, nibble_mode, len);
        let cur = row_cells(row * bpr, left, w, nibble_mode, len);
        let all = rows_cells(bpr as int, top, k, left, w, nibble_mode, len);
        assert(all == prev + cur);
        assert forall|i: int| 0 <= i < all.len() implies {
            let c = #[trigger] all[i];
            &&& t <= row_of(bpr, c.0) <= b
            &&& l <= column(bpr, c.0, nibble_mode, c.1) <= r
        } by {
            if i < prev.len() {
                assert(all[i] == prev[i]);
            } else {
                assert(all[i] == cur[i - prev.len()]);
            }
        }
    }
}

impl App {
    /// `y` in Visual Block mode: what the block's cells hold becomes the
    /// clipboard, row by row, and the message tells how many; then the selection
    /// is dropped and Normal mode follows.
    pub open spec fn block_yank_post(old: App, new: App) -> bool {
        let vals = old.block_cells().map_values(
            |c: (u64, u8)| cell_value(old.buffer@, c, old.nibble_mode),
        );
        &&& new.clipboard@ == vals
        &&& new.status_message@ == lit("Yanked ") + decimal(vals.len()) + lit(" bytes")
        &&& new == App {
            cursor: App::unselected(old.cursor),
            mode: Mode::Normal,
            clipboard: new.clipboard,
            status_message: new.status_message,
            ..old
        }
    }

    /// `d` or `x` in Visual Block mode, byte mode: each byte of the block is set to
    /// zero, row by row, each write recorded as an overwrite of what was there;
    /// then the selection is dropped and Normal mode follows.
    pub open spec fn block_zero_post(old: App, new: App) -> bool {
        let d = old.buffer@;
        let cells = old.block_cells();
        let n = cells.len();
        &&& new.buffer@ == zeroed_first(d, cells, n)
        &&& new.buffer.path_spec() == old.buffer.path_spec()
        &&& n > 0 ==> new.buffer.modified_spec()
        &&& n == 0 ==> new.buffer == old.buffer
        &&& exists|cs: Seq<EditCommand>|
            {
                &&& cs.len() == n
                &&& forall|j: int|
                    0 <= j < n ==> is_overwrite(
                        #[trigger] cs[j],
                        cells[j].0,
                        seq![zeroed_first(d, cells, j as nat)[cells[j].0 as int]],
                        seq![0u8],
                    )
                &&& new.undo.undo_spec() == #[trigger] pushed_all(
                    old.undo.undo_spec(),
                    old.undo.max_depth_spec(),
                    cs,
                )
            }
        &&& new.undo.redo_spec() == if n > 0 {
            Seq::<EditCommand>::empty()
        } else {
            old.undo.redo_spec()
        }
        &&& new.undo.max_depth_spec() == old.undo.max_depth_spec()
        &&& new == App {
            buffer: new.buffer,
            undo: new.undo,
            cursor: App::unselected(old.cursor),
            mode: Mode::Normal,
            ..old
        }
    }

    /// `d` or `x` in Visual Block mode, nibble mode: the block's nibbles are
    /// deleted, the last one first (the nibbles after each move forward, a zero
    /// nibble fills the end), recorded as one overwrite of the bytes from the
    /// block's top-left cell on; then the selection is dropped and Normal mode
    /// follows.
    pub open spec fn block_nibble_post(old: App, new: App) -> bool {
        let cells = old.block_cells();
        let n = cells.len();
        if n > 0 {
            &&& App::nibble_edited(
                old,
                new,
                old.block_start() as u64,
                cells_deleted(old.buffer@, cells, n),
            )
            &&& new == App {
                buffer: new.buffer,
                undo: new.undo,
                cursor: App::unselected(old.cursor),
                mode: Mode::Normal,
                ..old
            }
        } else {
            new == App { cursor: App::unselected(old.cursor), mode: Mode::Normal, ..old }
        }
    }

    /// `d` or `x` in Visual Block mode.
    pub open spec fn block_delete_post(old: App, new: App, r: Result<(), Seq<char>>) -> bool {
        &&& r is Ok
        &&& if old.nibble_mode {
            Self::block_nibble_post(old, new)
        } else {
            Self::block_zero_post(old, new)
        }
    }

    /// The cells of the block selection, row by row and left to right; columns
    /// count nibbles in nibble mode. Cells past the end of the buffer are left out.
    pub open spec fn block_cells(&self) -> Seq<(u64, u8)> {
        let (t, b, l, r) = self.cursor.block_bounds_spec(self.nibble_mode);
        rows_cells(
            self.cursor.bytes_per_row as int,
            t as int,
            (b - t + 1) as nat,
            l as int,
            (r - l + 1) as nat,
            self.nibble_mode,
            self.buffer@.len() as int,
        )
    }

    /// Byte offset of the block's top-left cell.
    pub open spec fn block_start(&self) -> int {
        let (t, b, l, r) = self.cursor.block_bounds_spec(self.nibble_mode);
        cell_offset(t * self.cursor.bytes_per_row, l as int, self.nibble_mode)
    }

    /// The block's columns can be computed and the offset of its bottom-right
    /// cell fits in a `u64`.
    pub open spec fn block_ok(&self) -> bool {
        let (t, b, l, r) = self.cursor.block_bounds_spec(self.nibble_mode);
        &&& self.cursor.block_fits(self.nibble_mode)
        &&& cell_offset(b * self.cursor.bytes_per_row, r as int, self.nibble_mode) <= u64::MAX
    }

    /// Every block cell lies in the buffer, at or after the top-left cell.
    pub proof fn lemma_block_cells_bounds(&self)
        ensures
            forall|i: int|
                0 <= i < self.block_cells().len() ==> self.block_start() <= (
                #[trigger] self.block_cells()[i]).0 < self.buffer@.len(),
    {
        let (t, b, l, r) = self.cursor.block_bounds_spec(self.nibble_mode);
        self.buffer.lemma_len_fits();
        lemma_rows_cells_bounds(
            self.cursor.bytes_per_row as int,
            t as int,
            (b - t + 1) as nat,
            l as int,
            (r - l + 1) as nat,
            self.nibble_mode,
            self.buffer@.len() as int,
            self.block_start(),
        );
    }

    /// Every block cell is one that the block selection shows as selected.
    pub(crate) proof fn lemma_block_cells_selected(&self)
        requires
            self.cursor.selection_mode == SelectionMode::Block,
            self.cursor.block_fits(self.nibble_mode),
            self.cursor.sub_offset <= 1,
            self.cursor.sub_anchor_or_zero() <= 1,
        ensures
            forall|i: int|
                0 <= i < self.block_cells().len() ==> self.cursor.in_selection_spec(
                    (#[trigger] self.block_cells()[i]).0,
                    self.buffer@.len() as u64,
                    self.nibble_mode,
                    self.block_cells()[i].1,
                ),
    {
        let c = self.cursor;
        let nib = self.nibble_mode;
        let (t, b, l, r) = c.block_bounds_spec(nib);
        let bpr = c.bytes_per_row;
        self.buffer.lemma_len_fits();
        assert(c.anchor_or_offset() % bpr < bpr);
        assert(c.offset % bpr < bpr);
        lemma_rows_cells_in_block(
            bpr,
            t as int,
            (b - t + 1) as nat,
            l as int,
            (r - l + 1) as nat,
            nib,
            self.buffer@.len() as int,
            t as int,
            b as int,
            l as int,
            r as int,
        );
    }

    /// The cells of the block selection.
    pub fn block_cell_list(&self) -> (cells: Vec<(u64, u8)>)
        requires
            self.block_ok(),
        ensures
            cells@ == self.block_cells(),
    {
        let nib = self.nibble_mode;
        let bpr = self.cursor.bytes_per_row;
        let len = self.buffer.len();
        let (top, bottom, left, right) = self.cursor.block_bounds(nib);
        let ghost k_all = (bottom - top + 1) as nat;
        let ghost w_all = (right - left + 1) as nat;
        let nrows: u128 = (bottom - top) as u128 + 1;
        let ncols: u128 = (right - left) as u128 + 1;
        assert(nrows == bottom - top + 1);
        assert(ncols == right - left + 1);
        let mut cells: Vec<(u64, u8)> = Vec::new();
        let mut i: u128 = 0;
        while i < nrows
            invariant
                i <= nrows,
                nrows == k_all,
                ncols == w_all,
                nrows == bottom - top + 1,
                ncols == right - left + 1,
                top <= bottom,
                left <= right,
                bpr > 0,
                len == self.buffer@.len(),
                cell_offset(bottom * bpr, right as int, nib) <= u64::MAX,
                cells@ == rows_cells(bpr as int, top as int, i as nat, left as int, w_all, nib, len as int),
            decreases nrows - i,
        {
            assert(i <= bottom - top);
            let di: u64 = i as u64;
            let row: u64 = top + di;
            assert(row * bpr <= bottom * bpr) by (nonlinear_arith)
                requires
                    row <= bottom,
                    bpr > 0,
            ;
            let ro: u64 = row * bpr;
            let mut j: u128 = 0;
            while j < ncols
                invariant
                    j <= ncols,
                    ncols == w_all,
                    ncols == right - left + 1,
                    i < nrows,
                    bpr > 0,
                    row == top + i,
                    row <= bottom,
                    left <= right,
                    ro == row * bpr,
                    ro <= bottom * bpr,
                    len == self.buffer@.len(),
                    cell_offset(bottom * bpr, right as int, nib) <= u64::MAX,
                    cells@ == rows_cells(bpr as int, top as int, i as nat, left as int, w_all, nib, len as int)
                        + row_cells(ro as int, left as int, j as nat, nib, len as int),
                decreases ncols - j,
            {
                assert(j <= right - left);
                let dj: u64 = j as u64;
                let col: u64 = left + dj;
                assert(cell_offset(ro as int, col as int, nib) <= cell_offset(bottom * bpr, right as int, nib));
                let off: u64 = if nib {
                    ro + col / 2
                } else {
                    ro + col
                };
                if off < len {
                    let nb: u8 = if nib {
                        (col % 2) as u8
                    } else {
                        0
                    };
                    cells.push((off, nb));
                }
                j = j + 1;
                proof {
                    let prev = rows_cells(bpr as int, top as int, i as nat, left as int, w_all, nib, len as int);
                    let before = row_cells(ro as int, left as int, (j - 1) as nat, nib, len as int);
                    let x = (off, if nib { (col % 2) as u8 } else { 0u8 });
                    assert(off as int == cell_offset(ro as int, col as int, nib));
                    if off < len {
                        assert(row_cells(ro as int, left as int, j as nat, nib, len as int) == before.push(x));
                        assert(prev + before.push(x) =~= (prev + before).push(x));
                    } else {
                        assert(row_cells(ro as int, left as int, j as nat, nib, len as int) == before);
                    }
                }
            }
            i = i + 1;
        }
        cells
    }

    /// Whether `block_ok` holds.
    pub(crate) fn block_ok_now(&self) -> (b: bool)
        ensures
            b == self.block_ok(),
    {
        let nib = self.nibble_mode;
        let bpr = self.cursor.bytes_per_row;
        if bpr == 0 {
            return false;
        }
        let a = match self.cursor.selection_anchor {
            Some(x) => x,
            None => self.cursor.offset,
        };
        let sa: u8 = match self.cursor.selection_sub_anchor {
            Some(x) => x,
            None => 0,
        };
        let o = self.cursor.offset;
        let ac: u128 = if nib {
            (a % bpr) as u128 * 2 + sa as u128
        } else {
            (a % bpr) as u128
        };
        let cc: u128 = if nib {
            (o % bpr) as u128 * 2 + self.cursor.sub_offset as u128
        } else {
            (o % bpr) as u128
        };
        if ac > u64::MAX as u128 || cc > u64::MAX as u128 {
            return false;
        }
        let ra = a / bpr;
        let rc = o / bpr;
        let bottom: u64 = if ra >= rc {
            ra
        } else {
            rc
        };
        let right: u128 = if ac >= cc {
            ac
        } else {
            cc
        };
        assert(bottom as u128 * bpr as u128 <= 0xffff_ffff_ffff_ffffu128 * 0xffff_ffff_ffff_ffffu128)
            by (nonlinear_arith);
        let last: u128 = bottom as u128 * bpr as u128 + if nib {
            right / 2
        } else {
            right
        };
        last <= u64::MAX as u128
    }

    /// Copies the block's cells to the clipboard and leaves Visual Block mode.
    pub(crate) fn yank_block(&mut self)
        requires
            old(self).block_ok(),
        ensures
            Self::block_yank_post(*old(self), *final(self)),
    {
        let ghost a = *self;
        let nib = self.nibble_mode;
        let cells = self.block_cell_list();
        proof {
            self.lemma_block_cells_bounds();
            self.buffer.lemma_len_fits();
        }
        let ghost vals = a.block_cells().map_values(
            |c: (u64, u8)| cell_value(a.buffer@, c, a.nibble_mode),
        );
        let data = self.buffer.as_slice();
        let mut out: Vec<u8> = Vec::new();
        let mut i: usize = 0;
        while i < cells.len()
            invariant
                i <= cells.len(),
                cells@ == a.block_cells(),
                data@ == a.buffer@,
                nib == a.nibble_mode,
                data@.len() <= usize::MAX,
                forall|k: int| 0 <= k < cells@.len() ==> (#[trigger] cells@[k]).0 < data@.len(),
                vals == a.block_cells().map_values(
                    |c: (u64, u8)| cell_value(a.buffer@, c, a.nibble_mode),
                ),
                out@ == vals.take(i as int),
            decreases cells.len() - i,
        {
            let (off, nb) = cells[i];
            assert(cells@[i as int].0 < data@.len());
            let b = data[off as usize];
            let v: u8 = if nib {
                if nb == 0 {
                    b >> 4
                } else {
                    b & 0x0F
                }
            } else {
                b
            };
            out.push(v);
            assert(v == vals[i as int]);
            i = i + 1;
            assert(out@ =~= vals.take(i as int));
        }
        assert(out@ =~= vals);
        let count = decimal_string(out.len() as u64);
        self.clipboard = out;
        let mut msg = joined_str("Yanked ", count.as_str());
        msg.append(" bytes");
        self.status_message = msg;
        self.cursor.clear_selection();
        self.mode = Mode::Normal;
    }

    /// `d` or `x` in Visual Block mode.
    pub(crate) fn delete_block(&mut self) -> (r: Result<(), String>)
        requires
            old(self).block_ok(),
        ensures
            Self::block_delete_post(*old(self), *final(self), crate::editor::outcome(r)),
    {
        if self.nibble_mode {
            self.delete_block_nibbles()
        } else {
            self.zero_block()
        }
    }

    /// Sets each byte of the block to zero, recording each write, and leaves
    /// Visual Block mode (byte mode).
    fn zero_block(&mut self) -> (r: Result<(), String>)
        requires
            old(self).block_ok(),
            !old(self).nibble_mode,
        ensures
            r is Ok,
            Self::block_zero_post(*old(self), *final(self)),
    {
        let ghost a = *self;
        let ghost d = a.buffer@;
        let cells = self.block_cell_list();
        proof {
            self.lemma_block_cells_bounds();
            self.buffer.lemma_len_fits();
        }
        let n = cells.len();
        let mut i: usize = 0;
        let ghost mut cs: Seq<EditCommand> = Seq::empty();
        while i < n
            invariant
                i <= n,
                n == cells@.len(),
                cells@ == a.block_cells(),
                d == a.buffer@,
                d.len() <= usize::MAX,
                forall|k: int| 0 <= k < cells@.len() ==> (#[trigger] cells@[k]).0 < d.len(),
                self.buffer@ == zeroed_first(d, cells@, i as nat),
                self.buffer.path_spec() == a.buffer.path_spec(),
                i > 0 ==> self.buffer.modified_spec(),
                i == 0 ==> self.buffer == a.buffer,
                cs.len() == i,
                forall|j: int|
                    0 <= j < i ==> is_overwrite(
                        #[trigger] cs[j],
                        cells@[j].0,
                        seq![zeroed_first(d, cells@, j as nat)[cells@[j].0 as int]],
                        seq![0u8],
                    ),
                self.undo.undo_spec() == pushed_all(a.undo.undo_spec(), a.undo.max_depth_spec(), cs),
                self.undo.redo_spec() == if i > 0 {
                    Seq::<EditCommand>::empty()
                } else {
                    a.undo.redo_spec()
                },
                self.undo.max_depth_spec() == a.undo.max_depth_spec(),
                *self == (App { buffer: self.buffer, undo: self.undo, ..a }),
            decreases n - i,
        {
            proof {
                lemma_zeroed_first_len(d, cells@, i as nat);
            }
            let (off, _nb) = cells[i];
            assert(cells@[i as int].0 < d.len());
            let ghost cur = self.buffer@;
            assert(cur.len() == d.len());
            assert(off + 1 <= d.len() <= u64::MAX);
            let old_bytes = read_bytes(&self.buffer, off, 1);
            assert(read_or_empty(cur, off, 1) == cur.subrange(off as int, off + 1));
            assert(old_bytes@ =~= seq![cur[off as int]]);
            let mut zero: Vec<u8> = Vec::new();
            zero.push(0u8);
            let cmd = EditCommand::Overwrite { offset: off, old_bytes, new_bytes: zero };
            let ghost g = cmd;
            match self.apply_and_record(cmd) {
                Ok(()) => {},
                Err(e) => {
                    return Err(e);
                },
            }
            proof {
                assert(written(cur, off as int, seq![0u8]) =~= zeroed_first(d, cells@, (i + 1) as nat));
                crate::command_mode::lemma_pushed_all_push(
                    a.undo.undo_spec(),
                    a.undo.max_depth_spec(),
                    cs,
                    g,
                );
                cs = cs.push(g);
                assert(forall|j: int| 0 <= j < i ==> cs[j] == cs.drop_last()[j]);
            }
            i = i + 1;
        }
        self.cursor.clear_selection();
        self.mode = Mode::Normal;
        assert(Self::block_zero_post(a, *self));
        Ok(())
    }

    /// Deletes the block's nibbles, the last one first, records the change of
    /// the bytes from the block's top-left cell on, and leaves Visual Block mode
    /// (nibble mode).
    fn delete_block_nibbles(&mut self) -> (r: Result<(), String>)
        requires
            old(self).block_ok(),
            old(self).nibble_mode,
        ensures
            r is Ok,
            Self::block_nibble_post(*old(self), *final(self)),
    {
        let ghost a = *self;
        let ghost d = a.buffer@;
        let cells = self.block_cell_list();
        proof {
            self.lemma_block_cells_bounds();
            self.buffer.lemma_len_fits();
        }
        let n = cells.len();
        if n == 0 {
            self.cursor.clear_selection();
            self.mode = Mode::Normal;
            return Ok(());
        }
        let bpr = self.cursor.bytes_per_row;
        let (top, bottom, left, right) = self.cursor.block_bounds(true);
        assert(top * bpr <= bottom * bpr) by (nonlinear_arith)
            requires
                top <= bottom,
        ;
        let f: u64 = top * bpr + left / 2;
        assert(f == a.block_start());
        assert(cells@[0].0 < d.len());
        let len = self.buffer.len();
        let remaining = (len - f) as usize;
        let old_tail = read_bytes(&self.buffer, f, remaining);
        assert(old_tail@ =~= d.skip(f as int));
        let mut j: usize = n;
        while j > 0
            invariant
                j <= n,
                n == cells@.len(),
                cells@ == a.block_cells(),
                d == a.buffer@,
                f <= d.len(),
                forall|k: int| 0 <= k < cells@.len() ==> f <= (#[trigger] cells@[k]).0 < d.len(),
                self.buffer@ == cells_deleted(d, cells@, (n - j) as nat),
                self.buffer.path_spec() == a.buffer.path_spec(),
                j < n ==> self.buffer.modified_spec(),
                *self == (App { buffer: self.buffer, ..a }),
            decreases j,
        {
            proof {
                lemma_cells_deleted_prefix(d, cells@, (n - j) as nat, f as int);
            }
            j = j - 1;
            let (off, nb) = cells[j];
            assert(cells@[j as int].0 < d.len());
            match self.buffer.delete_nibble(off, nb) {
                Ok(()) => {},
                Err(e) => {
                    return Err(e);
                },
            }
        }
        proof {
            lemma_cells_deleted_prefix(d, cells@, n as nat, f as int);
        }
        let new_tail = read_bytes(&self.buffer, f, remaining);
        assert(new_tail@ =~= self.buffer@.skip(f as int));
        let cmd = EditCommand::Overwrite { offset: f, old_bytes: old_tail, new_bytes: new_tail };
        let ghost g = cmd;
        self.undo.push(cmd);
        self.cursor.clear_selection();
        self.mode = Mode::Normal;
        assert(is_overwrite(g, f, d.skip(f as int), self.buffer@.skip(f as int)));
        assert(Self::recorded(a, *self, g));
        Ok(())
    }
}

} // verus!
