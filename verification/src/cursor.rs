//! The editing cursor and its selections.
use vstd::prelude::*;

verus! {

/// How a selection extends from its anchor to the cursor.
#[derive(Debug, Clone, Copy, PartialEq, Eq, Structural)]
pub enum SelectionMode {
    Off,
    /// Every byte between anchor and cursor.
    Char,
    /// Every row between the anchor's row and the cursor's row.
    Line,
    /// The rectangle of rows and columns spanned by anchor and cursor.
    Block,
}

/// Position in the buffer, with an optional selection.
pub struct Cursor {
    pub offset: u64,
    /// Nibble of the byte under the cursor in nibble mode (0 = high, 1 = low).
    pub sub_offset: u8,
    pub selection_anchor: Option<u64>,
    pub selection_sub_anchor: Option<u8>,
    pub selection_mode: SelectionMode,
    pub bytes_per_row: u64,
}

pub open spec fn min_u64(a: u64, b: u64) -> u64 {
    if a <= b {
        a
    } else {
        b
    }
}

pub open spec fn max_u64(a: u64, b: u64) -> u64 {
    if a >= b {
        a
    } else {
        b
    }
}

/// Row of byte `offset` with `bpr` bytes per row (row 0 when rows are empty).
pub open spec fn row_of(bpr: u64, offset: u64) -> u64 {
    if bpr == 0 {
        0
    } else {
        offset / bpr
    }
}

/// Where the cursor lands after moving by `delta` bytes in a file of `file_size`
/// bytes: forward moves stop at the last byte, backward moves at the first; in an
/// empty file the cursor stays.
pub open spec fn moved(offset: u64, delta: i64, file_size: u64) -> u64 {
    if file_size == 0 {
        offset
    } else if delta >= 0 {
        min_u64(
            if offset + delta > u64::MAX {
                u64::MAX
            } else {
                (offset + delta) as u64
            },
            (file_size - 1) as u64,
        )
    } else if offset + delta < 0 {
        0
    } else {
        (offset + delta) as u64
    }
}

/// Column of byte `offset` in a row of `bpr` bytes, counted in nibbles when
/// `nibble_mode` (`sub` picks the nibble) and in bytes otherwise.
pub open spec fn column(bpr: u64, offset: u64, nibble_mode: bool, sub: u8) -> int {
    if nibble_mode {
        (offset % bpr) * 2 + sub
    } else {
        (offset % bpr) as int
    }
}

impl Cursor {
    /// The anchor of the selection, or the cursor itself when there is none.
    pub open spec fn anchor_or_offset(&self) -> u64 {
        match self.selection_anchor {
            Some(a) => a,
            None => self.offset,
        }
    }

    /// The nibble of the anchor, 0 when there is none.
    pub open spec fn sub_anchor_or_zero(&self) -> u8 {
        match self.selection_sub_anchor {
            Some(s) => s,
            None => 0,
        }
    }

    /// First offset of the selection, if there is an anchor.
    pub open spec fn selection_start_spec(&self) -> Option<u64> {
        match self.selection_anchor {
            None => None,
            Some(a) => if self.selection_mode == SelectionMode::Line {
                Some(
                    (min_u64(
                        row_of(self.bytes_per_row, a),
                        row_of(self.bytes_per_row, self.offset),
                    ) * self.bytes_per_row) as u64,
                )
            } else {
                Some(min_u64(a, self.offset))
            },
        }
    }

    /// Last offset of the selection in a file of `file_size` bytes, if there is an anchor.
    pub open spec fn selection_end_spec(&self, file_size: u64) -> Option<u64> {
        match self.selection_anchor {
            None => None,
            Some(a) => if self.selection_mode == SelectionMode::Line {
                let end_row = max_u64(
                    row_of(self.bytes_per_row, a),
                    row_of(self.bytes_per_row, self.offset),
                );
                let end = end_row * self.bytes_per_row + self.bytes_per_row - 1;
                Some(
                    min_u64(
                        end as u64,
                        if file_size == 0 {
                            0
                        } else {
                            (file_size - 1) as u64
                        },
                    ),
                )
            } else {
                Some(max_u64(a, self.offset))
            },
        }
    }

    /// A line selection ends within `u64`: the rows are not empty and the offset
    /// just past the last selected row is representable.
    pub open spec fn line_end_fits(&self) -> bool {
        self.selection_mode == SelectionMode::Line && self.selection_anchor is Some ==> {
            &&& self.bytes_per_row > 0
            &&& max_u64(
                row_of(self.bytes_per_row, self.selection_anchor->Some_0),
                row_of(self.bytes_per_row, self.offset),
            ) * self.bytes_per_row + self.bytes_per_row <= u64::MAX
        }
    }

    /// The block columns of anchor and cursor are representable.
    pub open spec fn block_fits(&self, nibble_mode: bool) -> bool {
        &&& self.bytes_per_row > 0
        &&& column(
            self.bytes_per_row,
            self.anchor_or_offset(),
            nibble_mode,
            self.sub_anchor_or_zero(),
        ) <= u64::MAX
        &&& column(self.bytes_per_row, self.offset, nibble_mode, self.sub_offset) <= u64::MAX
    }

    /// Top row, bottom row, left column and right column of the block spanned by
    /// anchor (or the cursor when there is none) and cursor.
    pub open spec fn block_bounds_spec(&self, nibble_mode: bool) -> (u64, u64, u64, u64) {
        let a = self.anchor_or_offset();
        let ac = column(self.bytes_per_row, a, nibble_mode, self.sub_anchor_or_zero());
        let cc = column(self.bytes_per_row, self.offset, nibble_mode, self.sub_offset);
        (
            min_u64(row_of(self.bytes_per_row, a), row_of(self.bytes_per_row, self.offset)),
            max_u64(row_of(self.bytes_per_row, a), row_of(self.bytes_per_row, self.offset)),
            (if ac <= cc {
                ac
            } else {
                cc
            }) as u64,
            (if ac >= cc {
                ac
            } else {
                cc
            }) as u64,
        )
    }

    /// Whether byte `offset` (nibble `sub` in nibble mode) is selected in a file of
    /// `file_size` bytes.
    pub open spec fn in_selection_spec(
        &self,
        offset: u64,
        file_size: u64,
        nibble_mode: bool,
        sub: u8,
    ) -> bool {
        match self.selection_mode {
            SelectionMode::Block => {
                let (top, bottom, left, right) = self.block_bounds_spec(nibble_mode);
                let r = row_of(self.bytes_per_row, offset);
                let c = column(self.bytes_per_row, offset, nibble_mode, sub);
                top <= r <= bottom && left <= c <= right
            },
            SelectionMode::Off => false,
            _ => match (self.selection_start_spec(), self.selection_end_spec(file_size)) {
                (Some(s), Some(e)) => s <= offset <= e,
                _ => false,
            },
        }
    }

    /// A cursor at offset 0 with no selection.
    pub fn new(bytes_per_row: u64) -> (c: Self)
        ensures
            c.offset == 0,
            c.sub_offset == 0,
            c.selection_anchor is None,
            c.selection_sub_anchor is None,
            c.selection_mode == SelectionMode::Off,
            c.bytes_per_row == bytes_per_row,
    {
        Cursor {
            offset: 0,
            sub_offset: 0,
            selection_anchor: None,
            selection_sub_anchor: None,
            selection_mode: SelectionMode::Off,
            bytes_per_row,
        }
    }

    /// Moves the cursor by `delta` bytes within a file of `file_size` bytes.
    pub fn move_by(&mut self, delta: i64, file_size: u64)
        ensures
            final(self).offset == moved(old(self).offset, delta, file_size),
            final(self).sub_offset == old(self).sub_offset,
            final(self).selection_anchor == old(self).selection_anchor,
            final(self).selection_sub_anchor == old(self).selection_sub_anchor,
            final(self).selection_mode == old(self).selection_mode,
            final(self).bytes_per_row == old(self).bytes_per_row,
            file_size > 0 && delta >= 0 ==> final(self).offset < file_size,
            delta < 0 ==> final(self).offset <= old(self).offset,
    {
        if file_size == 0 {
            return ;
        }
        if delta >= 0 {
            let d = delta as u64;
            let max = file_size - 1;
            let sum = if self.offset > u64::MAX - d {
                u64::MAX
            } else {
                self.offset + d
            };
            self.offset = if sum <= max {
                sum
            } else {
                max
            };
        } else {
            let d: u64 = if delta == i64::MIN {
                0x8000_0000_0000_0000u64
            } else {
                (-delta) as u64
            };
            self.offset = if self.offset >= d {
                self.offset - d
            } else {
                0
            };
        }
    }

    /// Moves the cursor one row down.
    pub fn move_down(&mut self, file_size: u64)
        ensures
            final(self).offset == moved(old(self).offset, old(self).bytes_per_row as i64, file_size),
            final(self).sub_offset == old(self).sub_offset,
            final(self).selection_anchor == old(self).selection_anchor,
            final(self).selection_sub_anchor == old(self).selection_sub_anchor,
            final(self).selection_mode == old(self).selection_mode,
            final(self).bytes_per_row == old(self).bytes_per_row,
    {
        let delta = self.bytes_per_row as i64;
        self.move_by(delta, file_size);
    }

    /// Moves the cursor one row up. A row width whose signed value has no negation
    /// is refused.
    pub fn move_up(&mut self, file_size: u64)
        requires
            old(self).bytes_per_row as i64 != i64::MIN,
        ensures
            final(self).offset == moved(
                old(self).offset,
                -(old(self).bytes_per_row as i64) as i64,
                file_size,
            ),
            final(self).sub_offset == old(self).sub_offset,
            final(self).selection_anchor == old(self).selection_anchor,
            final(self).selection_sub_anchor == old(self).selection_sub_anchor,
            final(self).selection_mode == old(self).selection_mode,
            final(self).bytes_per_row == old(self).bytes_per_row,
    {
        let delta = self.bytes_per_row as i64;
        self.move_by(-delta, file_size);
    }

    /// Row of byte `offset`.
    fn row(&self, offset: u64) -> (r: u64)
        ensures
            r == row_of(self.bytes_per_row, offset),
            r * self.bytes_per_row <= offset,
    {
        if self.bytes_per_row == 0 {
            return 0;
        }
        let b = self.bytes_per_row;
        assert((offset / b) * b <= offset) by (nonlinear_arith)
            requires
                b > 0,
        ;
        offset / b
    }

    /// First offset of the selection: the first byte of the first selected row in
    /// line mode, the smaller of anchor and cursor otherwise.
    pub fn selection_start(&self) -> (r: Option<u64>)
        ensures
            r == self.selection_start_spec(),
            r matches Some(s) ==> s <= self.offset && s <= self.selection_anchor->Some_0,
            r matches Some(s) ==> (self.selection_mode == SelectionMode::Line
                && self.bytes_per_row > 0 ==> s % self.bytes_per_row == 0),
    {
        let anchor = match self.selection_anchor {
            Some(a) => a,
            None => return None,
        };
        if self.selection_mode == SelectionMode::Line {
            let ra = self.row(anchor);
            let ro = self.row(self.offset);
            let start_row = if ra <= ro {
                ra
            } else {
                ro
            };
            let b = self.bytes_per_row;
            proof {
                assert(start_row * b <= ra * b && start_row * b <= ro * b) by (nonlinear_arith)
                    requires
                        start_row <= ra,
                        start_row <= ro,
                ;
                if b > 0 {
                    assert((start_row * b) % (b as int) == 0) by (nonlinear_arith)
                        requires
                            b > 0,
                    ;
                }
            }
            Some(start_row * b)
        } else {
            Some(if anchor <= self.offset {
                anchor
            } else {
                self.offset
            })
        }
    }

    /// Last offset of the selection in a file of `file_size` bytes: the last byte of
    /// the last selected row (but not past the file) in line mode, the larger of
    /// anchor and cursor otherwise.
    pub fn selection_end(&self, file_size: u64) -> (r: Option<u64>)
        requires
            self.line_end_fits(),
        ensures
            r == self.selection_end_spec(file_size),
            r matches Some(e) ==> (self.selection_mode != SelectionMode::Line ==> self.offset <= e
                && self.selection_anchor->Some_0 <= e),
    {
        let anchor = match self.selection_anchor {
            Some(a) => a,
            None => return None,
        };
        if self.selection_mode == SelectionMode::Line {
            let ra = self.row(anchor);
            let ro = self.row(self.offset);
            let end_row = if ra >= ro {
                ra
            } else {
                ro
            };
            let end = end_row * self.bytes_per_row + self.bytes_per_row - 1;
            let last = if file_size == 0 {
                0
            } else {
                file_size - 1
            };
            Some(if end <= last {
                end
            } else {
                last
            })
        } else {
            Some(if anchor >= self.offset {
                anchor
            } else {
                self.offset
            })
        }
    }

    /// Top row, bottom row, left column and right column of the block selection;
    /// columns count nibbles in nibble mode.
    pub fn block_bounds(&self, nibble_mode: bool) -> (r: (u64, u64, u64, u64))
        requires
            self.block_fits(nibble_mode),
        ensures
            r == self.block_bounds_spec(nibble_mode),
            r.0 <= r.1,
            r.2 <= r.3,
    {
        let anchor = match self.selection_anchor {
            Some(a) => a,
            None => self.offset,
        };
        let sub_anchor: u8 = match self.selection_sub_anchor {
            Some(s) => s,
            None => 0,
        };
        let anchor_col = if nibble_mode {
            (anchor % self.bytes_per_row) * 2 + sub_anchor as u64
        } else {
            anchor % self.bytes_per_row
        };
        let cursor_col = if nibble_mode {
            (self.offset % self.bytes_per_row) * 2 + self.sub_offset as u64
        } else {
            self.offset % self.bytes_per_row
        };
        let ra = self.row(anchor);
        let ro = self.row(self.offset);
        let top = if ra <= ro {
            ra
        } else {
            ro
        };
        let bottom = if ra >= ro {
            ra
        } else {
            ro
        };
        let left = if anchor_col <= cursor_col {
            anchor_col
        } else {
            cursor_col
        };
        let right = if anchor_col >= cursor_col {
            anchor_col
        } else {
            cursor_col
        };
        (top, bottom, left, right)
    }

    /// Whether byte `offset` (nibble `sub_offset` in nibble mode) is selected in a
    /// file of `file_size` bytes.
    pub fn in_selection(&self, offset: u64, file_size: u64, nibble_mode: bool, sub_offset: u8) -> (b:
        bool)
        requires
            self.selection_mode == SelectionMode::Block ==> self.block_fits(nibble_mode) && column(
                self.bytes_per_row,
                offset,
                nibble_mode,
                sub_offset,
            ) <= u64::MAX,
            self.line_end_fits(),
        ensures
            b == self.in_selection_spec(offset, file_size, nibble_mode, sub_offset),
    {
        match self.selection_mode {
            SelectionMode::Block => {
                let (top, bottom, left, right) = self.block_bounds(nibble_mode);
                let off_row = self.row(offset);
                if off_row < top || off_row > bottom {
                    return false;
                }
                let off_col = if nibble_mode {
                    (offset % self.bytes_per_row) * 2 + sub_offset as u64
                } else {
                    offset % self.bytes_per_row
                };
                off_col >= left && off_col <= right
            },
            SelectionMode::Off => false,
            _ => {
                let start = match self.selection_start() {
                    Some(s) => s,
                    None => return false,
                };
                let end = match self.selection_end(file_size) {
                    Some(e) => e,
                    None => return false,
                };
                offset >= start && offset <= end
            },
        }
    }

    /// Starts a selection of kind `mode` anchored at the cursor.
    pub fn start_selection(&mut self, mode: SelectionMode)
        ensures
            final(self).selection_anchor == Some(old(self).offset),
            final(self).selection_sub_anchor == Some(old(self).sub_offset),
            final(self).selection_mode == mode,
            final(self).offset == old(self).offset,
            final(self).sub_offset == old(self).sub_offset,
            final(self).bytes_per_row == old(self).bytes_per_row,
    {
        self.selection_anchor = Some(self.offset);
        self.selection_sub_anchor = Some(self.sub_offset);
        self.selection_mode = mode;
    }

    /// Drops the selection.
    pub fn clear_selection(&mut self)
        ensures
            final(self).selection_anchor is None,
            final(self).selection_sub_anchor is None,
            final(self).selection_mode == SelectionMode::Off,
            final(self).offset == old(self).offset,
            final(self).sub_offset == old(self).sub_offset,
            final(self).bytes_per_row == old(self).bytes_per_row,
    {
        self.selection_anchor = None;
        self.selection_sub_anchor = None;
        self.selection_mode = SelectionMode::Off;
    }

    /// First offset of the cursor's row (the cursor itself when rows are empty).
    pub fn current_row_start(&self) -> (r: u64)
        ensures
            r == if self.bytes_per_row == 0 {
                self.offset
            } else {
                ((self.offset / self.bytes_per_row) * self.bytes_per_row) as u64
            },
            r <= self.offset,
            self.bytes_per_row > 0 ==> r % self.bytes_per_row == 0 && self.offset - r
                < self.bytes_per_row,
    {
        if self.bytes_per_row == 0 {
            return self.offset;
        }
        let b = self.bytes_per_row;
        let o = self.offset;
        assert((o / b) * b <= o && ((o / b) * b) % (b as int) == 0 && o - (o / b) * b < b)
            by (nonlinear_arith)
            requires
                b > 0,
        ;
        (o / b) * b
    }

    /// Last offset of the cursor's row, but not past the last byte of a file of
    /// `file_size` bytes (the cursor itself when rows or the file are empty).
    pub fn current_row_end(&self, file_size: u64) -> (r: u64)
        requires
            self.bytes_per_row > 0 && file_size > 0 ==> (self.offset / self.bytes_per_row)
                * self.bytes_per_row + self.bytes_per_row <= u64::MAX,
        ensures
            r == if self.bytes_per_row == 0 || file_size == 0 {
                self.offset
            } else {
                min_u64(
                    ((self.offset / self.bytes_per_row) * self.bytes_per_row
                        + self.bytes_per_row - 1) as u64,
                    (file_size - 1) as u64,
                )
            },
    {
        if self.bytes_per_row == 0 || file_size == 0 {
            return self.offset;
        }
        let row_end = self.current_row_start() + self.bytes_per_row - 1;
        if row_end <= file_size - 1 {
            row_end
        } else {
            file_size - 1
        }
    }
}

} // verus!
