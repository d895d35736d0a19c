//! Whether a key can be handled: the conditions under which `App::handle_key`
//! runs without an arithmetic fault or a pattern it cannot read, checked at run
//! time for callers that cannot prove them.
use vstd::prelude::*;

use crate::command_mode::command_readable;
use crate::cursor::{Cursor, SelectionMode, max_u64, row_of};
use crate::editor::{App, KeyCode, KeyEvent, Mode, row_negatable, page_fits};
use crate::search::Searcher;
use crate::text::{string_of, trim_chars, has_prefix, chars_from, chars_to, find_char};

verus! {

fn row_negatable_now(bpr: u64) -> (b: bool)
    ensures
        b == row_negatable(bpr),
{
    (bpr as i64) != i64::MIN
}

fn page_fits_now(bpr: u64) -> (b: bool)
    ensures
        b == page_fits(bpr),
{
    let p = (bpr as i64) as i128 * 8;
    (i64::MIN as i128) < p && p <= (i64::MAX as i128)
}

pub(crate) fn line_end_fits_now(c: &Cursor) -> (b: bool)
    ensures
        b == c.line_end_fits(),
{
    if c.selection_mode == SelectionMode::Line {
        if let Some(a) = c.selection_anchor {
            let bpr = c.bytes_per_row;
            if bpr == 0 {
                return false;
            }
            let ra = a / bpr;
            let ro = c.offset / bpr;
            let end_row = if ra >= ro {
                ra
            } else {
                ro
            };
            assert(end_row == max_u64(row_of(bpr, a), row_of(bpr, c.offset)));
            assert((end_row as int) * (bpr as int) <= (u64::MAX as int) * (u64::MAX as int))
                by (nonlinear_arith)
                requires
                    end_row <= u64::MAX,
                    bpr <= u64::MAX,
            ;
            let prod = (end_row as u128) * (bpr as u128);
            return prod + (bpr as u128) <= (u64::MAX as u128);
        }
    }
    true
}

impl App {
    pub(crate) fn span_ok_now(&self) -> (b: bool)
        ensures
            b == Self::span_ok(self.cursor, self.buffer@.len() as u64),
    {
        if !line_end_fits_now(&self.cursor) {
            return false;
        }
        match self.selection_bounds() {
            Some((s, e)) => s <= e && e - s < u64::MAX,
            None => true,
        }
    }

    fn nibble_span_ok_now(&self) -> (b: bool)
        ensures
            b == self.nibble_span_ok(),
    {
        let a = match self.cursor.selection_anchor {
            Some(x) => x,
            None => self.cursor.offset,
        };
        let sa = match self.cursor.selection_sub_anchor {
            Some(x) => x,
            None => 0,
        };
        let an = (a as u128) * 2 + (sa as u128);
        let cn = (self.cursor.offset as u128) * 2 + (self.cursor.sub_offset as u128);
        let lo = if an <= cn {
            an
        } else {
            cn
        };
        let hi = if an >= cn {
            an
        } else {
            cn
        };
        an <= (u64::MAX as u128) && cn <= (u64::MAX as u128) && lo / 2 <= (self.buffer.len() as u128)
            && hi - lo < (usize::MAX as u128)
    }

    fn normal_key_ok_now(&self, key: KeyEvent, now: u64) -> (b: bool)
        ensures
            b == self.normal_key_ok(key, now),
    {
        let len = self.buffer.len();
        let c = &self.cursor;
        match key.code {
            KeyCode::Up | KeyCode::Char('k') => row_negatable_now(c.bytes_per_row),
            KeyCode::Char('d') => if key.ctrl {
                page_fits_now(c.bytes_per_row)
            } else {
                let tap = self.last_key.0 == KeyCode::Char('d') && (if now >= self.last_key.1 {
                    now - self.last_key.1
                } else {
                    0
                }) < crate::editor::DOUBLE_TAP_MS;
                if tap {
                    let rs = c.current_row_start();
                    (rs as u128) + (c.bytes_per_row as u128) <= (u64::MAX as u128) && rs <= len
                } else {
                    true
                }
            },
            KeyCode::Char('u') => !key.ctrl || page_fits_now(c.bytes_per_row),
            KeyCode::Char('x') => !(len > 0 && self.nibble_mode) || c.offset <= len,
            KeyCode::Char('a') => !(self.nibble_mode && c.sub_offset != 0) || c.offset < u64::MAX,
            KeyCode::Char('$') => !(c.bytes_per_row > 0 && len > 0) || (c.current_row_start() as u128)
                + (c.bytes_per_row as u128) <= (u64::MAX as u128),
            KeyCode::Char('y') => self.span_ok_now(),
            KeyCode::Char('p') => self.clipboard.len() == 0 || c.offset < u64::MAX,
            KeyCode::Char('n') => self.search_results.len() == 0 || self.search_index < usize::MAX,
            KeyCode::Char('N') => !(self.search_results.len() > 0 && self.search_index != 0)
                || self.search_index - 1 < self.search_results.len(),
            _ => true,
        }
    }

    fn command_readable_now(&self) -> (b: bool)
        ensures
            b == command_readable(crate::text::trimmed(self.command_line@)),
    {
        let t = trim_chars(self.command_line.as_slice());
        let subst: [char; 3] = ['%', 's', '/'];
        assert(subst@ == seq!['%', 's', '/']);
        if !has_prefix(t.as_slice(), &subst) {
            return true;
        }
        let rest = chars_from(t.as_slice(), 3);
        match find_char(rest.as_slice(), '/') {
            Some(k) => {
                proof {
                    crate::text::lemma_first_index(rest@, '/', k as int);
                }
                let find_s = string_of(chars_to(rest.as_slice(), k).as_slice());
                let repl_s = string_of(chars_from(rest.as_slice(), k + 1).as_slice());
                Searcher::hex_pattern_is_readable(find_s.as_str())
                    && Searcher::hex_pattern_is_readable(repl_s.as_str())
            },
            None => {
                assert(crate::text::first_index_of(rest@, '/') is None);
                true
            },
        }
    }

    /// Whether `key`, pressed at time `now`, can be handled: `handle_key` may be
    /// called exactly when this holds.
    pub fn key_acceptable(&self, key: KeyEvent, now: u64) -> (b: bool)
        ensures
            b == self.key_ok(key, now),
    {
        match self.mode {
            Mode::Normal => self.show_help || self.normal_key_ok_now(key, now),
            Mode::Insert => {
                if key.code == KeyCode::Backspace && self.nibble_mode && (self.cursor.offset > 0
                    || self.cursor.sub_offset > 0) {
                    let o = if self.cursor.sub_offset == 0 {
                        self.cursor.offset - 1
                    } else {
                        self.cursor.offset
                    };
                    o <= self.buffer.len()
                } else {
                    true
                }
            },
            Mode::VisualChar | Mode::VisualLine | Mode::VisualBlock => match key.code {
                KeyCode::Up | KeyCode::Char('k') => row_negatable_now(self.cursor.bytes_per_row),
                KeyCode::Char('d') | KeyCode::Char('x') => if self.mode == Mode::VisualBlock {
                    self.block_ok_now()
                } else if self.nibble_mode {
                    self.nibble_span_ok_now()
                } else {
                    self.span_ok_now()
                },
                KeyCode::Char('y') => if self.mode == Mode::VisualBlock {
                    self.block_ok_now()
                } else {
                    self.span_ok_now()
                },
                _ => true,
            },
            Mode::Command => key.code != KeyCode::Enter || self.command_readable_now(),
            Mode::Search => {
                if key.code == KeyCode::Enter {
                    let q = string_of(self.command_line.as_slice());
                    Searcher::hex_pattern_is_readable(q.as_str())
                } else {
                    true
                }
            },
            _ => true,
        }
    }
}

} // verus!
