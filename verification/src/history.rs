//! The undo history always matches the buffer: whatever keys are pressed, the
//! recorded edits can be taken back one by one, each giving back the contents
//! from before it, and the undone edits can be applied again.
use vstd::prelude::*;

use crate::buffer::{nibble_deleted, nibble_inserted};
use crate::commands::{EditCommand, lemma_undo_reverts_apply, lemma_apply_reverts_undo, holds_at};
use crate::editor::{App, Effect, KeyCode, KeyEvent, Mode, is_delete, is_insert, is_overwrite, read_or_empty, char_digit, unit_of};
use crate::search::{hex_pattern, hex_bytes, hex_matches, lemma_hex_matches_fit};
use crate::text::{first_index_of, trimmed};
use crate::undo::{push_step, undo_step, redo_step};
use crate::command_mode::{written_back, pushed_all, lemma_written_back_len};
use crate::visual_mode::nibbles_deleted;
use crate::block_mode::{zeroed_first, cells_deleted, lemma_cells_deleted_prefix};

verus! {

/// The undo stack `u` (oldest first) matches bytes `d`: its newest edit records what
/// it wrote to `d` and can be taken back, and the rest of the stack matches what
/// that gives.
pub open spec fn undo_ok(u: Seq<EditCommand>, d: Seq<u8>) -> bool
    decreases u.len(),
{
    if u.len() == 0 {
        true
    } else {
        let c = u.last();
        &&& c.recorded_after(d)
        &&& c.undo_spec(d) is Ok
        &&& c.undo_spec(d)->Ok_0.len() <= u64::MAX
        &&& undo_ok(u.drop_last(), c.undo_spec(d)->Ok_0)
    }
}

/// The redo stack `r` (next to redo last) matches bytes `d`: its next edit records
/// what it replaces in `d` and can be applied, and the rest of the stack matches
/// what that gives.
pub open spec fn redo_ok(r: Seq<EditCommand>, d: Seq<u8>) -> bool
    decreases r.len(),
{
    if r.len() == 0 {
        true
    } else {
        let c = r.last();
        &&& c.recorded_before(d)
        &&& c.apply_spec(d) is Ok
        &&& c.apply_spec(d)->Ok_0.len() <= u64::MAX
        &&& redo_ok(r.drop_last(), c.apply_spec(d)->Ok_0)
    }
}

/// The editor's history matches its buffer.
pub open spec fn history_ok(a: App) -> bool {
    undo_ok(a.undo.undo_spec(), a.buffer@) && redo_ok(a.undo.redo_spec(), a.buffer@)
}

/// Forgetting the oldest edit keeps the stack matching.
proof fn lemma_undo_ok_drop_first(s: Seq<EditCommand>, d: Seq<u8>)
    requires
        undo_ok(s, d),
        s.len() >= 1,
    ensures
        undo_ok(s.drop_first(), d),
    decreases s.len(),
{
    if s.len() >= 2 {
        let c = s.last();
        let t = s.drop_first();
        assert(t.last() == c);
        assert(t.drop_last() =~= s.drop_last().drop_first());
        lemma_undo_ok_drop_first(s.drop_last(), c.undo_spec(d)->Ok_0);
    } else {
        assert(s.drop_first().len() == 0);
    }
}

/// Recording an edit that was applied to `d`, giving `e`, keeps the undo stack
/// matching.
proof fn lemma_undo_ok_push(u: Seq<EditCommand>, max: nat, c: EditCommand, d: Seq<u8>, e: Seq<u8>)
    requires
        undo_ok(u, d),
        c.recorded_before(d),
        c.apply_spec(d) == Ok::<Seq<u8>, Seq<char>>(e),
        d.len() <= u64::MAX,
        e.len() <= u64::MAX,
    ensures
        undo_ok(push_step(u, max, c), e),
{
    lemma_undo_reverts_apply(c, d);
    let s = u.push(c);
    assert(s.last() == c);
    assert(s.drop_last() =~= u);
    assert(undo_ok(s, e));
    if s.len() > max {
        lemma_undo_ok_drop_first(s, e);
    }
}

/// Recording an edit applied to the buffer of `old` keeps the history matching:
/// the new edit goes on the undo stack and the redo stack is emptied.
pub proof fn lemma_history_push(old: App, new: App, c: EditCommand)
    requires
        history_ok(old),
        c.recorded_before(old.buffer@),
        c.apply_spec(old.buffer@) == Ok::<Seq<u8>, Seq<char>>(new.buffer@),
        new.undo.undo_spec() == push_step(old.undo.undo_spec(), old.undo.max_depth_spec(), c),
        new.undo.redo_spec() == Seq::<EditCommand>::empty(),
    ensures
        history_ok(new),
{
    old.buffer.lemma_len_fits();
    new.buffer.lemma_len_fits();
    lemma_undo_ok_push(
        old.undo.undo_spec(),
        old.undo.max_depth_spec(),
        c,
        old.buffer@,
        new.buffer@,
    );
}

/// A step of the editor that leaves the bytes and both stacks alone keeps the
/// history matching.
pub proof fn lemma_history_frame(old: App, new: App)
    requires
        history_ok(old),
        new.buffer@ == old.buffer@,
        new.undo.undo_spec() == old.undo.undo_spec(),
        new.undo.redo_spec() == old.undo.redo_spec(),
    ensures
        history_ok(new),
{
}

/// An edit that a key applied and recorded keeps the history matching, when on
/// success it records what it replaced.
pub proof fn lemma_history_applied(old: App, new: App, c: EditCommand, r: Result<(), Seq<char>>)
    requires
        history_ok(old),
        App::applied(old, new, c, r),
        r is Ok ==> c.recorded_before(old.buffer@),
    ensures
        history_ok(new),
{
    if r is Ok {
        lemma_history_push(old, new, c);
    }
}

/// Deleting what a read of `n` bytes at `o` returned, when the delete succeeds,
/// deletes bytes that are there.
proof fn lemma_read_then_delete(d: Seq<u8>, o: u64, n: int, c: EditCommand)
    requires
        is_delete(c, o, read_or_empty(d, o, n)),
        c.apply_spec(d) is Ok,
        n >= 0,
    ensures
        c.recorded_before(d),
{
    let b = read_or_empty(d, o, n);
    if b.len() > 0 {
        assert(d.subrange(o as int, o + b.len()) =~= b);
    } else {
        assert(d.subrange(o as int, o as int) =~= b);
    }
}

/// Overwriting the byte a read at `o` returned, when the write succeeds, records
/// the byte that was there.
proof fn lemma_read_then_overwrite(d: Seq<u8>, o: u64, b: u8, c: EditCommand)
    requires
        is_overwrite(c, o, read_or_empty(d, o, 1), seq![b]),
        c.apply_spec(d) is Ok,
    ensures
        c.recorded_before(d),
{
    assert(d.subrange(o as int, o + 1) =~= read_or_empty(d, o, 1));
}

/// A byte written over the byte at `o` keeps the history matching.
pub proof fn lemma_history_byte_written(old: App, new: App, o: u64, b: u8, r: Result<(), Seq<char>>)
    requires
        history_ok(old),
        App::byte_written(old, new, o, b, r),
    ensures
        history_ok(new),
{
    let c = choose|c: EditCommand|
        is_overwrite(c, o, read_or_empty(old.buffer@, o, 1), seq![b]) && #[trigger] App::applied(
            old,
            new,
            c,
            r,
        );
    if r is Ok {
        lemma_read_then_overwrite(old.buffer@, o, b, c);
    }
    lemma_history_applied(old, new, c, r);
}

/// Bytes inserted at `o` keep the history matching.
pub proof fn lemma_history_bytes_inserted(old: App, new: App, o: u64, bytes: Seq<u8>, r: Result<(), Seq<char>>)
    requires
        history_ok(old),
        App::bytes_inserted(old, new, o, bytes, r),
    ensures
        history_ok(new),
{
    let c = choose|c: EditCommand| is_insert(c, o, bytes) && #[trigger] App::applied(old, new, c, r);
    lemma_history_applied(old, new, c, r);
}

/// The bytes a read of `n` at `o` returned, deleted, keep the history matching.
pub proof fn lemma_history_read_deleted(old: App, new: App, o: u64, n: int, r: Result<(), Seq<char>>)
    requires
        history_ok(old),
        n >= 0,
        exists|c: EditCommand|
            is_delete(c, o, read_or_empty(old.buffer@, o, n)) && #[trigger] App::applied(
                old,
                new,
                c,
                r,
            ),
    ensures
        history_ok(new),
{
    let c = choose|c: EditCommand|
        is_delete(c, o, read_or_empty(old.buffer@, o, n)) && #[trigger] App::applied(old, new, c, r);
    if r is Ok {
        lemma_read_then_delete(old.buffer@, o, n, c);
    }
    lemma_history_applied(old, new, c, r);
}

/// A nibble edit of the bytes from `o` on that keeps the length and the bytes
/// before `o`, recorded as an overwrite of the tail, keeps the history matching.
pub proof fn lemma_history_nibble_edited(old: App, new: App, o: u64, d: Seq<u8>)
    requires
        history_ok(old),
        App::nibble_edited(old, new, o, d),
        o <= old.buffer@.len(),
        d.len() == old.buffer@.len(),
        d.take(o as int) == old.buffer@.take(o as int),
    ensures
        history_ok(new),
{
    let b = old.buffer@;
    let c = choose|c: EditCommand|
        is_overwrite(c, o, b.skip(o as int), d.skip(o as int)) && #[trigger] App::recorded(
            old,
            new,
            c,
        );
    old.buffer.lemma_len_fits();
    assert(b.subrange(o as int, o + (b.len() - o)) =~= b.skip(o as int));
    assert(b.take(o as int) + d.skip(o as int) + b.skip(o + (b.len() - o)) =~= d);
    lemma_history_push(old, new, c);
}

/// A nibble set of the byte at `o` keeps the history matching.
pub proof fn lemma_history_nibble_set(old: App, new: App, o: u64, nibble: u8, dg: u8, r: Result<(), Seq<char>>)
    requires
        history_ok(old),
        o < old.buffer@.len(),
        App::nibble_set_post(old, new, o, nibble, dg, r),
    ensures
        history_ok(new),
{
    if nibble <= 1 {
        let d = old.buffer@;
        let b = d[o as int];
        let nb = crate::edit_modes::with_nibble(b, nibble, dg);
        let c = choose|c: EditCommand| is_overwrite(c, o, seq![b], seq![nb]) && #[trigger] App::recorded(old, new, c);
        old.buffer.lemma_len_fits();
        assert(d.subrange(o as int, o + 1) =~= seq![b]);
        assert(d.take(o as int) + seq![nb] + d.skip(o + 1) =~= d.update(o as int, nb));
        lemma_history_push(old, new, c);
    }
}

/// Undo and redo keep the history matching.
pub proof fn lemma_history_steps(old: App, new: App, r: Result<(), Seq<char>>)
    requires
        history_ok(old),
        App::history_post(
            old,
            new,
            undo_step(old.undo.undo_spec(), old.undo.redo_spec(), old.buffer@),
            r,
        ) || App::history_post(
            old,
            new,
            redo_step(old.undo.undo_spec(), old.undo.redo_spec(), old.buffer@),
            r,
        ),
    ensures
        history_ok(new),
{
    let u = old.undo.undo_spec();
    let rd = old.undo.redo_spec();
    let d = old.buffer@;
    old.buffer.lemma_len_fits();
    if App::history_post(old, new, undo_step(u, rd, d), r) && u.len() > 0 {
        let c = u.last();
        lemma_apply_reverts_undo(c, d);
        let s = rd.push(c);
        assert(s.last() == c);
        assert(s.drop_last() =~= rd);
    }
    if App::history_post(old, new, redo_step(u, rd, d), r) && rd.len() > 0 {
        let c = rd.last();
        lemma_undo_reverts_apply(c, d);
        let s = u.push(c);
        assert(s.last() == c);
        assert(s.drop_last() =~= u);
    }
}

/// Deleting a nibble leaves the bytes before it and the length alone.
pub proof fn lemma_nibble_deleted_prefix(d: Seq<u8>, off: int, nibble: u8)
    requires
        0 <= off <= d.len(),
    ensures
        nibble_deleted(d, off, nibble).len() == d.len(),
        nibble_deleted(d, off, nibble).take(off) == d.take(off),
{
    assert(nibble_deleted(d, off, nibble).take(off) =~= d.take(off));
}

/// Inserting a nibble leaves the bytes before it and the length alone.
pub proof fn lemma_nibble_inserted_prefix(d: Seq<u8>, off: int, nibble: u8, dg: u8)
    requires
        0 <= off <= d.len(),
    ensures
        nibble_inserted(d, off, nibble, dg).len() == d.len(),
        nibble_inserted(d, off, nibble, dg).take(off) == d.take(off),
{
    assert(nibble_inserted(d, off, nibble, dg).take(off) =~= d.take(off));
}

/// Deleting a nibble `k` times leaves the bytes before it and the length alone.
pub proof fn lemma_nibbles_deleted_prefix(d: Seq<u8>, off: int, nibble: u8, k: nat)
    requires
        0 <= off <= d.len(),
    ensures
        nibbles_deleted(d, off, nibble, k).len() == d.len(),
        nibbles_deleted(d, off, nibble, k).take(off) == d.take(off),
    decreases k,
{
    if k > 0 {
        lemma_nibbles_deleted_prefix(d, off, nibble, (k - 1) as nat);
        let e = nibbles_deleted(d, off, nibble, (k - 1) as nat);
        lemma_nibble_deleted_prefix(e, off, nibble);
    }
}

/// The replacements of a substitution, recorded one by one, keep the undo stack
/// matching at every step.
proof fn lemma_substitution_steps(
    u0: Seq<EditCommand>,
    max: nat,
    cs: Seq<EditCommand>,
    d: Seq<u8>,
    offs: Seq<u64>,
    rb: Seq<u8>,
    j: nat,
)
    requires
        undo_ok(u0, d),
        d.len() <= u64::MAX,
        j <= offs.len(),
        cs.len() == offs.len(),
        forall|i: int| 0 <= i < offs.len() ==> #[trigger] offs[i] + rb.len() <= d.len(),
        forall|i: int|
            0 <= i < offs.len() ==> is_overwrite(
                #[trigger] cs[i],
                offs[offs.len() - 1 - i],
                written_back(d, offs, rb, i as nat).subrange(
                    offs[offs.len() - 1 - i] as int,
                    offs[offs.len() - 1 - i] + rb.len(),
                ),
                rb,
            ),
    ensures
        undo_ok(pushed_all(u0, max, cs.take(j as int)), written_back(d, offs, rb, j)),
    decreases j,
{
    if j == 0 {
        assert(cs.take(0) =~= Seq::<EditCommand>::empty());
    } else {
        let k = (j - 1) as nat;
        lemma_substitution_steps(u0, max, cs, d, offs, rb, k);
        lemma_written_back_len(d, offs, rb, k);
        lemma_written_back_len(d, offs, rb, j);
        let n = offs.len();
        let wb = written_back(d, offs, rb, k);
        let c = cs[k as int];
        let o = offs[n - 1 - k];
        assert(o + rb.len() <= d.len());
        assert(cs.take(j as int).drop_last() =~= cs.take(k as int));
        assert(cs.take(j as int).last() == c);
        assert(holds_at(wb, o as int, wb.subrange(o as int, o + rb.len())));
        lemma_undo_ok_push(
            pushed_all(u0, max, cs.take(k as int)),
            max,
            c,
            wb,
            written_back(d, offs, rb, j),
        );
    }
}

/// A substitution keeps the history matching.
pub proof fn lemma_history_substituted(old: App, new: App, offs: Seq<u64>, rb: Seq<u8>)
    requires
        history_ok(old),
        App::substituted(old, new, offs, rb),
        forall|i: int| 0 <= i < offs.len() ==> #[trigger] offs[i] + rb.len() <= old.buffer@.len(),
    ensures
        history_ok(new),
{
    let n = offs.len();
    let d = old.buffer@;
    let u0 = old.undo.undo_spec();
    let max = old.undo.max_depth_spec();
    let cs = choose|cs: Seq<EditCommand>|
        {
            &&& cs.len() == n
            &&& forall|j: int|
                0 <= j < n ==> is_overwrite(
                    #[trigger] cs[j],
                    offs[n - 1 - j],
                    written_back(d, offs, rb, j as nat).subrange(
                        offs[n - 1 - j] as int,
                        offs[n - 1 - j] + rb.len(),
                    ),
                    rb,
                )
            &&& new.undo.undo_spec() == #[trigger] pushed_all(u0, max, cs)
        };
    old.buffer.lemma_len_fits();
    lemma_substitution_steps(u0, max, cs, d, offs, rb, n);
    assert(cs.take(n as int) =~= cs);
}

/// Zeroing the first `k` cells in turn writes a zero at the last `k` offsets of
/// the cells' offsets taken in reverse, the last one first.
proof fn lemma_zeroed_is_written_back(d: Seq<u8>, cells: Seq<(u64, u8)>, offs: Seq<u64>, k: nat)
    requires
        k <= cells.len(),
        offs == Seq::new(cells.len(), |i: int| cells[cells.len() - 1 - i].0),
    ensures
        zeroed_first(d, cells, k) == written_back(d, offs, seq![0u8], k),
    decreases k,
{
    if k > 0 {
        lemma_zeroed_is_written_back(d, cells, offs, (k - 1) as nat);
        assert(offs[offs.len() - k] == cells[k - 1].0);
    }
}

/// Zeroing the bytes of a block, each write recorded, keeps the history matching.
pub proof fn lemma_history_block_zeroed(old: App, new: App)
    requires
        history_ok(old),
        App::block_zero_post(old, new),
    ensures
        history_ok(new),
{
    let d = old.buffer@;
    let cells = old.block_cells();
    let n = cells.len();
    let u0 = old.undo.undo_spec();
    let max = old.undo.max_depth_spec();
    let rb = seq![0u8];
    let cs = choose|cs: Seq<EditCommand>|
        {
            &&& cs.len() == n
            &&& forall|j: int|
                0 <= j < n ==> is_overwrite(
                    #[trigger] cs[j],
                    cells[j].0,
                    seq![zeroed_first(d, cells, j as nat)[cells[j].0 as int]],
                    seq![0u8],
                )
            &&& new.undo.undo_spec() == #[trigger] pushed_all(u0, max, cs)
        };
    old.lemma_block_cells_bounds();
    old.buffer.lemma_len_fits();
    let offs = Seq::new(n, |i: int| cells[n - 1 - i].0);
    assert forall|i: int| 0 <= i < offs.len() implies #[trigger] offs[i] + rb.len() <= d.len() by {
        assert(cells[n - 1 - i].0 < d.len());
    }
    assert forall|i: int|
        0 <= i < offs.len() implies is_overwrite(
        #[trigger] cs[i],
        offs[offs.len() - 1 - i],
        written_back(d, offs, rb, i as nat).subrange(
            offs[offs.len() - 1 - i] as int,
            offs[offs.len() - 1 - i] + rb.len(),
        ),
        rb,
    ) by {
        lemma_zeroed_is_written_back(d, cells, offs, i as nat);
        lemma_written_back_len(d, offs, rb, i as nat);
        let wb = written_back(d, offs, rb, i as nat);
        let o = offs[offs.len() - 1 - i];
        assert(o == cells[i].0);
        assert(cells[i].0 < d.len());
        assert(wb.subrange(o as int, o + 1) =~= seq![wb[o as int]]);
    }
    lemma_substitution_steps(u0, max, cs, d, offs, rb, n);
    lemma_zeroed_is_written_back(d, cells, offs, n);
    assert(cs.take(n as int) =~= cs);
}

/// Deleting the nibbles of a block, recorded as one overwrite of the bytes from
/// its top-left cell on, keeps the history matching.
pub proof fn lemma_history_block_nibbles(old: App, new: App)
    requires
        history_ok(old),
        App::block_nibble_post(old, new),
    ensures
        history_ok(new),
{
    let cells = old.block_cells();
    let n = cells.len();
    if n > 0 {
        let d = old.buffer@;
        let f = old.block_start();
        old.lemma_block_cells_bounds();
        old.buffer.lemma_len_fits();
        assert(f <= cells[0].0 < d.len());
        let (t, b, l, r) = old.cursor.block_bounds_spec(old.nibble_mode);
        assert(0 <= t * old.cursor.bytes_per_row) by (nonlinear_arith);
        lemma_cells_deleted_prefix(d, cells, n, f);
        lemma_history_nibble_edited(old, new, f as u64, cells_deleted(d, cells, n));
    }
}

/// A character key in Normal mode keeps the history matching.
proof fn lemma_normal_char_keeps(old: App, new: App, ch: char, ctrl: bool, now: u64, r: Result<(), Seq<char>>)
    requires
        history_ok(old),
        App::normal_char_post(old, new, ch, ctrl, now, r),
    ensures
        history_ok(new),
{
    let d = old.buffer@;
    let c = old.cursor;
    if ch == 'd' && ctrl || ch == 'u' && ctrl || ch == 'g' || ch == 'G' {
    } else if ch == 'x' {
        if d.len() > 0 {
            if old.nibble_mode {
                if c.offset < d.len() {
                    lemma_nibble_deleted_prefix(d, c.offset as int, c.sub_offset);
                    lemma_history_nibble_edited(
                        old,
                        new,
                        c.offset,
                        nibble_deleted(d, c.offset as int, c.sub_offset),
                    );
                }
            } else {
                lemma_history_read_deleted(old, new, c.offset, 1, r);
            }
        }
    } else if ch == 'd' {
        let rs = App::row_start(c);
        let re = if rs + c.bytes_per_row <= d.len() {
            rs + c.bytes_per_row
        } else {
            d.len() as int
        };
        if old.double_tap('d', now) && re - rs > 0 {
            let cmd = choose|cmd: EditCommand|
                is_delete(cmd, rs, d.subrange(rs as int, re)) && #[trigger] App::recorded(
                    old,
                    new,
                    cmd,
                );
            old.buffer.lemma_len_fits();
            assert(holds_at(d, rs as int, d.subrange(rs as int, re)));
            lemma_history_push(old, new, cmd);
        }
    } else if ch == 'r' && ctrl {
        lemma_history_steps(old, new, r);
    } else if ch == 'p' || ch == 'P' {
        if old.clipboard@.len() > 0 {
            let at = if ch == 'p' {
                (c.offset + 1) as u64
            } else {
                c.offset
            };
            let cmd = choose|cmd: EditCommand|
                is_insert(cmd, at, old.clipboard@) && #[trigger] App::applied(old, new, cmd, r);
            lemma_history_applied(old, new, cmd, r);
        }
    } else if ch == 'u' {
        lemma_history_steps(old, new, r);
    }
}

/// Every key in Normal mode keeps the history matching.
proof fn lemma_normal_keeps(old: App, new: App, key: KeyEvent, now: u64, r: Result<(), Seq<char>>)
    requires
        history_ok(old),
        App::normal_post(old, new, key, now, r),
    ensures
        history_ok(new),
{
    if !old.show_help && App::motion(old, key.code) is None {
        if let KeyCode::Char(ch) = key.code {
            lemma_normal_char_keeps(old, new, ch, key.ctrl, now, r);
        }
    }
}

/// Every key in Insert mode keeps the history matching.
proof fn lemma_insert_keeps(old: App, new: App, key: KeyEvent, r: Result<(), Seq<char>>)
    requires
        history_ok(old),
        App::insert_post(old, new, key, r),
    ensures
        history_ok(new),
{
    let d = old.buffer@;
    let c = old.cursor;
    match key.code {
        KeyCode::Char(ch) => {
            if old.nibble_mode {
                if let Some(dg) = char_digit(ch) {
                    if c.offset >= d.len() {
                        lemma_history_bytes_inserted(old, new, c.offset, seq![(dg << 4) as u8], r);
                    } else {
                        lemma_nibble_inserted_prefix(d, c.offset as int, c.sub_offset, dg);
                        lemma_history_nibble_edited(
                            old,
                            new,
                            c.offset,
                            nibble_inserted(d, c.offset as int, c.sub_offset, dg),
                        );
                    }
                }
            } else {
                let b = crate::editor::char_byte(ch);
                lemma_history_bytes_inserted(old, new, c.offset, seq![b], r);
            }
        },
        KeyCode::Backspace => {
            if old.nibble_mode {
                if c.offset > 0 || c.sub_offset > 0 {
                    let c2 = if c.sub_offset == 0 {
                        crate::cursor::Cursor { offset: (c.offset - 1) as u64, sub_offset: 1, ..c }
                    } else {
                        crate::cursor::Cursor { sub_offset: 0, ..c }
                    };
                    let mid = App { cursor: c2, ..old };
                    if c2.offset < d.len() {
                        lemma_nibble_deleted_prefix(d, c2.offset as int, c2.sub_offset);
                        lemma_history_nibble_edited(
                            mid,
                            new,
                            c2.offset,
                            nibble_deleted(d, c2.offset as int, c2.sub_offset),
                        );
                    }
                }
            } else if c.offset > 0 {
                lemma_history_read_deleted(old, new, (c.offset - 1) as u64, 1, r);
            }
        },
        _ => {},
    }
}

/// Every key in the replace modes keeps the history matching.
proof fn lemma_replace_keeps(old: App, new: App, key: KeyEvent, r: Result<(), Seq<char>>)
    requires
        history_ok(old),
        App::replace_post(old, new, key, r) || App::replace_once_post(old, new, key, r),
    ensures
        history_ok(new),
{
    let d = old.buffer@;
    let o = old.cursor.offset;
    if let KeyCode::Char(ch) = key.code {
        if o < d.len() {
            if old.nibble_mode {
                if let Some(dg) = char_digit(ch) {
                    if App::replace_post(old, new, key, r) {
                        lemma_history_nibble_set(
                            old,
                            App { cursor: old.cursor, ..new },
                            o,
                            old.cursor.sub_offset,
                            dg,
                            r,
                        );
                    } else {
                        lemma_history_nibble_set(
                            old,
                            App { mode: old.mode, ..new },
                            o,
                            old.cursor.sub_offset,
                            dg,
                            r,
                        );
                    }
                }
            } else {
                lemma_history_byte_written(old, new, o, crate::editor::char_byte(ch), r);
            }
        }
    }
}

/// Every key in the Visual modes keeps the history matching.
proof fn lemma_visual_keeps(old: App, new: App, key: KeyEvent, r: Result<(), Seq<char>>)
    requires
        history_ok(old),
        App::visual_post(old, new, key, r),
    ensures
        history_ok(new),
{
    let d = old.buffer@;
    if App::motion(old, key.code) is None && (key.code == KeyCode::Char('d') || key.code
        == KeyCode::Char('x')) {
        if old.mode == Mode::VisualBlock {
            if old.nibble_mode {
                lemma_history_block_nibbles(old, new);
            } else {
                lemma_history_block_zeroed(old, new);
            }
        } else if old.nibble_mode {
            let (sn, en) = crate::visual_mode::nibble_range(old.cursor);
            let sb = (sn / 2) as u64;
            let total = (en - sn + 1) as usize;
            if sb < d.len() {
                lemma_nibbles_deleted_prefix(d, sb as int, (sn % 2) as u8, total as nat);
                lemma_history_nibble_edited(
                    old,
                    new,
                    sb,
                    nibbles_deleted(d, sb as int, (sn % 2) as u8, total as nat),
                );
            }
        } else if let Some((s, e)) = App::selection_span(old.cursor, d.len() as u64) {
            lemma_history_read_deleted(old, new, s, (e - s + 1) as usize as int, r);
        }
    }
}

/// A `:%s/` command keeps the history matching.
proof fn lemma_substitute_keeps(old: App, new: App, rest: Seq<char>)
    requires
        history_ok(old),
        App::substitute_post(old, new, rest),
    ensures
        history_ok(new),
{
    if let Some(k) = first_index_of(rest, '/') {
        if let (Some(pat), Some(rb)) = (
            hex_pattern(vstd::utf8::encode_utf8(rest.take(k))),
            hex_bytes(vstd::utf8::encode_utf8(rest.skip(k + 1))),
        ) {
            if rb.len() == pat.len() {
                old.buffer.lemma_len_fits();
                lemma_hex_matches_fit(old.buffer@, pat);
                lemma_history_substituted(old, new, hex_matches(old.buffer@, pat), rb);
            }
        }
    }
}

/// A command keeps the history matching.
proof fn lemma_command_post_keeps(old: App, new: App, t: Seq<char>, r: Result<Effect, String>)
    requires
        history_ok(old),
        App::command_post(old, new, t, r),
    ensures
        history_ok(new),
{
    if crate::command_mode::starts_with(t, seq!['%', 's', '/']) && !(t == seq!['q'] || t == seq![
        'q',
        '!',
    ] || t == seq!['w'] || t == seq!['w', 'q'] || crate::command_mode::starts_with(t, seq!['w', ' '])
        || crate::command_mode::starts_with(t, seq!['e', ' '])) && t.len() > 0 {
        lemma_substitute_keeps(old, new, t.skip(3));
    }
}

/// Every key in Command mode keeps the history matching.
proof fn lemma_command_keeps(old: App, new: App, key: KeyEvent, r: Result<Effect, String>)
    requires
        history_ok(old),
        App::command_key_post(old, new, key, r),
    ensures
        history_ok(new),
{
    if key.code == KeyCode::Enter {
        let mid = App { mode: Mode::Normal, command_line: new.command_line, ..old };
        lemma_command_post_keeps(mid, new, trimmed(old.command_line@), r);
    }
}

/// Every key keeps the undo history matching the buffer: after any key, the
/// recorded edits can still be taken back one by one, each giving back the
/// contents from before it, and the undone edits can be applied again.
pub proof fn law_keys_keep_history(a: App, b: App, key: KeyEvent, now: u64, r: Result<Effect, String>)
    requires
        history_ok(a),
        App::key_post(a, b, key, now, r),
    ensures
        history_ok(b),
{
    match a.mode {
        Mode::Normal => lemma_normal_keeps(a, b, key, now, unit_of(r)),
        Mode::Insert => lemma_insert_keeps(a, b, key, unit_of(r)),
        Mode::Replace | Mode::ReplaceOnce => lemma_replace_keeps(a, b, key, unit_of(r)),
        Mode::VisualChar | Mode::VisualLine | Mode::VisualBlock => lemma_visual_keeps(
            a,
            b,
            key,
            unit_of(r),
        ),
        Mode::Command => lemma_command_keeps(a, b, key, r),
        Mode::Search => {},
    }
}

/// A fresh history matches any buffer; opening a file and finishing a save keep
/// the history matching.
pub proof fn law_history_starts_and_stays_ok(
    a: App,
    b: App,
    path: Seq<char>,
    name: Seq<char>,
    data: Seq<u8>,
    then_quit: bool,
    saved_to: Option<Seq<char>>,
)
    ensures
        a.undo.undo_spec().len() == 0 && a.undo.redo_spec().len() == 0 ==> history_ok(a),
        App::opened(a, b, path, name, data) ==> history_ok(b),
        history_ok(a) && App::save_finished(a, b, then_quit, saved_to) ==> history_ok(b),
{
}

} // verus!
