//! Properties of the editor that span several key presses.
use vstd::prelude::*;

use crate::buffer::{
    nibble_deleted, written, inserted, deleted, read_error, write_error, insert_error,
};
use crate::nibble::{hi, lo};
use crate::search::{
    hex_pattern, hex_match_at, hex_matches, text_match_at, text_matches, hex_digit, hex_pair,
    positions, lemma_positions_hold,
};
use crate::text::{digit_char, hex_padded};
use crate::view::shown_char;
use crate::commands::EditCommand;
use crate::cursor::{Cursor, SelectionMode};
use crate::editor::{App, Effect, KeyCode, KeyEvent, Mode, is_delete, is_overwrite, read_or_empty, char_digit};
use crate::undo::{push_step, lemma_undo_after_push, lemma_redo_reverts_undo};

verus! {

/// A key pressed without Control.
pub open spec fn plain(c: char) -> KeyEvent {
    KeyEvent { code: KeyCode::Char(c), ctrl: false }
}

/// Undo takes back an edit that a key applied and recorded: pressing `u` in Normal
/// mode right after it gives back the bytes from before the edit, puts the cursor
/// where the edit started and makes the edit the one to redo, when the edit
/// records what it replaced and the history keeps at least one edit.
pub proof fn law_undo_reverts_recorded_edit(
    old: App,
    mid: App,
    new: App,
    c: EditCommand,
    now: u64,
    r: Result<Effect, String>,
)
    requires
        App::applied(old, mid, c, Ok(())),
        c.recorded_before(old.buffer@),
        old.undo.max_depth_spec() >= 1,
        mid.mode == Mode::Normal,
        !mid.show_help,
        App::key_post(mid, new, plain('u'), now, r),
    ensures
        r == Ok::<Effect, String>(Effect::Nothing),
        new.buffer@ == old.buffer@,
        new.cursor.offset == c.offset_spec(),
        new.undo.redo_spec() == seq![c],
{
    mid.buffer.lemma_len_fits();
    lemma_undo_after_push(
        old.undo.undo_spec(),
        Seq::<EditCommand>::empty(),
        old.undo.max_depth_spec(),
        c,
        old.buffer@,
    );
    assert(Seq::<EditCommand>::empty().push(c) =~= seq![c]);
}

/// Undo takes back a nibble edit: when a key changed the bytes from offset `o` on
/// (keeping the length and the bytes before `o`) and recorded the change as an
/// overwrite of the tail, pressing `u` in Normal mode right after it gives back the
/// bytes from before and puts the cursor at `o`, when the history keeps at least
/// one edit.
pub proof fn law_undo_reverts_nibble_edit(
    old: App,
    mid: App,
    new: App,
    o: u64,
    d: Seq<u8>,
    now: u64,
    r: Result<Effect, String>,
)
    requires
        App::nibble_edited(old, mid, o, d),
        o < old.buffer@.len(),
        d.len() == old.buffer@.len(),
        d.take(o as int) == old.buffer@.take(o as int),
        old.undo.max_depth_spec() >= 1,
        mid.mode == Mode::Normal,
        !mid.show_help,
        App::key_post(mid, new, plain('u'), now, r),
    ensures
        r == Ok::<Effect, String>(Effect::Nothing),
        new.buffer@ == old.buffer@,
        new.cursor.offset == o,
{
    let b = old.buffer@;
    let c = choose|c: EditCommand|
        is_overwrite(c, o, b.skip(o as int), d.skip(o as int)) && #[trigger] App::recorded(
            old,
            mid,
            c,
        );
    mid.buffer.lemma_len_fits();
    let u = push_step(old.undo.undo_spec(), old.undo.max_depth_spec(), c);
    assert(u.len() > 0 && u.last() == c);
    assert(d.take(o as int) + b.skip(o as int) + d.skip(o + (b.len() - o)) =~= b);
}

/// `x` then `u` in Normal mode (bytes) gives back the bytes and the cursor position,
/// when the cursor is on a byte and the history keeps at least one edit.
pub proof fn law_delete_then_undo(
    old: App,
    mid: App,
    new: App,
    now1: u64,
    now2: u64,
    r1: Result<Effect, String>,
    r2: Result<Effect, String>,
)
    requires
        old.mode == Mode::Normal,
        !old.show_help,
        !old.nibble_mode,
        old.cursor.offset < old.buffer@.len(),
        old.undo.max_depth_spec() >= 1,
        App::key_post(old, mid, plain('x'), now1, r1),
        App::key_post(mid, new, plain('u'), now2, r2),
    ensures
        r1 == Ok::<Effect, String>(Effect::Nothing),
        r2 == Ok::<Effect, String>(Effect::Nothing),
        new.buffer@ == old.buffer@,
        new.cursor.offset == old.cursor.offset,
{
    let o = old.cursor.offset;
    let r = crate::editor::unit_of(r1);
    let c = choose|c: EditCommand|
        is_delete(c, o, read_or_empty(old.buffer@, o, 1)) && #[trigger] App::applied(old, mid, c, r);
    old.buffer.lemma_len_fits();
    assert(c.apply_spec(old.buffer@) is Ok);
    law_undo_reverts_recorded_edit(old, mid, new, c, now2, r2);
}

/// `x` then `u` in Normal mode with nibble mode on gives back the bytes and the
/// cursor position, when the cursor is on a byte and the history keeps at least one
/// edit.
pub proof fn law_nibble_delete_then_undo(
    old: App,
    mid: App,
    new: App,
    now1: u64,
    now2: u64,
    r1: Result<Effect, String>,
    r2: Result<Effect, String>,
)
    requires
        old.mode == Mode::Normal,
        !old.show_help,
        old.nibble_mode,
        old.cursor.offset < old.buffer@.len(),
        old.undo.max_depth_spec() >= 1,
        App::key_post(old, mid, plain('x'), now1, r1),
        App::key_post(mid, new, plain('u'), now2, r2),
    ensures
        r1 == Ok::<Effect, String>(Effect::Nothing),
        r2 == Ok::<Effect, String>(Effect::Nothing),
        new.buffer@ == old.buffer@,
        new.cursor.offset == old.cursor.offset,
{
    let o = old.cursor.offset;
    let d = nibble_deleted(old.buffer@, o as int, old.cursor.sub_offset);
    assert(d.take(o as int) =~= old.buffer@.take(o as int));
    law_undo_reverts_nibble_edit(old, mid, new, o, d, now2, r2);
}

/// Redo takes back an undo: pressing `u` and then Ctrl-R in Normal mode gives back
/// the bytes and both history stacks, when the undo succeeded and the undone edit
/// records what it wrote.
pub proof fn law_redo_after_undo(
    a: App,
    b: App,
    c: App,
    now1: u64,
    now2: u64,
    r1: Result<Effect, String>,
    r2: Result<Effect, String>,
)
    requires
        a.mode == Mode::Normal,
        !a.show_help,
        App::key_post(a, b, plain('u'), now1, r1),
        r1 is Ok,
        a.undo.undo_spec().len() > 0 ==> a.undo.undo_spec().last().recorded_after(a.buffer@),
        App::key_post(b, c, KeyEvent { code: KeyCode::Char('r'), ctrl: true }, now2, r2),
    ensures
        r2 == Ok::<Effect, String>(Effect::Nothing),
        c.buffer@ == a.buffer@,
        c.undo.undo_spec() == a.undo.undo_spec(),
        c.undo.redo_spec() == a.undo.redo_spec(),
{
    b.buffer.lemma_len_fits();
    lemma_redo_reverts_undo(a.undo.undo_spec(), a.undo.redo_spec(), a.buffer@);
}

/// Esc always ends in Normal mode, whatever the mode, and asks nothing of the caller.
pub proof fn law_escape_returns_to_normal(a: App, b: App, now: u64, r: Result<Effect, String>)
    requires
        App::key_post(a, b, KeyEvent { code: KeyCode::Esc, ctrl: false }, now, r),
    ensures
        b.mode == Mode::Normal,
        r == Ok::<Effect, String>(Effect::Nothing),
{
}

/// Pressing `z` twice in Normal mode leaves nibble mode as it was, with the cursor
/// on the high nibble, and the bytes untouched.
pub proof fn law_nibble_toggle_twice(
    a: App,
    b: App,
    c: App,
    now1: u64,
    now2: u64,
    r1: Result<Effect, String>,
    r2: Result<Effect, String>,
)
    requires
        a.mode == Mode::Normal,
        !a.show_help,
        App::key_post(a, b, plain('z'), now1, r1),
        App::key_post(b, c, plain('z'), now2, r2),
    ensures
        c.nibble_mode == a.nibble_mode,
        c.cursor == (Cursor { sub_offset: 0, ..a.cursor }),
        c.buffer == a.buffer,
        c.undo == a.undo,
{
}

/// In the help view, `j` then `k` scrolls back to where it was, when it was not
/// already on the last line.
pub proof fn law_help_scroll_round_trip(
    a: App,
    b: App,
    c: App,
    now1: u64,
    now2: u64,
    r1: Result<Effect, String>,
    r2: Result<Effect, String>,
)
    requires
        a.mode == Mode::Normal,
        a.show_help,
        a.help_scroll + 1 < a.help_lines@.len(),
        App::key_post(a, b, plain('j'), now1, r1),
        App::key_post(b, c, plain('k'), now2, r2),
    ensures
        b.help_scroll == a.help_scroll + 1,
        c == a,
{
    assert(a.help_lines.len() == a.help_lines@.len());
}

/// A read gives back what a write wrote: after `write(off, bytes)` succeeds,
/// reading `bytes.len()` bytes at `off` succeeds and gives `bytes` (for a
/// non-empty write), and the length is unchanged.
pub proof fn law_read_after_write(d: Seq<u8>, off: u64, bytes: Seq<u8>)
    requires
        write_error(d.len() as int, off, bytes.len() as int) is None,
        bytes.len() > 0,
    ensures
        written(d, off as int, bytes).len() == d.len(),
        read_error(d.len() as int, off, bytes.len() as int) is None,
        written(d, off as int, bytes).subrange(off as int, off + bytes.len()) == bytes,
{
    assert(written(d, off as int, bytes).subrange(off as int, off + bytes.len()) =~= bytes);
}

/// Deleting what was just inserted gives back the bytes: after `insert(off, bytes)`
/// succeeds, `delete(off, bytes.len())` succeeds and restores them.
pub proof fn law_delete_after_insert(d: Seq<u8>, off: u64, bytes: Seq<u8>)
    requires
        insert_error(d.len() as int, off) is None,
        off + bytes.len() <= u64::MAX,
    ensures
        crate::buffer::delete_error(inserted(d, off as int, bytes).len() as int, off, bytes.len() as int)
            is None,
        deleted(inserted(d, off as int, bytes), off as int, bytes.len() as int) == d,
{
    assert(deleted(inserted(d, off as int, bytes), off as int, bytes.len() as int) =~= d);
}

/// Setting a nibble and reading it back gives the digit (masked to four bits), and
/// the other nibble of the byte stays.
pub proof fn law_get_after_set_nibble(b: u8, digit: u8)
    ensures
        hi(((digit & 0x0F) << 4) | (b & 0x0F)) == digit & 0x0F,
        lo(((digit & 0x0F) << 4) | (b & 0x0F)) == lo(b),
        hi((b & 0xF0) | (digit & 0x0F)) == hi(b),
        lo((b & 0xF0) | (digit & 0x0F)) == digit & 0x0F,
{
    assert(hi(((digit & 0x0F) << 4) | (b & 0x0F)) == digit & 0x0F) by (bit_vector);
    assert(lo(((digit & 0x0F) << 4) | (b & 0x0F)) == lo(b)) by (bit_vector);
    assert(hi((b & 0xF0) | (digit & 0x0F)) == hi(b)) by (bit_vector);
    assert(lo((b & 0xF0) | (digit & 0x0F)) == digit & 0x0F) by (bit_vector);
}

/// The query `q` occurs in `d` at offset `i`: as a hex pattern, or as text with or
/// without regard to ASCII case.
pub open spec fn query_found_at(d: Seq<u8>, q: Seq<char>, i: int) -> bool {
    let qb = vstd::utf8::encode_utf8(q);
    ||| (hex_pattern(qb) matches Some(p) && hex_match_at(d, p, i))
    ||| text_match_at(d, qb, true, i)
    ||| text_match_at(d, qb, false, i)
}

/// Every result a search stores is an offset where the query occurs.
pub proof fn law_search_results_are_matches(a: App, b: App, now: u64, r: Result<Effect, String>)
    requires
        a.mode == Mode::Search,
        App::key_post(a, b, KeyEvent { code: KeyCode::Enter, ctrl: false }, now, r),
    ensures
        forall|k: int|
            0 <= k < b.search_results@.len() ==> query_found_at(
                a.buffer@,
                a.command_line@,
                #[trigger] b.search_results@[k] as int,
            ),
{
    let d = a.buffer@;
    let qb = vstd::utf8::encode_utf8(a.command_line@);
    a.buffer.lemma_len_fits();
    if let Some(p) = hex_pattern(qb) {
        if d.len() >= p.len() {
            lemma_positions_hold(
                (d.len() - p.len() + 1) as nat,
                |i: int| hex_match_at(d, p, i),
            );
        }
    }
    if qb.len() > 0 && d.len() >= qb.len() {
        lemma_positions_hold(
            (d.len() - qb.len() + 1) as nat,
            |i: int| text_match_at(d, qb, true, i),
        );
        lemma_positions_hold(
            (d.len() - qb.len() + 1) as nat,
            |i: int| text_match_at(d, qb, false, i),
        );
    }
}

/// Visual Block `y` and `d`/`x` act only on what the selection shows: every cell
/// of the block lies in the buffer and is reported selected.
pub proof fn law_block_cells_are_selected(a: App)
    requires
        a.cursor.selection_mode == SelectionMode::Block,
        a.cursor.block_fits(a.nibble_mode),
        a.cursor.sub_offset <= 1,
        a.cursor.sub_anchor_or_zero() <= 1,
    ensures
        forall|i: int|
            0 <= i < a.block_cells().len() ==> {
                let c = #[trigger] a.block_cells()[i];
                &&& c.0 < a.buffer@.len()
                &&& a.cursor.in_selection_spec(c.0, a.buffer@.len() as u64, a.nibble_mode, c.1)
            },
{
    a.lemma_block_cells_bounds();
    a.lemma_block_cells_selected();
}

/// Bytes `x` and `y` are equal, or are the upper- and lower-case forms of one
/// ASCII letter (`A`..`Z` and `a`..`z` lie 32 apart).
pub open spec fn same_letter_or_byte(x: u8, y: u8) -> bool {
    ||| x == y
    ||| 0x41 <= x <= 0x5A && y == x + 32
    ||| 0x41 <= y <= 0x5A && x == y + 32
}

/// A case-insensitive text search matches a window exactly when each of its bytes
/// equals the pattern's byte or is the same ASCII letter in the other case.
pub proof fn law_case_insensitive_match(data: Seq<u8>, pat: Seq<u8>, i: int)
    ensures
        text_match_at(data, pat, false, i) <==> {
            &&& 0 <= i
            &&& i + pat.len() <= data.len()
            &&& forall|j: int|
                0 <= j < pat.len() ==> same_letter_or_byte(#[trigger] data[i + j], pat[j])
        },
{
}

/// A case-sensitive match is also a case-insensitive one.
pub proof fn law_exact_match_ignores_case_too(data: Seq<u8>, pat: Seq<u8>, i: int)
    ensures
        text_match_at(data, pat, true, i) ==> text_match_at(data, pat, false, i),
{
}

/// The lower-case hex digit character of `v` (`0`..`9`, `a`..`f`).
pub open spec fn lower_digit_char(v: int) -> char {
    if v < 10 {
        (48 + v) as char
    } else {
        (87 + v) as char
    }
}

/// In nibble mode a typed character is a digit exactly when it is a hex digit of
/// either case, and its value is the one it has in base 16: the digit the hex view
/// writes for `v` (upper case) and its lower-case form both give `v`.
pub proof fn law_typed_digit_values()
    ensures
        forall|v: int| 0 <= v < 16 ==> char_digit(#[trigger] digit_char(v)) == Some(v as u8),
        forall|v: int| 0 <= v < 16 ==> char_digit(#[trigger] lower_digit_char(v)) == Some(v as u8),
        forall|c: char|
            #[trigger] char_digit(c) matches Some(v) ==> v < 16 && (c == digit_char(v as int) || c
                == lower_digit_char(v as int)),
{
}

/// A hex pattern character is a digit exactly when it is a hex digit of either
/// case, with its base-16 value.
pub proof fn law_hex_digit_values()
    ensures
        forall|v: int| 0 <= v < 16 ==> hex_digit(#[trigger] digit_char(v) as u8) == Some(v as u8),
        forall|v: int|
            0 <= v < 16 ==> hex_digit(#[trigger] lower_digit_char(v) as u8) == Some(v as u8),
        forall|c: u8|
            #[trigger] hex_digit(c) matches Some(v) ==> v < 16 && (c == digit_char(v as int) as u8
                || c == lower_digit_char(v as int) as u8),
{
}

/// A byte written as two hex digits, the way the hex view writes it, or in
/// lower case, reads back as that byte.
pub proof fn law_hex_pair_reads_back(b: u8)
    ensures
        hex_padded(b as nat, 2).len() == 2,
        hex_pair(hex_padded(b as nat, 2)[0] as u8, hex_padded(b as nat, 2)[1] as u8) == Some(b),
        hex_pair(lower_digit_char((b / 16) as int) as u8, lower_digit_char((b % 16) as int) as u8)
            == Some(b),
{
    law_hex_digit_values();
    let h = hex_padded(b as nat, 2);
    assert(hex_padded((b / 16) as nat, 1) == seq![digit_char((b / 16) as int)]);
    assert(h == seq![digit_char((b / 16) as int), digit_char((b % 16) as int)]);
    assert(hex_digit(digit_char((b / 16) as int) as u8) == Some((b / 16) as u8));
    assert(hex_digit(digit_char((b % 16) as int) as u8) == Some((b % 16) as u8));
    assert(hex_digit(lower_digit_char((b / 16) as int) as u8) == Some((b / 16) as u8));
    assert(hex_digit(lower_digit_char((b % 16) as int) as u8) == Some((b % 16) as u8));
}

/// The text column shows a byte as itself exactly when it is printable ASCII
/// (space through `~`), and every other byte as `.`.
pub proof fn law_text_column_shows_printable()
    ensures
        forall|b: u8| 0x20 <= b <= 0x7E ==> #[trigger] shown_char(b) == b as char,
        forall|b: u8| !(0x20 <= b <= 0x7E) ==> #[trigger] shown_char(b) == '.',
        forall|b: u8| (#[trigger] shown_char(b) == b as char) <==> 0x20 <= b <= 0x7E,
{
}

/// A predicate that holds at some `i < n` gives `positions` an entry.
proof fn lemma_positions_nonempty(n: nat, p: spec_fn(int) -> bool, i: int)
    requires
        0 <= i < n,
        p(i),
    ensures
        positions(n, p).len() > 0,
    decreases n,
{
    if i < n - 1 {
        lemma_positions_nonempty((n - 1) as nat, p, i);
    }
}

/// `positions` lists every `i < n` where the predicate holds, in ascending order.
proof fn lemma_positions_complete(n: nat, p: spec_fn(int) -> bool)
    requires
        n <= u64::MAX + 1,
    ensures
        forall|i: int| 0 <= i < n && p(i) ==> #[trigger] positions(n, p).contains(i as u64),
        forall|j: int, k: int|
            0 <= j < k < positions(n, p).len() ==> #[trigger] positions(n, p)[j] < #[trigger] positions(
                n,
                p,
            )[k],
    decreases n,
{
    if n > 0 {
        let before = positions((n - 1) as nat, p);
        lemma_positions_complete((n - 1) as nat, p);
        lemma_positions_hold((n - 1) as nat, p);
        let all = positions(n, p);
        assert forall|i: int| 0 <= i < n && p(i) implies #[trigger] all.contains(i as u64) by {
            if i < n - 1 {
                assert(before.contains(i as u64));
                let k = choose|k: int| 0 <= k < before.len() && before[k] == i as u64;
                assert(all[k] == i as u64);
            } else {
                assert(all[all.len() - 1] == i as u64);
            }
        }
        assert forall|j: int, k: int| 0 <= j < k < all.len() implies #[trigger] all[j] < #[trigger] all[k] by {
            if k < before.len() {
                assert(all[j] == before[j] && all[k] == before[k]);
            } else {
                assert(all[j] == before[j]);
                assert(before[j] < n - 1);
            }
        }
    }
}

/// A text search gives exactly the offsets where the pattern occurs, in ascending
/// order (none for an empty pattern).
pub proof fn law_text_search_results(data: Seq<u8>, pat: Seq<u8>, case_sensitive: bool)
    requires
        data.len() <= u64::MAX,
    ensures
        forall|k: int|
            0 <= k < text_matches(data, pat, case_sensitive).len() ==> text_match_at(
                data,
                pat,
                case_sensitive,
                #[trigger] text_matches(data, pat, case_sensitive)[k] as int,
            ),
        forall|i: int|
            pat.len() > 0 && text_match_at(data, pat, case_sensitive, i) ==> #[trigger] text_matches(
                data,
                pat,
                case_sensitive,
            ).contains(i as u64),
        forall|j: int, k: int|
            0 <= j < k < text_matches(data, pat, case_sensitive).len() ==> #[trigger] text_matches(
                data,
                pat,
                case_sensitive,
            )[j] < #[trigger] text_matches(data, pat, case_sensitive)[k],
{
    if pat.len() > 0 && data.len() >= pat.len() {
        let n = (data.len() - pat.len() + 1) as nat;
        lemma_positions_hold(n, |k: int| text_match_at(data, pat, case_sensitive, k));
        lemma_positions_complete(n, |k: int| text_match_at(data, pat, case_sensitive, k));
    }
}

/// A hex-pattern search gives exactly the offsets where the pattern occurs, in
/// ascending order.
pub proof fn law_hex_search_results(data: Seq<u8>, pat: Seq<Option<u8>>)
    requires
        data.len() <= u64::MAX,
    ensures
        forall|k: int|
            0 <= k < hex_matches(data, pat).len() ==> hex_match_at(
                data,
                pat,
                #[trigger] hex_matches(data, pat)[k] as int,
            ),
        forall|i: int|
            hex_match_at(data, pat, i) ==> #[trigger] hex_matches(data, pat).contains(i as u64),
        forall|j: int, k: int|
            0 <= j < k < hex_matches(data, pat).len() ==> #[trigger] hex_matches(data, pat)[j]
                < #[trigger] hex_matches(data, pat)[k],
{
    if data.len() >= pat.len() {
        let n = (data.len() - pat.len() + 1) as nat;
        lemma_positions_hold(n, |k: int| hex_match_at(data, pat, k));
        lemma_positions_complete(n, |k: int| hex_match_at(data, pat, k));
    }
}

/// When the query, read as a hex pattern, finds nothing and the query occurs in the
/// buffer byte for byte, a search stores only the offsets where it occurs byte for
/// byte: case-insensitive matches are not used then.
pub proof fn law_search_prefers_exact_matches(a: App, b: App, now: u64, r: Result<Effect, String>, i: int)
    requires
        a.mode == Mode::Search,
        App::key_post(a, b, KeyEvent { code: KeyCode::Enter, ctrl: false }, now, r),
        hex_pattern(vstd::utf8::encode_utf8(a.command_line@)) matches Some(p) ==> hex_matches(
            a.buffer@,
            p,
        ).len() == 0,
        vstd::utf8::encode_utf8(a.command_line@).len() > 0,
        text_match_at(a.buffer@, vstd::utf8::encode_utf8(a.command_line@), true, i),
    ensures
        forall|k: int|
            0 <= k < b.search_results@.len() ==> text_match_at(
                a.buffer@,
                vstd::utf8::encode_utf8(a.command_line@),
                true,
                #[trigger] b.search_results@[k] as int,
            ),
        forall|k: int|
            text_match_at(a.buffer@, vstd::utf8::encode_utf8(a.command_line@), true, k)
                ==> #[trigger] b.search_results@.contains(k as u64),
{
    let d = a.buffer@;
    let qb = vstd::utf8::encode_utf8(a.command_line@);
    a.buffer.lemma_len_fits();
    let n = (d.len() - qb.len() + 1) as nat;
    lemma_positions_nonempty(n, |k: int| text_match_at(d, qb, true, k), i);
    assert(text_matches(d, qb, true).len() > 0);
    lemma_positions_hold(n, |k: int| text_match_at(d, qb, true, k));
    lemma_positions_complete(n, |k: int| text_match_at(d, qb, true, k));
}

} // verus!
