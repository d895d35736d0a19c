//! The command line and the search line: typing into them, searching, and the
//! `:` commands (quit, save, open, replace, help).
use vstd::prelude::*;
use vstd::slice::slice_to_vec;
use vstd::string::StringExecFns;
use vstd::utf8::encode_utf8;

use crate::buffer::written;
use crate::commands::EditCommand;
use crate::cursor::Cursor;
use crate::editor::{App, Effect, KeyCode, KeyEvent, Mode, is_overwrite, lit, pattern_readable, read_bytes};
use crate::search::{hex_pattern, hex_bytes, hex_matches, text_matches, lemma_hex_matches_fit, Searcher};
use crate::text::{decimal, decimal_string, first_index_of, lemma_first_index, trimmed, trim_chars, has_prefix, chars_from, chars_to, find_char, string_of, joined_str};
use crate::help::{help_text, help_lines};
use crate::undo::push_step;

verus! {

/// Bytes `d` after `rb` was written at the last `k` offsets of `offs`, starting
/// with the last one.
pub open spec fn written_back(d: Seq<u8>, offs: Seq<u64>, rb: Seq<u8>, k: nat) -> Seq<u8>
    decreases k,
{
    if k == 0 || k > offs.len() {
        d
    } else {
        written(written_back(d, offs, rb, (k - 1) as nat), offs[offs.len() - k] as int, rb)
    }
}

/// Writing at offsets that all leave room for `rb` keeps the length.
pub proof fn lemma_written_back_len(d: Seq<u8>, offs: Seq<u64>, rb: Seq<u8>, k: nat)
    requires
        forall|i: int| 0 <= i < offs.len() ==> #[trigger] offs[i] + rb.len() <= d.len(),
    ensures
        written_back(d, offs, rb, k).len() == d.len(),
    decreases k,
{
    if k > 0 && k <= offs.len() {
        lemma_written_back_len(d, offs, rb, (k - 1) as nat);
        assert(offs[offs.len() - k] + rb.len() <= d.len());
    }
}

/// The undo stack after each edit of `cs` was recorded in turn.
pub open spec fn pushed_all(u: Seq<EditCommand>, max: nat, cs: Seq<EditCommand>) -> Seq<EditCommand>
    decreases cs.len(),
{
    if cs.len() == 0 {
        u
    } else {
        push_step(pushed_all(u, max, cs.drop_last()), max, cs.last())
    }
}

/// `s` begins with `p`.
pub open spec fn starts_with(s: Seq<char>, p: Seq<char>) -> bool {
    p.len() <= s.len() && s.take(p.len() as int) == p
}

/// `s` with its last character removed, if it has one.
pub open spec fn popped(s: Seq<char>) -> Seq<char> {
    if s.len() == 0 {
        s
    } else {
        s.drop_last()
    }
}

impl App {
    /// Typing into the command or search line: a character is appended,
    /// Backspace removes the last one, other keys (but Esc and Enter) do nothing.
    pub open spec fn line_edited(old: App, new: App, code: KeyCode) -> bool {
        match code {
            KeyCode::Char(c) => {
                &&& new == App { command_line: new.command_line, ..old }
                &&& new.command_line@ == old.command_line@.push(c)
            },
            KeyCode::Backspace => {
                &&& new == App { command_line: new.command_line, ..old }
                &&& new.command_line@ == popped(old.command_line@)
            },
            _ => new == old,
        }
    }

    /// The offsets a search for the query `q` (its UTF-8 bytes) finds in `d`: the
    /// matches of `q` read as a hex pattern, else its case-sensitive text matches,
    /// else its case-insensitive ones.
    pub open spec fn search_hits(d: Seq<u8>, q: Seq<char>) -> Seq<u64> {
        let qb = encode_utf8(q);
        let hex = match hex_pattern(qb) {
            Some(p) => hex_matches(d, p),
            None => Seq::empty(),
        };
        if hex.len() > 0 {
            hex
        } else if text_matches(d, qb, true).len() > 0 {
            text_matches(d, qb, true)
        } else {
            text_matches(d, qb, false)
        }
    }

    /// A key in Search mode. Enter runs the query: the results are stored and, when
    /// there are some, the cursor goes to the first (the last when searching
    /// backwards) and the message tells which of how many; otherwise the message says
    /// there is none. Enter and Esc empty the line and return to Normal mode.
    pub open spec fn search_post(old: App, new: App, key: KeyEvent) -> bool {
        match key.code {
            KeyCode::Esc => Self::entered_line_mode(old, new, Mode::Normal),
            KeyCode::Enter => {
                let hits = Self::search_hits(old.buffer@, old.command_line@);
                let n = hits.len();
                let idx: usize = if old.search_reverse && n > 0 {
                    (n - 1) as usize
                } else {
                    0
                };
                &&& new.command_line@.len() == 0
                &&& new.search_results@ == hits
                &&& if n > 0 {
                    &&& new == App {
                        mode: Mode::Normal,
                        command_line: new.command_line,
                        search_results: new.search_results,
                        search_index: idx,
                        cursor: Cursor { offset: hits[idx as int], ..old.cursor },
                        status_message: new.status_message,
                        ..old
                    }
                    &&& new.status_message@ == decimal((idx + 1) as nat) + lit("/") + decimal(n)
                        + lit(" matches")
                } else {
                    &&& new == App {
                        mode: Mode::Normal,
                        command_line: new.command_line,
                        search_results: new.search_results,
                        status_message: new.status_message,
                        ..old
                    }
                    &&& new.status_message@ == lit("No matches")
                }
            },
            _ => Self::line_edited(old, new, key.code),
        }
    }

    /// A key in Command mode: Esc drops the line; Enter empties it, returns to
    /// Normal mode and carries out the trimmed command.
    pub open spec fn command_key_post(old: App, new: App, key: KeyEvent, r: Result<Effect, String>) -> bool {
        match key.code {
            KeyCode::Esc => r == Ok::<Effect, String>(Effect::Nothing) && Self::entered_line_mode(
                old,
                new,
                Mode::Normal,
            ),
            KeyCode::Enter => {
                &&& new.command_line@.len() == 0
                &&& Self::command_post(
                    App { mode: Mode::Normal, command_line: new.command_line, ..old },
                    new,
                    trimmed(old.command_line@),
                    r,
                )
            },
            _ => r == Ok::<Effect, String>(Effect::Nothing) && Self::line_edited(old, new, key.code),
        }
    }

    /// `:w` and `:wq`: the caller is asked to write the buffer to its file (and
    /// then quit), or told that there is no file.
    pub open spec fn save_requested(old: App, new: App, then_quit: bool, r: Result<Effect, String>) -> bool {
        &&& new == old
        &&& match old.buffer.path_spec() {
            Some(_) => r == Ok::<Effect, String>(Effect::Save { then_quit, saved_to: None }),
            None => r matches Err(e) && e@ == lit("No path set"),
        }
    }

    /// The command `t` (trimmed, as typed after `:`).
    pub open spec fn command_post(old: App, new: App, t: Seq<char>, r: Result<Effect, String>) -> bool {
        let nothing = Ok::<Effect, String>(Effect::Nothing);
        let quit = t == seq!['q'] || t == seq!['q', '!'];
        if t.len() == 0 {
            r == nothing && new == old
        } else if old.show_help && quit {
            r == nothing && new == App { show_help: false, ..old }
        } else if quit {
            r == nothing && new == App { quit_requested: true, ..old }
        } else if t == seq!['w'] {
            Self::save_requested(old, new, false, r)
        } else if t == seq!['w', 'q'] {
            Self::save_requested(old, new, true, r)
        } else if starts_with(t, seq!['w', ' ']) {
            &&& r matches Ok(Effect::Save { then_quit: false, saved_to: Some(p) }) && p@ == t.skip(
                2,
            )
            &&& new.buffer@ == old.buffer@
            &&& new.buffer.path_spec() == Some(t.skip(2))
            &&& new.buffer.modified_spec() == old.buffer.modified_spec()
            &&& new == App { buffer: new.buffer, ..old }
        } else if starts_with(t, seq!['e', ' ']) {
            r matches Ok(Effect::Open(p)) && p@ == t.skip(2) && new == old
        } else if starts_with(t, seq!['%', 's', '/']) {
            r == nothing && Self::substitute_post(old, new, t.skip(3))
        } else if t == seq!['h'] || t == seq!['h', 'e', 'l', 'p'] {
            &&& r == nothing
            &&& new == App { show_help: true, help_scroll: 0, help_lines: new.help_lines, ..old }
            &&& new.help_lines@.map_values(|s: String| s@) == help_text()
        } else {
            &&& r == nothing
            &&& new == App { status_message: new.status_message, ..old }
            &&& new.status_message@ == lit("Unknown command: ") + t
        }
    }

    /// `:%s/find/replace` with `rest` the text after `%s/`: when `find` reads as a
    /// hex pattern and `replace` as plain hex bytes of the same length, every match
    /// of the pattern is overwritten with the bytes, from the last match to the
    /// first, each overwrite recorded; a length mismatch is reported; anything else
    /// does nothing.
    pub open spec fn substitute_post(old: App, new: App, rest: Seq<char>) -> bool {
        match first_index_of(rest, '/') {
            Some(k) => match (
                hex_pattern(encode_utf8(rest.take(k))),
                hex_bytes(encode_utf8(rest.skip(k + 1))),
            ) {
                (Some(pat), Some(rb)) => if rb.len() != pat.len() {
                    &&& new == App { status_message: new.status_message, ..old }
                    &&& new.status_message@ == lit("Replacement length (") + decimal(rb.len())
                        + lit(") must match pattern length (") + decimal(pat.len()) + lit(")")
                } else {
                    Self::substituted(old, new, hex_matches(old.buffer@, pat), rb)
                },
                _ => new == old,
            },
            None => new == old,
        }
    }

    /// `rb` written over the bytes at each offset of `offs`, the last offset first,
    /// each write recorded as an overwrite of what was there at the time, and the
    /// count reported.
    pub open spec fn substituted(old: App, new: App, offs: Seq<u64>, rb: Seq<u8>) -> bool {
        let n = offs.len();
        let d = old.buffer@;
        &&& new.buffer@ == written_back(d, offs, rb, n)
        &&& new.buffer.path_spec() == old.buffer.path_spec()
        &&& n > 0 ==> new.buffer.modified_spec()
        &&& n == 0 ==> new.buffer == old.buffer
        &&& exists|cs: Seq<EditCommand>|
            {
                &&& cs.len() == n
                &&& forall|j: int|
                    0 <= j < n ==> is_overwrite(
                        #[trigger] cs[j],
                        offs[n - 1 - j],
                        written_back(d, offs, rb, j as nat).subrange(
                            offs[n - 1 - j] as int,
                            offs[n - 1 - j] + rb.len(),
                        ),
                        rb,
                    )
                &&& new.undo.undo_spec() == #[trigger] pushed_all(
                    old.undo.undo_spec(),
                    old.undo.max_depth_spec(),
                    cs,
                )
            }
        &&& new.undo.redo_spec() == if n > 0 {
            Seq::<EditCommand>::empty()
        } else {
            old.undo.redo_spec()
        }
        &&& new.undo.max_depth_spec() == old.undo.max_depth_spec()
        &&& new.status_message@ == lit("Replaced ") + decimal(n) + lit(" occurrences")
        &&& new == App { buffer: new.buffer, undo: new.undo, status_message: new.status_message, ..old }
    }

    /// After the caller wrote the buffer to its file for a `:w`, `:wq` or `:w path`:
    /// the buffer is unmodified, and either quitting is requested or the message says
    /// where it was saved.
    pub open spec fn save_finished(old: App, new: App, then_quit: bool, saved_to: Option<Seq<char>>) -> bool {
        &&& new.buffer@ == old.buffer@
        &&& new.buffer.path_spec() == old.buffer.path_spec()
        &&& !new.buffer.modified_spec()
        &&& if then_quit {
            new == App { buffer: new.buffer, quit_requested: true, ..old }
        } else {
            &&& new == App { buffer: new.buffer, status_message: new.status_message, ..old }
            &&& new.status_message@ == match saved_to {
                Some(p) => lit("Saved to ") + p,
                None => lit("Saved"),
            }
        }
    }
}

/// Whether `a` and `b` hold the same characters.
fn same_chars(a: &[char], b: &[char]) -> (r: bool)
    ensures
        r == (a@ == b@),
{
    if a.len() != b.len() {
        return false;
    }
    let mut i: usize = 0;
    while i < a.len()
        invariant
            a@.len() == b@.len(),
            i <= a@.len(),
            forall|k: int| 0 <= k < i ==> a@[k] == b@[k],
        decreases a@.len() - i,
    {
        if a[i] != b[i] {
            return false;
        }
        i = i + 1;
    }
    assert(a@ =~= b@);
    true
}

/// The characters of an optional text.
pub open spec fn opt_chars(o: Option<Vec<char>>) -> Option<Seq<char>> {
    match o {
        Some(v) => Some(v@),
        None => None,
    }
}

impl App {
    /// A key that edits the command or search line.
    fn edit_line(&mut self, code: KeyCode)
        ensures
            Self::line_edited(*old(self), *final(self), code),
    {
        match code {
            KeyCode::Char(c) => {
                self.command_line.push(c);
            },
            KeyCode::Backspace => {
                self.command_line.pop();
            },
            _ => {},
        }
    }

    /// Runs the query on the search line.
    fn run_search(&mut self)
        requires
            pattern_readable(old(self).command_line@),
        ensures
            Self::search_post(*old(self), *final(self), KeyEvent { code: KeyCode::Enter, ctrl: false }),
    {
        let query = string_of(self.command_line.as_slice());
        self.command_line.clear();
        self.mode = Mode::Normal;
        let hex = Searcher::find_hex(self.buffer.as_slice(), query.as_str());
        let results = if hex.len() > 0 {
            hex
        } else {
            let exact = Searcher::find_text(self.buffer.as_slice(), query.as_str(), true);
            if exact.len() > 0 {
                exact
            } else {
                Searcher::find_text(self.buffer.as_slice(), query.as_str(), false)
            }
        };
        self.search_results = results;
        let n = self.search_results.len();
        if n > 0 {
            self.search_index = if self.search_reverse {
                n - 1
            } else {
                0
            };
            self.cursor.offset = self.search_results[self.search_index];
            let mut msg = decimal_string((self.search_index + 1) as u64);
            msg.append("/");
            let total = decimal_string(n as u64);
            msg.append(total.as_str());
            msg.append(" matches");
            self.status_message = msg;
        } else {
            self.set_status("No matches");
        }
    }

    /// A key in Search mode.
    pub(crate) fn handle_search(&mut self, key: KeyEvent)
        requires
            key.code == KeyCode::Enter ==> pattern_readable(old(self).command_line@),
        ensures
            Self::search_post(*old(self), *final(self), key),
    {
        match key.code {
            KeyCode::Esc => self.enter_line_mode(Mode::Normal),
            KeyCode::Enter => self.run_search(),
            _ => self.edit_line(key.code),
        }
    }

    /// Asks the caller to save, when the buffer has a file.
    fn request_save(&self, then_quit: bool) -> (r: Result<Effect, String>)
        ensures
            Self::save_requested(*self, *self, then_quit, r),
    {
        match self.buffer.save_path() {
            Ok(_) => Ok(Effect::Save { then_quit, saved_to: None }),
            Err(e) => Err(e),
        }
    }
}

/// Pushing one more edit records it on top of the others.
pub proof fn lemma_pushed_all_push(u: Seq<EditCommand>, max: nat, cs: Seq<EditCommand>, c: EditCommand)
    ensures
        pushed_all(u, max, cs.push(c)) == push_step(pushed_all(u, max, cs), max, c),
{
    assert(cs.push(c).drop_last() =~= cs);
}

impl App {
    /// `:%s/` with `rest` the text after it.
    fn substitute(&mut self, rest: &[char]) -> (r: Result<(), String>)
        requires
            first_index_of(rest@, '/') matches Some(k) ==> pattern_readable(rest@.take(k))
                && pattern_readable(rest@.skip(k + 1)),
        ensures
            r is Ok,
            Self::substitute_post(*old(self), *final(self), rest@),
    {
        let ghost a = *self;
        let k = match find_char(rest, '/') {
            Some(k) => k,
            None => {
                return Ok(());
            },
        };
        proof {
            lemma_first_index(rest@, '/', k as int);
        }
        let find_s = string_of(chars_to(rest, k).as_slice());
        let repl_s = string_of(chars_from(rest, k + 1).as_slice());
        let pat = match Searcher::parse_hex_pattern(find_s.as_str()) {
            Some(p) => p,
            None => {
                return Ok(());
            },
        };
        let rb = match Searcher::hex_to_bytes(repl_s.as_str()) {
            Some(b) => b,
            None => {
                return Ok(());
            },
        };
        let pat_len = pat.len();
        if rb.len() != pat_len {
            let mut msg = String::from_str("Replacement length (");
            msg.append(decimal_string(rb.len() as u64).as_str());
            msg.append(") must match pattern length (");
            msg.append(decimal_string(pat_len as u64).as_str());
            msg.append(")");
            self.status_message = msg;
            return Ok(());
        }
        let data = slice_to_vec(self.buffer.as_slice());
        let results = Searcher::find_hex(data.as_slice(), find_s.as_str());
        let ghost offs = results@;
        let ghost d = a.buffer@;
        proof {
            a.buffer.lemma_len_fits();
            lemma_hex_matches_fit(d, pat@);
        }
        let n = results.len();
        let mut j: usize = n;
        let ghost mut cs: Seq<EditCommand> = Seq::empty();
        while j > 0
            invariant
                j <= n,
                n == offs.len(),
                results@ == offs,
                d == a.buffer@,
                d.len() <= usize::MAX,
                forall|i: int| 0 <= i < n ==> #[trigger] offs[i] + rb@.len() <= d.len(),
                rb@.len() == pat_len,
                pat_len > 0,
                self.buffer@ == written_back(d, offs, rb@, (n - j) as nat),
                self.buffer.path_spec() == a.buffer.path_spec(),
                n - j > 0 ==> self.buffer.modified_spec(),
                n - j == 0 ==> self.buffer == a.buffer,
                cs.len() == n - j,
                forall|i: int|
                    0 <= i < n - j ==> is_overwrite(
                        #[trigger] cs[i],
                        offs[n - 1 - i],
                        written_back(d, offs, rb@, i as nat).subrange(
                            offs[n - 1 - i] as int,
                            offs[n - 1 - i] + rb@.len(),
                        ),
                        rb@,
                    ),
                self.undo.undo_spec() == pushed_all(
                    a.undo.undo_spec(),
                    a.undo.max_depth_spec(),
                    cs,
                ),
                self.undo.redo_spec() == if n - j > 0 {
                    Seq::<EditCommand>::empty()
                } else {
                    a.undo.redo_spec()
                },
                self.undo.max_depth_spec() == a.undo.max_depth_spec(),
                *self == (App { buffer: self.buffer, undo: self.undo, ..a }),
            decreases j,
        {
            let ghost k = (n - j) as nat;
            proof {
                lemma_written_back_len(d, offs, rb@, k);
            }
            j = j - 1;
            let offset = results[j];
            assert(offs[j as int] + rb@.len() <= d.len());
            let old_bytes = read_bytes(&self.buffer, offset, pat_len);
            let cmd = EditCommand::Overwrite {
                offset,
                old_bytes,
                new_bytes: slice_to_vec(rb.as_slice()),
            };
            let ghost g = cmd;
            let ghost u0 = self.undo.undo_spec();
            match self.apply_and_record(cmd) {
                Ok(()) => {},
                Err(e) => {
                    return Err(e);
                },
            }
            proof {
                assert(is_overwrite(
                    g,
                    offs[n - 1 - k],
                    written_back(d, offs, rb@, k).subrange(
                        offs[n - 1 - k] as int,
                        offs[n - 1 - k] + rb@.len(),
                    ),
                    rb@,
                ));
                lemma_pushed_all_push(a.undo.undo_spec(), a.undo.max_depth_spec(), cs, g);
                cs = cs.push(g);
                assert(forall|i: int| 0 <= i < k ==> cs[i] == cs.drop_last()[i]);
            }
        }
        let mut msg = String::from_str("Replaced ");
        msg.append(decimal_string(n as u64).as_str());
        msg.append(" occurrences");
        self.status_message = msg;
        assert(cs.len() == n);
        assert(Self::substituted(a, *self, offs, rb@));
        Ok(())
    }
}

/// The trimmed command `t` can be carried out: the patterns of a replace command
/// can be read.
pub open spec fn command_readable(t: Seq<char>) -> bool {
    starts_with(t, seq!['%', 's', '/']) ==> (first_index_of(t.skip(3), '/') matches Some(k)
        ==> pattern_readable(t.skip(3).take(k)) && pattern_readable(t.skip(3).skip(k + 1)))
}

impl App {
    /// Carries out the trimmed command `t`.
    fn execute_command(&mut self, t: &[char]) -> (r: Result<Effect, String>)
        requires
            command_readable(t@),
        ensures
            Self::command_post(*old(self), *final(self), t@, r),
    {
        if t.len() == 0 {
            return Ok(Effect::Nothing);
        }
        let w_q: [char; 2] = ['w', 'q'];
        let q: [char; 1] = ['q'];
        let q_bang: [char; 2] = ['q', '!'];
        let w: [char; 1] = ['w'];
        let w_space: [char; 2] = ['w', ' '];
        let e_space: [char; 2] = ['e', ' '];
        let subst: [char; 3] = ['%', 's', '/'];
        let h: [char; 1] = ['h'];
        let help: [char; 4] = ['h', 'e', 'l', 'p'];
        assert(q@ == seq!['q']);
        assert(q_bang@ == seq!['q', '!']);
        assert(w@ == seq!['w']);
        assert(w_q@ == seq!['w', 'q']);
        assert(w_space@ == seq!['w', ' ']);
        assert(e_space@ == seq!['e', ' ']);
        assert(subst@ == seq!['%', 's', '/']);
        assert(h@ == seq!['h']);
        assert(help@ == seq!['h', 'e', 'l', 'p']);
        let quit = same_chars(t, &q) || same_chars(t, &q_bang);
        if self.show_help && quit {
            self.show_help = false;
            return Ok(Effect::Nothing);
        }
        if quit {
            self.quit_requested = true;
            return Ok(Effect::Nothing);
        }
        if same_chars(t, &w) {
            return self.request_save(false);
        }
        if same_chars(t, &w_q) {
            return self.request_save(true);
        }
        if has_prefix(t, &w_space) {
            let path = chars_from(t, 2);
            self.buffer.save_as(string_of(path.as_slice()));
            return Ok(Effect::Save { then_quit: false, saved_to: Some(path) });
        }
        if has_prefix(t, &e_space) {
            return Ok(Effect::Open(chars_from(t, 2)));
        }
        if has_prefix(t, &subst) {
            let rest = chars_from(t, 3);
            match self.substitute(rest.as_slice()) {
                Ok(()) => {},
                Err(e) => {
                    return Err(e);
                },
            }
            return Ok(Effect::Nothing);
        }
        if same_chars(t, &h) || same_chars(t, &help) {
            self.show_help = true;
            self.help_scroll = 0;
            self.help_lines = help_lines();
            return Ok(Effect::Nothing);
        }
        let shown = string_of(t);
        self.status_message = joined_str("Unknown command: ", shown.as_str());
        Ok(Effect::Nothing)
    }

    /// A key in Command mode.
    pub(crate) fn handle_command(&mut self, key: KeyEvent) -> (r: Result<Effect, String>)
        requires
            key.code == KeyCode::Enter ==> command_readable(trimmed(old(self).command_line@)),
        ensures
            Self::command_key_post(*old(self), *final(self), key, r),
    {
        match key.code {
            KeyCode::Esc => {
                self.enter_line_mode(Mode::Normal);
                Ok(Effect::Nothing)
            },
            KeyCode::Enter => {
                let cmd = trim_chars(self.command_line.as_slice());
                self.command_line.clear();
                self.mode = Mode::Normal;
                self.execute_command(cmd.as_slice())
            },
            _ => {
                self.edit_line(key.code);
                Ok(Effect::Nothing)
            },
        }
    }

    /// Reports that the caller wrote the buffer to its file, as asked by an
    /// `Effect::Save` with these fields.
    pub fn finish_save(&mut self, then_quit: bool, saved_to: Option<Vec<char>>)
        ensures
            Self::save_finished(*old(self), *final(self), then_quit, opt_chars(saved_to)),
    {
        self.buffer.mark_saved();
        if then_quit {
            self.quit_requested = true;
        } else {
            match saved_to {
                Some(p) => {
                    let shown = string_of(p.as_slice());
                    self.status_message = joined_str("Saved to ", shown.as_str());
                },
                None => self.set_status("Saved"),
            }
        }
    }
}

} // verus!
