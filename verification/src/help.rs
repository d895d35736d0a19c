//! The help view's text: the keys of each mode with what they do, the keys
//! padded to a common display width.
use vstd::prelude::*;
use vstd::string::{StringExecFns, StrSliceExecFns};

use crate::editor::lit;

verus! {

/// Display width of the text `s` in terminal columns.
pub uninterp spec fn display_width(s: Seq<char>) -> usize;

/// Display width of `s` in columns, from `unicode_width::UnicodeWidthStr::width`
/// (Unicode's East Asian Width rules, ambiguous characters one column wide). The
/// contract names the result `display_width` of the characters and says nothing
/// more of it.
#[verifier::external_body]
fn str_width(s: &str) -> (w: usize)
    ensures
        w == display_width(s@),
{
    unicode_width::UnicodeWidthStr::width(s)
}

/// `n` spaces.
pub open spec fn spaces(n: nat) -> Seq<char> {
    Seq::new(n, |i: int| ' ')
}

/// A help line: `key`, spaces up to column 20 (given that `key` takes `width`
/// columns), a space, and `desc`.
pub open spec fn padded(key: Seq<char>, width: usize, desc: Seq<char>) -> Seq<char> {
    key + spaces(if width < 20 { (20 - width) as nat } else { 0 }) + seq![' '] + desc
}

/// The help line for `key`, padded by its display width.
pub open spec fn help_entry(key: Seq<char>, desc: Seq<char>) -> Seq<char> {
    padded(key, display_width(key), desc)
}

/// Builds the help line for `key`, taking `width` columns, and `desc`.
pub fn pad_to(key: &str, width: usize, desc: &str) -> (s: String)
    ensures
        s@ == padded(key@, width, desc@),
{
    let n: usize = if width < 20 {
        20 - width
    } else {
        0
    };
    let mut s = String::from_str(key);
    let mut i: usize = 0;
    while i < n
        invariant
            i <= n,
            s@ == key@ + spaces(i as nat),
        decreases n - i,
    {
        s.push(' ');
        i = i + 1;
        assert(s@ =~= key@ + spaces(i as nat));
    }
    s.push(' ');
    s.append(desc);
    s
}

/// The help line for `key` and `desc`.
fn pad(key: &str, desc: &str) -> (s: String)
    ensures
        s@ == help_entry(key@, desc@),
{
    pad_to(key, str_width(key), desc)
}

/// The lines of the help view.
pub open spec fn help_text() -> Seq<Seq<char>> {
    seq![
        Seq::empty(),
        lit("─── NORMAL MODE ───"),
        help_entry(lit("h/← l/→ j/↓ k/↑"), lit("Move cursor")),
        help_entry(lit("0"), lit("Go to row start")),
        help_entry(lit("gg / G"), lit("Go to top / bottom")),
        help_entry(lit("Ctrl-D / Ctrl-U"), lit("Page down / up")),
        help_entry(lit("i / a"), lit("Insert at cursor / after cursor")),
        help_entry(lit("r / R"), lit("Replace once / continuous replace")),
        help_entry(lit("x / dd"), lit("Delete byte / delete row")),
        help_entry(lit("y / p / P"), lit("Yank / paste after / paste before")),
        help_entry(lit("u / Ctrl-R"), lit("Undo / redo")),
        help_entry(lit("Ctrl-O / Tab"), lit("Jump back / forward in history")),
        help_entry(lit("/  ?"), lit("Search forward / backward")),
        help_entry(lit("n / N"), lit("Next / previous search result")),
        help_entry(lit(":"), lit("Enter command mode")),
        help_entry(lit("v / V / Ctrl-V"), lit("Visual char / line / block")),
        help_entry(lit("z"), lit("Toggle nibble mode (4-bit editing)")),
        Seq::empty(),
        lit("─── INSERT MODE ───"),
        help_entry(lit("<char>"), lit("Insert byte at cursor")),
        help_entry(lit("Esc"), lit("Return to Normal")),
        help_entry(lit("Backspace"), lit("Delete byte before cursor")),
        Seq::empty(),
        lit("─── REPLACE MODE ───"),
        help_entry(lit("<char>"), lit("Overwrite byte, advance cursor")),
        help_entry(lit("Esc"), lit("Return to Normal")),
        Seq::empty(),
        lit("─── VISUAL MODE ───"),
        help_entry(lit("h/j/k/l"), lit("Extend selection")),
        help_entry(lit("d / x / y"), lit("Delete / yank selection")),
        help_entry(lit("Esc"), lit("Cancel selection")),
        Seq::empty(),
        lit("─── COMMAND MODE ───"),
        help_entry(lit(":w"), lit("Save file")),
        help_entry(lit(":w <path>"), lit("Save as")),
        help_entry(lit(":e <path>"), lit("Open file")),
        help_entry(lit(":q / :q!"), lit("Quit")),
        help_entry(lit(":wq"), lit("Save and quit")),
        help_entry(lit(":%s/find/replace"), lit("Replace hex pattern")),
        help_entry(lit(":h / :help"), lit("This help view")),
        help_entry(lit("Esc"), lit("Cancel, return to Normal")),
        Seq::empty(),
        lit("─── SEARCH MODE ───"),
        help_entry(lit("<query> Enter"), lit("Search text or hex (spaces optional, e.g. 48656C)")),
        help_entry(lit("Esc"), lit("Cancel")),
    ]
}

/// The lines of the help view.
pub fn help_lines() -> (v: Vec<String>)
    ensures
        v@.map_values(|s: String| s@) == help_text(),
{
    let mut v: Vec<String> = Vec::new();
    v.push(String::new());
    v.push(String::from_str("─── NORMAL MODE ───"));
    v.push(pad("h/← l/→ j/↓ k/↑", "Move cursor"));
    v.push(pad("0", "Go to row start"));
    v.push(pad("gg / G", "Go to top / bottom"));
    v.push(pad("Ctrl-D / Ctrl-U", "Page down / up"));
    v.push(pad("i / a", "Insert at cursor / after cursor"));
    v.push(pad("r / R", "Replace once / continuous replace"));
    v.push(pad("x / dd", "Delete byte / delete row"));
    v.push(pad("y / p / P", "Yank / paste after / paste before"));
    v.push(pad("u / Ctrl-R", "Undo / redo"));
    v.push(pad("Ctrl-O / Tab", "Jump back / forward in history"));
    v.push(pad("/  ?", "Search forward / backward"));
    v.push(pad("n / N", "Next / previous search result"));
    v.push(pad(":", "Enter command mode"));
    v.push(pad("v / V / Ctrl-V", "Visual char / line / block"));
    v.push(pad("z", "Toggle nibble mode (4-bit editing)"));
    v.push(String::new());
    v.push(String::from_str("─── INSERT MODE ───"));
    v.push(pad("<char>", "Insert byte at cursor"));
    v.push(pad("Esc", "Return to Normal"));
    v.push(pad("Backspace", "Delete byte before cursor"));
    v.push(String::new());
    v.push(String::from_str("─── REPLACE MODE ───"));
    v.push(pad("<char>", "Overwrite byte, advance cursor"));
    v.push(pad("Esc", "Return to Normal"));
    v.push(String::new());
    v.push(String::from_str("─── VISUAL MODE ───"));
    v.push(pad("h/j/k/l", "Extend selection"));
    v.push(pad("d / x / y", "Delete / yank selection"));
    v.push(pad("Esc", "Cancel selection"));
    v.push(String::new());
    v.push(String::from_str("─── COMMAND MODE ───"));
    v.push(pad(":w", "Save file"));
    v.push(pad(":w <path>", "Save as"));
    v.push(pad(":e <path>", "Open file"));
    v.push(pad(":q / :q!", "Quit"));
    v.push(pad(":wq", "Save and quit"));
    v.push(pad(":%s/find/replace", "Replace hex pattern"));
    v.push(pad(":h / :help", "This help view"));
    v.push(pad("Esc", "Cancel, return to Normal"));
    v.push(String::new());
    v.push(String::from_str("─── SEARCH MODE ───"));
    v.push(pad("<query> Enter", "Search text or hex (spaces optional, e.g. 48656C)"));
    v.push(pad("Esc", "Cancel"));
    assert(v@.map_values(|s: String| s@) =~= help_text());
    v
}

/// Whether a help line is a section heading: it starts with `───`.
pub fn is_heading(line: &str) -> (b: bool)
    ensures
        b == (line@.len() >= 3 && line@.take(3) == seq!['─', '─', '─']),
{
    let n = line.unicode_len();
    if n < 3 {
        return false;
    }
    let r = line.get_char(0) == '─' && line.get_char(1) == '─' && line.get_char(2) == '─';
    assert(r ==> line@.take(3) =~= seq!['─', '─', '─']);
    assert(line@.take(3) == seq!['─', '─', '─'] ==> line@.take(3)[1] == '─' && line@.take(3)[2] == '─');
    r
}

} // verus!
