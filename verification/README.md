# hexcore

A Vim-style terminal hex editor whose editing core is verified with Verus.

`src/` is the library. Its functions carry `requires`/`ensures` contracts
that Verus proves:

- `buffer` — the byte buffer, with byte and nibble (4-bit) editing;
- `commands`, `undo` — reversible edits and the undo/redo history;
- `cursor`, `jump_list` — cursor motion, char/line/block selections, the
  position history;
- `search` — text search and hex patterns with `??` wildcards;
- `file_io`, `config`, `text`, `nibble` — encoding detection, settings and
  helpers;
- `editor`, `normal_mode`, `edit_modes`, `visual_mode`, `block_mode`,
  `command_mode`, `key_limits` — the editor itself: a state machine from a key press to the
  next state, stated per mode and per key;
- `view`, `help` — the text of the hex rows, status line, command line, tabs
  and help view;
- `history` — every key keeps the undo history matching the buffer;
- `laws` — properties over several key presses and edits (undo after an edit,
  redo after undo, read after write, Esc, the nibble toggle, help scrolling,
  search results).

`app/` is the terminal program around it: it reads keys with crossterm, draws
with ratatui, reads and writes files, and loads the JSON settings. When the
library returns an `Effect::Save` or `Effect::Open`, the program does the file
work and reports back (`App::finish_save`, `App::open_file`, or
`App::report_error`).
