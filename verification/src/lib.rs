//! Core of a terminal hex editor: an editable byte buffer with nibble
//! editing, reversible edit commands with an undo/redo history, a cursor
//! with char/line/block selections, a jump list, byte-pattern search and
//! encoding detection. Every operation carries a contract proved by Verus.
use vstd::prelude::*;

pub mod block_mode;
pub mod buffer;
pub mod command_mode;
pub mod commands;
pub mod config;
pub mod cursor;
pub mod edit_modes;
pub mod editor;
pub mod file_io;
pub mod help;
pub mod history;
pub mod jump_list;
pub mod key_limits;
pub mod laws;
pub mod nibble;
pub mod normal_mode;
pub mod search;
pub mod text;
pub mod undo;
pub mod view;
pub mod visual_mode;

pub use buffer::ByteBuffer;
pub use commands::EditCommand;
pub use config::Config;
pub use cursor::{Cursor, SelectionMode};
pub use editor::{App, Effect, KeyCode, KeyEvent, Mode, TabInfo};
pub use file_io::FileIo;
pub use jump_list::JumpList;
pub use search::Searcher;
pub use undo::UndoManager;

