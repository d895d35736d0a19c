//! Editor settings.
use vstd::prelude::*;

verus! {

/// User settings of the editor.
#[derive(Debug, Clone, Copy)]
pub struct Config {
    pub max_undo_depth: usize,
    pub bytes_per_row: u64,
    pub mmap_threshold_mb: u64,
    pub show_ascii: bool,
    pub use_overwrite_mode: bool,
}

impl Config {
    /// The settings used when no configuration file is present.
    pub open spec fn default_spec() -> Config {
        Config {
            max_undo_depth: 5000,
            bytes_per_row: 16,
            mmap_threshold_mb: 500,
            show_ascii: true,
            use_overwrite_mode: false,
        }
    }
}

impl Default for Config {
    fn default() -> (cfg: Self)
        ensures
            cfg == Config::default_spec(),
    {
        Config {
            max_undo_depth: 5000,
            bytes_per_row: 16,
            mmap_threshold_mb: 500,
            show_ascii: true,
            use_overwrite_mode: false,
        }
    }
}

} // verus!
