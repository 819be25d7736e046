//! Incremental directory-tree backup: the decisions behind a parallel,
//! staleness-checked copy of a source tree into a destination tree.

mod config;
mod run;
mod staleness;

pub use staleness::{should_copy_file, spec_verdict, Timestamp, Verdict};
pub use run::{parent_created_before, BackupRun, Outcome, Phase, Step, Take, WalkError};
pub use config::{
    config_from_entries, get_paths_from_config, mode_of_format, resolve_settings, spec_entries,
    spec_mode, spec_resolve, toml_string_entry, view_entries, view_entry, view_settings, ConfigError,
    Mode, Settings,
};
