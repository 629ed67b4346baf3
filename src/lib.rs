pub mod collect;
pub mod config;
pub mod laws;
pub mod matcher;
pub mod search;
pub mod text;

pub use collect::{Entry, EntryKind, PathCollector};
pub use config::{Config, Flag};
pub use matcher::{match_text, search_case_insensitive_and_invert, select_folded};
pub use search::{MatchedContent, Search};
