//! Auto-prune workers: background strategies that take stale or redundant
//! entries out of the prompt.
//!
//! Each worker reads a history and answers with the changes it wants made. No
//! worker removes an entry; it only sets context overrides.

pub mod anchor_shield;
pub mod anchored_assistant;
pub mod broken_edit;
pub mod double_edit;
pub mod entry_token_cache;
pub mod min_age;
pub mod todo_prune;
pub mod tool_age_window;
pub mod tool_pairs;
pub mod trivial_assistant;

pub use crate::auto_prune_worker::anchor_shield::AnchorShieldAutoPruneWorker;
pub use crate::auto_prune_worker::broken_edit::BrokenEditAutoPruneWorker;
pub use crate::auto_prune_worker::double_edit::DoubleEditAutoPruneWorker;
pub use crate::auto_prune_worker::todo_prune::TodoAutoPruneWorker;
pub use crate::auto_prune_worker::tool_age_window::ToolAgeWindowAutoPruneWorker;
pub use crate::auto_prune_worker::entry_token_cache::HistoryWorkerChatEntryTokenCache;
pub use crate::auto_prune_worker::trivial_assistant::TrivialAssistantAutoPruneWorker;
