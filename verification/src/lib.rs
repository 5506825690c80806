//! Domain logic of an LLM chat client: the chat history and its context
//! rules, the workers that prune and compact it, the input box with its
//! autocomplete, and the pickers around them.

pub mod app_state;
pub mod auto_prune_worker;
pub mod chat_entry;
pub mod chat_entry_selection;
pub mod chat_input;
pub mod compaction_worker;
pub mod context;
pub mod cwd_input;
pub mod endpoint;
pub mod file_lister;
pub mod focus;
pub mod global;
pub mod history;
pub mod intent_result;
pub mod line_input;
pub mod session;
pub mod text;
