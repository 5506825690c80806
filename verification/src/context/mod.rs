//! Prompt assembly: token estimation, templates, tool prompts and scans.

pub mod context_files_scan_actor;
pub mod inputs;
pub mod prompt_scan_actor;
pub mod prompt_template;
pub mod protocol;
pub mod scan;
pub mod snapshot;
pub mod token_estimator;
pub mod tool_prompt;
