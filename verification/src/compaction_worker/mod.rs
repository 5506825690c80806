//! Compaction: replacing the older part of a history by a summary.
//!
//! The start boundary lies after the last summary. A cut index leaves recent
//! entries within a token reserve, moved forward so that the kept part stands
//! on its own. The entries between are serialised for the summarising model.

pub mod algorithm;
pub mod serializer;
pub mod trigger_actor;

pub use crate::compaction_worker::trigger_actor::{
    CompactionAction, CompactionTrigger, CompactionTriggerActor,
};
