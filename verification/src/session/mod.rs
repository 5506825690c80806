//! Chat sessions: the log of entries and what is selected in it.

pub mod chat_log;
