//! Commands that hand on what the user has typed.

use crate::chat_entry::{ChatEntry, SessionId};
use vstd::prelude::*;

verus! {

/// Puts a user message into a session's queue.
#[derive(Debug, PartialEq, Eq)]
pub struct EnqueueUserMessage {
    pub session_id: SessionId,
    pub entry: ChatEntry,
}

/// Resumes a session's turn without a new message.
#[derive(Clone, Copy, Debug, PartialEq, Eq, Structural)]
pub struct EnqueueResumeTurn {
    pub session_id: SessionId,
}

/// Appends a text to a session's steering buffer.
#[derive(Debug, PartialEq, Eq)]
pub struct SubmitSteeringMessage {
    pub session_id: SessionId,
    pub text: String,
}

} // verus!
