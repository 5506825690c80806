//! What an intent handler asks the rest of the client to do.

use crate::chat_entry::SessionId;
use crate::chat_input::protocol::{EnqueueUserMessage, SubmitSteeringMessage};
use crate::context::protocol::ContextOverrideChanged;
use crate::file_lister::ListDirectory;
use crate::focus::PickerKind;
use crate::history::TriggerCompaction;
use vstd::prelude::*;

verus! {

/// Saves a session.
#[derive(Clone, Copy, Debug, PartialEq, Eq, Structural)]
pub struct PersistSession {
    pub session_id: SessionId,
}

/// Notes that the user has worked in a session.
#[derive(Clone, Copy, Debug, PartialEq, Eq, Structural)]
pub struct MarkSessionInteracted {
    pub session_id: SessionId,
}

/// Changes a session's working directory.
#[derive(Debug, PartialEq, Eq)]
pub struct SetSessionCwd {
    pub session_id: SessionId,
    pub cwd: String,
}

/// Starts a new session from the given one.
#[derive(Clone, Copy, Debug, PartialEq, Eq, Structural)]
pub struct StartNewSession {
    pub from: SessionId,
}

/// Runs the close hook of a picker.
#[derive(Clone, Copy, Debug, PartialEq, Eq, Structural)]
pub struct ClosePicker {
    pub kind: PickerKind,
}

/// One request to the rest of the client.
#[derive(Debug, PartialEq, Eq)]
pub enum IntentMessage {
    PersistSession(PersistSession),
    ContextOverrideChanged(ContextOverrideChanged),
    EnqueueUserMessage(EnqueueUserMessage),
    SubmitSteeringMessage(SubmitSteeringMessage),
    MarkSessionInteracted(MarkSessionInteracted),
    TriggerCompaction(TriggerCompaction),
    StartNewSession(StartNewSession),
    ListDirectory(ListDirectory),
    SetSessionCwd(SetSessionCwd),
    ClosePicker(ClosePicker),
}

/// The name of a message's kind.
pub open spec fn message_name(message: IntentMessage) -> Seq<char> {
    match message {
        IntentMessage::PersistSession(_) => "PersistSession"@,
        IntentMessage::ContextOverrideChanged(_) => "ContextOverrideChanged"@,
        IntentMessage::EnqueueUserMessage(_) => "EnqueueUserMessage"@,
        IntentMessage::SubmitSteeringMessage(_) => "SubmitSteeringMessage"@,
        IntentMessage::MarkSessionInteracted(_) => "MarkSessionInteracted"@,
        IntentMessage::TriggerCompaction(_) => "TriggerCompaction"@,
        IntentMessage::StartNewSession(_) => "StartNewSession"@,
        IntentMessage::ListDirectory(_) => "ListDirectory"@,
        IntentMessage::SetSessionCwd(_) => "SetSessionCwd"@,
        IntentMessage::ClosePicker(_) => "ClosePicker"@,
    }
}

impl IntentMessage {
    /// The name of the message's kind.
    pub fn name(&self) -> (name: &'static str)
        ensures
            name@ == message_name(*self),
    {
        match self {
            IntentMessage::PersistSession(_) => "PersistSession",
            IntentMessage::ContextOverrideChanged(_) => "ContextOverrideChanged",
            IntentMessage::EnqueueUserMessage(_) => "EnqueueUserMessage",
            IntentMessage::SubmitSteeringMessage(_) => "SubmitSteeringMessage",
            IntentMessage::MarkSessionInteracted(_) => "MarkSessionInteracted",
            IntentMessage::TriggerCompaction(_) => "TriggerCompaction",
            IntentMessage::StartNewSession(_) => "StartNewSession",
            IntentMessage::ListDirectory(_) => "ListDirectory",
            IntentMessage::SetSessionCwd(_) => "SetSessionCwd",
            IntentMessage::ClosePicker(_) => "ClosePicker",
        }
    }
}

/// The messages that follow from an intent, in order.
#[derive(Debug, PartialEq, Eq)]
pub struct IntentResult {
    pub messages: Vec<IntentMessage>,
}

impl IntentResult {
    /// No messages.
    pub fn empty() -> (result: IntentResult)
        ensures
            result.messages@.len() == 0,
    {
        IntentResult { messages: Vec::new() }
    }

    /// One message.
    pub fn new_message(message: IntentMessage) -> (result: IntentResult)
        ensures
            result.messages@ == seq![message],
    {
        let mut messages: Vec<IntentMessage> = Vec::new();
        messages.push(message);
        assert(messages@ =~= seq![message]);
        IntentResult { messages }
    }

    /// The names of the messages.
    pub fn message_names(&self) -> (names: Vec<&'static str>)
        ensures
            names@.len() == self.messages@.len(),
            forall|i: int|
                0 <= i < names@.len() ==> (#[trigger] names@[i])@ == message_name(
                    self.messages@[i],
                ),
    {
        let mut names: Vec<&'static str> = Vec::new();
        let mut i: usize = 0;
        while i < self.messages.len()
            invariant
                i <= self.messages@.len(),
                names@.len() == i,
                forall|j: int|
                    0 <= j < i ==> (#[trigger] names@[j])@ == message_name(self.messages@[j]),
            decreases self.messages@.len() - i,
        {
            names.push(self.messages[i].name());
            i += 1;
        }
        names
    }
}

} // verus!
