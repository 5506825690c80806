//! Commands and events about what the prompt is assembled from.

use crate::chat_entry::{ChatEntryId, SessionId};
use crate::context::prompt_template::PromptTemplate;
use vstd::prelude::*;

verus! {

/// Loads the entries of the persona picker.
#[derive(Clone, Copy, Debug, PartialEq, Eq, Structural)]
pub struct LoadPersonaPickerEntries;

/// Scans a session's project for context files.
#[derive(Debug, PartialEq, Eq)]
pub struct ScanContextFiles {
    pub session_id: SessionId,
    pub cwd: String,
}

/// A persona: a named system prompt.
#[derive(Debug, PartialEq, Eq)]
pub struct Persona {
    pub name: String,
    pub body: String,
}

impl Persona {
    /// An equal copy.
    pub fn copy(&self) -> (copy: Persona)
        ensures
            copy == *self,
    {
        Persona { name: self.name.clone(), body: self.body.clone() }
    }
}

/// A project file that is put into the prompt.
#[derive(Debug, PartialEq, Eq)]
pub struct ContextFile {
    pub path: String,
    pub content: String,
}

impl ContextFile {
    /// An equal copy.
    pub fn copy(&self) -> (copy: ContextFile)
        ensures
            copy == *self,
    {
        ContextFile { path: self.path.clone(), content: self.content.clone() }
    }
}

/// Personas were read from disk, or could not be.
#[derive(Debug, PartialEq, Eq)]
pub struct PersonasLoaded {
    pub personas: Vec<Persona>,
    pub error: Option<String>,
}

/// The context override of an entry was changed.
#[derive(Clone, Copy, Debug, PartialEq, Eq, Structural)]
pub struct ContextOverrideChanged {
    pub session_id: SessionId,
    pub entry_id: ChatEntryId,
}

/// Context files were read for a session, or could not be.
#[derive(Debug, PartialEq, Eq)]
pub struct ContextFilesLoaded {
    pub session_id: SessionId,
    /// From the outermost directory to the working directory.
    pub files: Vec<ContextFile>,
    pub error: Option<String>,
}

/// Prompt templates were read for a session, or could not be.
#[derive(Debug, PartialEq, Eq)]
pub struct PromptTemplatesLoaded {
    pub session_id: SessionId,
    pub templates: Vec<PromptTemplate>,
    pub error: Option<String>,
}

} // verus!
