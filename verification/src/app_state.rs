//! The state that the intent handlers read and change.

use crate::chat_entry::{ChatEntryId, SessionId};
use crate::chat_input::state;
use crate::chat_input::state::{ChatInputBoxState, InputMode};
use crate::context::inputs::{Skill, ToolRegistry};
use crate::context::prompt_template::{PromptTemplate, PromptTemplateStore};
use crate::context::protocol::{ContextFile, Persona};
use crate::cwd_input::CwdInputState;
use crate::file_lister::FilePickerState;
use crate::focus::{FocusScope, PickerKind};
use crate::line_input;
use crate::session::chat_log::ChatLog;
use vstd::prelude::*;

verus! {

/// What a session's turn is doing.
#[derive(Clone, Copy, Debug, PartialEq, Eq, Structural)]
pub enum PhaseKind {
    Idle,
    Assembling,
    Sending,
    Streaming,
}

/// One chat session.
pub struct ChatSessionState {
    pub session_id: SessionId,
    pub log: ChatLog,
    /// The input box; a session that is only watched has none.
    pub input: Option<ChatInputBoxState>,
    pub phase: PhaseKind,
    pub busy: bool,
    /// The working directory, `.` until it is settled.
    pub cwd: String,
    /// How many messages wait in the queue.
    pub queue_len: usize,
    /// How many fragments wait in the steering buffer.
    pub steering_len: usize,
    pub prompt_templates: PromptTemplateStore,
    pub context_files: Vec<ContextFile>,
    /// Where the cursor was before it jumped to a pin.
    pub saved_history_position: Option<ChatEntryId>,
    pub persona_name: String,
    pub provider_name: String,
    pub disabled_tools: Vec<String>,
    pub skills: Vec<Skill>,
    pub disabled_skills: Vec<String>,
    pub loaded_skills: Vec<String>,
}

impl ChatSessionState {
    /// Whether the cursor in the log is on an entry.
    pub open spec fn wf(self) -> bool {
        self.log.wf()
    }

    /// Whether this is an idle session with an empty log and input box, whose
    /// working directory is not settled yet.
    pub open spec fn is_new(self, session_id: SessionId) -> bool {
        &&& self.wf()
        &&& self.session_id == session_id
        &&& self.log.entries@.len() == 0
        &&& self.log.cursor is None
        &&& self.log.shown_blocks@.len() == 0
        &&& self.log.ignore_sweep is None
        &&& self.input matches Some(input) && input@ == (state::InputView {
            text: Seq::empty(),
            cursor: 0,
            popup: None,
            mode: InputMode::Queue,
            disabled: false,
            scroll_offset: 0,
            wrap_width: state::NO_WRAP as int,
        })
        &&& self.phase == PhaseKind::Idle
        &&& !self.busy
        &&& self.cwd@ == "."@
        &&& self.queue_len == 0
        &&& self.steering_len == 0
        &&& self.prompt_templates.templates@.len() == 0
        &&& self.context_files@.len() == 0
        &&& self.saved_history_position is None
        &&& self.persona_name@.len() == 0
        &&& self.provider_name@.len() == 0
        &&& self.disabled_tools@.len() == 0
        &&& self.skills@.len() == 0
        &&& self.disabled_skills@.len() == 0
        &&& self.loaded_skills@.len() == 0
    }

    /// An idle session with an empty log and input box, whose working
    /// directory is not settled yet.
    pub fn new(session_id: SessionId) -> (session: ChatSessionState)
        ensures
            session.is_new(session_id),
    {
        ChatSessionState {
            session_id,
            log: ChatLog::new(),
            input: Some(ChatInputBoxState::new()),
            phase: PhaseKind::Idle,
            busy: false,
            cwd: ".".to_owned(),
            queue_len: 0,
            steering_len: 0,
            prompt_templates: PromptTemplateStore::from_vec(Vec::new()),
            context_files: Vec::new(),
            saved_history_position: None,
            persona_name: String::new(),
            provider_name: String::new(),
            disabled_tools: Vec::new(),
            skills: Vec::new(),
            disabled_skills: Vec::new(),
            loaded_skills: Vec::new(),
        }
    }

    /// Notes that the model's answer streams in.
    pub fn begin_streaming(&mut self)
        ensures
            *final(self) == (ChatSessionState { phase: PhaseKind::Streaming, ..*old(self) }),
    {
        self.phase = PhaseKind::Streaming;
    }

    /// Changes the working directory.
    pub fn set_cwd(&mut self, cwd: String)
        ensures
            *final(self) == (ChatSessionState { cwd, ..*old(self) }),
    {
        self.cwd = cwd;
    }
}

/// The sessions of the client.
pub struct SessionStore {
    /// The session on screen.
    pub active: ChatSessionState,
    /// The sessions in the background.
    pub others: Vec<ChatSessionState>,
}

/// The index of the first session at or after `from` with this id.
pub open spec fn session_index(sessions: Seq<ChatSessionState>, from: int, id: SessionId) -> Option<
    int,
>
    decreases sessions.len() - from,
{
    if from < 0 || from >= sessions.len() {
        None
    } else if sessions[from].session_id == id {
        Some(from)
    } else {
        session_index(sessions, from + 1, id)
    }
}

impl SessionStore {
    /// The session with this id: the active one, or one in the background.
    pub open spec fn lookup(self, id: SessionId) -> Option<ChatSessionState> {
        if self.active.session_id == id {
            Some(self.active)
        } else {
            match session_index(self.others@, 0, id) {
                Some(i) => Some(self.others@[i]),
                None => None,
            }
        }
    }

    /// The index of the background session with this id.
    pub(crate) fn find_other(&self, id: &SessionId) -> (found: Option<usize>)
        ensures
            match found {
                Some(i) => session_index(self.others@, 0, *id) == Some(i as int) && i
                    < self.others@.len() && self.others@[i as int].session_id == *id,
                None => session_index(self.others@, 0, *id) is None,
            },
    {
        let mut i: usize = 0;
        while i < self.others.len()
            invariant
                session_index(self.others@, 0, *id) == session_index(self.others@, i as int, *id),
            decreases self.others@.len() - i,
        {
            if self.others[i].session_id == *id {
                return Some(i);
            }
            i += 1;
        }
        None
    }

    /// The session with this id.
    pub fn get(&self, id: &SessionId) -> (session: Option<&ChatSessionState>)
        ensures
            match session {
                Some(s) => self.lookup(*id) == Some(*s),
                None => self.lookup(*id) is None,
            },
    {
        if self.active.session_id == *id {
            return Some(&self.active);
        }
        match self.find_other(id) {
            Some(i) => Some(&self.others[i]),
            None => None,
        }
    }
}

proof fn lemma_session_index(sessions: Seq<ChatSessionState>, from: int, id: SessionId)
    ensures
        session_index(sessions, from, id) matches Some(i) ==> from <= i < sessions.len()
            && sessions[i].session_id == id,
    decreases sessions.len() - from,
{
    if 0 <= from < sessions.len() && sessions[from].session_id != id {
        lemma_session_index(sessions, from + 1, id);
    }
}

/// A session is found under its own id.
pub proof fn lemma_lookup(store: SessionStore, id: SessionId)
    ensures
        store.lookup(id) matches Some(session) ==> session.session_id == id,
        store.lookup(store.active.session_id) == Some(store.active),
{
    lemma_session_index(store.others@, 0, id);
}

/// What is on screen besides the sessions.
pub struct FrontendState {
    /// The focus scopes above the chat log, the topmost last.
    pub overlays: Vec<FocusScope>,
    /// The picker that was opened last.
    pub picker_kind: Option<PickerKind>,
    pub file_picker: FilePickerState,
    pub cwd_input: CwdInputState,
    /// Whether the user is asked to confirm that the answer is cancelled.
    pub cancel_stream_prompt: bool,
    /// The session that a new one is being created from.
    pub pending_creation: Option<SessionId>,
    /// The user's home directory.
    pub home: String,
}

impl FrontendState {
    /// The scope that takes the keys.
    pub open spec fn focus(self) -> FocusScope {
        if self.overlays@.len() == 0 {
            FocusScope::Normal
        } else {
            self.overlays@.last()
        }
    }

    /// Whether the screen is empty: no scope above the chat log, no picker
    /// opened yet, nothing listed or typed, and no question asked.
    pub open spec fn is_empty_screen(self, home: String) -> bool {
        &&& self.overlays@.len() == 0
        &&& self.picker_kind is None
        &&& self.file_picker.entries@.len() == 0
        &&& !self.file_picker.loading
        &&& self.file_picker.expected_request_id == 0
        &&& self.cwd_input.text@ == (line_input::LineView { text: Seq::empty(), cursor: 0 })
        &&& !self.cancel_stream_prompt
        &&& self.pending_creation is None
        &&& self.home == home
    }

    /// An empty screen.
    pub fn new(home: String) -> (frontend: FrontendState)
        ensures
            frontend.is_empty_screen(home),
    {
        FrontendState {
            overlays: Vec::new(),
            picker_kind: None,
            file_picker: FilePickerState::new(),
            cwd_input: CwdInputState::new(),
            cancel_stream_prompt: false,
            pending_creation: None,
            home,
        }
    }

    /// The scope that takes the keys.
    pub fn scope(&self) -> (scope: FocusScope)
        ensures
            scope == self.focus(),
    {
        let n: usize = self.overlays.len();
        if n == 0 {
            FocusScope::Normal
        } else {
            self.overlays[n - 1]
        }
    }

    /// Gives the keys to a scope.
    pub fn scope_push(&mut self, scope: FocusScope)
        ensures
            final(self).overlays@ == old(self).overlays@.push(scope),
            *final(self) == (FrontendState { overlays: final(self).overlays, ..*old(self) }),
    {
        self.overlays.push(scope);
    }

    /// Gives the keys back to the scope below.
    pub fn scope_pop(&mut self)
        ensures
            final(self).overlays@ == popped(old(self).overlays@),
            *final(self) == (FrontendState { overlays: final(self).overlays, ..*old(self) }),
    {
        let n: usize = self.overlays.len();
        if n > 0 {
            self.overlays.truncate(n - 1);
        }
        assert(self.overlays@ =~= popped(old(self).overlays@));
    }

    /// Gives the keys back to the chat log.
    pub fn scope_clear_overlays(&mut self)
        ensures
            final(self).overlays@.len() == 0,
            *final(self) == (FrontendState { overlays: final(self).overlays, ..*old(self) }),
    {
        self.overlays = Vec::new();
    }

    /// Whether a picker has the keys.
    pub fn is_picker(&self) -> (yes: bool)
        ensures
            yes == (self.focus() == FocusScope::Picker),
    {
        self.scope() == FocusScope::Picker
    }
}

/// The scopes without the topmost one.
pub open spec fn popped(overlays: Seq<FocusScope>) -> Seq<FocusScope> {
    if overlays.len() == 0 {
        overlays
    } else {
        overlays.drop_last()
    }
}

/// The whole state.
pub struct AppState {
    pub session: SessionStore,
    pub frontend: FrontendState,
    /// The personas, once they are loaded.
    pub personas: Option<Vec<Persona>>,
    /// The tools, once they are registered.
    pub tool_registry: Option<ToolRegistry>,
}

impl AppState {
    /// Whether the cursor in the active log is on an entry.
    pub open spec fn wf(self) -> bool {
        self.session.active.wf()
    }

    /// The templates of the active session.
    pub open spec fn templates(self) -> Seq<PromptTemplate> {
        self.session.active.prompt_templates.templates@
    }

    /// One new session and an empty screen.
    pub fn new(session_id: SessionId, home: String) -> (state: AppState)
        ensures
            state.wf(),
            state.session.active.is_new(session_id),
            state.session.others@.len() == 0,
            state.frontend.is_empty_screen(home),
            state.personas is None,
            state.tool_registry is None,
    {
        AppState {
            session: SessionStore {
                active: ChatSessionState::new(session_id),
                others: Vec::new(),
            },
            frontend: FrontendState::new(home),
            personas: None,
            tool_registry: None,
        }
    }
}

/// The index of a session is that of one with its id.
pub proof fn lemma_first_index(sessions: Seq<ChatSessionState>, id: SessionId)
    ensures
        session_index(sessions, 0, id) matches Some(i) ==> 0 <= i < sessions.len()
            && sessions[i].session_id == id,
{
    lemma_first_session(sessions, 0, id);
}

proof fn lemma_first_session(sessions: Seq<ChatSessionState>, from: int, id: SessionId)
    requires
        0 <= from,
    ensures
        session_index(sessions, from, id) matches Some(i) ==> from <= i < sessions.len()
            && sessions[i].session_id == id && forall|j: int|
            from <= j < i ==> (#[trigger] sessions[j]).session_id != id,
        session_index(sessions, from, id) is None ==> forall|j: int|
            from <= j < sessions.len() ==> (#[trigger] sessions[j]).session_id != id,
    decreases sessions.len() - from,
{
    if from < sessions.len() && sessions[from].session_id != id {
        lemma_first_session(sessions, from + 1, id);
    }
}

/// A session is found wherever it stands: the one on screen before those in
/// the background, and of these the first. An id that no session has finds
/// none.
pub proof fn lemma_every_session_is_found(store: SessionStore, id: SessionId)
    ensures
        store.active.session_id == id ==> store.lookup(id) == Some(store.active),
        store.active.session_id != id ==> match store.lookup(id) {
            Some(session) => exists|i: int|
                0 <= i < store.others@.len() && #[trigger] store.others@[i] == session
                    && session.session_id == id && forall|j: int|
                    0 <= j < i ==> (#[trigger] store.others@[j]).session_id != id,
            None => forall|i: int|
                0 <= i < store.others@.len() ==> (#[trigger] store.others@[i]).session_id != id,
        },
{
    lemma_first_session(store.others@, 0, id);
    if store.active.session_id != id && store.lookup(id) is Some {
        let i = session_index(store.others@, 0, id).unwrap();
        assert(store.others@[i] == store.lookup(id).unwrap());
    }
}

proof fn lemma_index_goes_by_ids(
    before: Seq<ChatSessionState>,
    after: Seq<ChatSessionState>,
    from: int,
    id: SessionId,
)
    requires
        before.len() == after.len(),
        forall|i: int|
            0 <= i < before.len() ==> (#[trigger] after[i]).session_id == before[i].session_id,
    ensures
        session_index(after, from, id) == session_index(before, from, id),
    decreases before.len() - from,
{
    if 0 <= from < before.len() {
        assert(after[from].session_id == before[from].session_id);
        lemma_index_goes_by_ids(before, after, from + 1, id);
    }
}

/// A change to the session that is found under an id, which keeps the id, is
/// seen there and under no other id.
pub proof fn lemma_changed_session_is_found(
    before: SessionStore,
    after: SessionStore,
    i: int,
    id: SessionId,
    other: SessionId,
)
    requires
        before.active.session_id != id,
        session_index(before.others@, 0, id) == Some(i),
        after.active == before.active,
        after.others@ == before.others@.update(i, after.others@[i]),
        after.others@[i].session_id == id,
        other != id,
    ensures
        after.lookup(id) == Some(after.others@[i]),
        after.lookup(other) == before.lookup(other),
{
    lemma_first_session(before.others@, 0, id);
    lemma_first_session(before.others@, 0, other);
    lemma_index_goes_by_ids(before.others@, after.others@, 0, id);
    lemma_index_goes_by_ids(before.others@, after.others@, 0, other);
}

/// A scope that is given the keys has them until it gives them back; then the
/// scopes are as they were. The chat log has the keys where no other scope
/// has, and cannot give them back.
pub proof fn lemma_scopes_are_a_stack(before: FrontendState, opened: FrontendState, scope: FocusScope)
    requires
        opened.overlays@ == before.overlays@.push(scope),
    ensures
        opened.focus() == scope,
        popped(opened.overlays@) == before.overlays@,
        before.overlays@.len() == 0 ==> before.focus() == FocusScope::Normal && popped(
            before.overlays@,
        ) == before.overlays@,
{
    assert(popped(opened.overlays@) =~= before.overlays@);
}

/// A session that is asked for is the one with that id, and none is given
/// where no session has it.
pub proof fn lemma_got_session(store: &SessionStore, id: &SessionId, got: Option<&ChatSessionState>)
    requires
        call_ensures(SessionStore::get, (store, id), got),
    ensures
        store.active.session_id == *id ==> got is Some && *got.unwrap() == store.active,
        got is Some ==> got.unwrap().session_id == *id && (*got.unwrap() == store.active
            || store.others@.contains(*got.unwrap())),
        got is None ==> store.active.session_id != *id && forall|i: int|
            0 <= i < store.others@.len() ==> (#[trigger] store.others@[i]).session_id != *id,
{
    lemma_every_session_is_found(*store, *id);
}

/// The topmost scope has the keys. One that is put on top has them then, and
/// taking the topmost off gives them back; without one the chat log has them.
pub proof fn lemma_topmost_scope_has_the_keys(
    frontend: &FrontendState,
    scope: FocusScope,
    pushed: FocusScope,
)
    requires
        call_ensures(FrontendState::scope, (frontend,), scope),
    ensures
        frontend.overlays@.len() == 0 ==> scope == FocusScope::Normal,
        frontend.overlays@.len() > 0 ==> scope == frontend.overlays@.last(),
        forall|f: &mut FrontendState|
            #[trigger] call_ensures(FrontendState::scope_push, (f, pushed), ()) ==> (*final(
                f)).overlays@ == (*f).overlays@.push(pushed) && (*final(f)).focus() == pushed,
        forall|f: &mut FrontendState|
            #[trigger] call_ensures(FrontendState::scope_pop, (f,), ()) ==> if (*f).overlays@.len()
                == 0 {
                (*final(f)).overlays@ == (*f).overlays@
            } else {
                (*final(f)).overlays@ == (*f).overlays@.drop_last()
            },
        forall|f: &mut FrontendState|
            #[trigger] call_ensures(FrontendState::scope_clear_overlays, (f,), ()) ==> (*final(
                f)).focus() == FocusScope::Normal,
{
}

} // verus!
