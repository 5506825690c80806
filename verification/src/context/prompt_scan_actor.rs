//! Scans for prompt templates: which session to scan, and what becomes of the
//! templates that were read.

use crate::app_state;
use crate::app_state::AppState;
use crate::chat_entry::SessionId;
use crate::context::prompt_template::{PromptTemplate, PromptTemplateStore};
use crate::context::protocol::PromptTemplatesLoaded;
use crate::context::scan;
use crate::context::scan::{resolve_scan, ScanTrigger};
use vstd::prelude::*;

verus! {

/// What the scan needs besides the sessions.
#[derive(Debug, PartialEq, Eq)]
pub struct PromptScanActorDeps {
    /// The user's home directory, where the walk up the directories stops.
    pub home: String,
    /// The directory of the user's templates.
    pub user_dir: String,
    /// The directory of the templates that come with the client.
    pub system_dir: String,
}

/// Decides on scans for prompt templates and takes in what they found.
#[derive(Debug, PartialEq, Eq)]
pub struct PromptScanActor {
    pub deps: PromptScanActorDeps,
}

/// A scan to run.
#[derive(Debug, PartialEq, Eq)]
pub struct PromptScan {
    pub session_id: SessionId,
    pub cwd: String,
    pub home: String,
    pub user_dir: String,
    pub system_dir: String,
}

/// How a scan ended.
#[derive(Debug, PartialEq, Eq)]
pub enum PromptScanOutcome {
    /// The templates, merged.
    Loaded(PromptTemplateStore),
    /// The directories could not be read.
    Failed(String),
    /// The scan itself broke off.
    Aborted(String),
}

/// Whether the templates are those of the session now and nothing else
/// changed. A session that is gone keeps nothing.
pub open spec fn templates_stored(
    before: AppState,
    after: AppState,
    id: SessionId,
    templates: Seq<PromptTemplate>,
) -> bool {
    if before.session.active.session_id == id {
        &&& after.session.active.prompt_templates.templates@ == templates
        &&& after == (AppState {
            session: app_state::SessionStore {
                active: app_state::ChatSessionState {
                    prompt_templates: after.session.active.prompt_templates,
                    ..before.session.active
                },
                ..before.session
            },
            ..before
        })
    } else {
        match app_state::session_index(before.session.others@, 0, id) {
            Some(i) => {
                let stored = after.session.others@[i].prompt_templates;
                &&& stored.templates@ == templates
                &&& after.session.others@ == before.session.others@.update(
                    i,
                    app_state::ChatSessionState {
                        prompt_templates: stored,
                        ..before.session.others@[i]
                    },
                )
                &&& after == (AppState {
                    session: app_state::SessionStore {
                        others: after.session.others,
                        ..before.session
                    },
                    ..before
                })
            },
            None => after == before,
        }
    }
}

/// An equal copy of the templates.
fn copy_templates(templates: &Vec<PromptTemplate>) -> (copy: Vec<PromptTemplate>)
    ensures
        copy@ == templates@,
{
    let mut copy: Vec<PromptTemplate> = Vec::new();
    let mut i: usize = 0;
    while i < templates.len()
        invariant
            i <= templates@.len(),
            copy@ == templates@.take(i as int),
        decreases templates@.len() - i,
    {
        copy.push(templates[i].copy());
        assert(templates@.take(i + 1) =~= templates@.take(i as int).push(templates@[i as int]));
        i += 1;
    }
    assert(templates@.take(i as int) =~= templates@);
    copy
}

impl PromptScanActor {
    /// An actor with what it needs.
    pub fn new(deps: PromptScanActorDeps) -> (actor: PromptScanActor)
        ensures
            actor.deps == deps,
    {
        PromptScanActor { deps }
    }

    /// The scan that a trigger sets off, if any.
    pub fn begin(&self, state: &AppState, trigger: ScanTrigger) -> (started: Option<PromptScan>)
        ensures
            match started {
                Some(s) => {
                    &&& scan::scan_target(state.session, trigger) == Some(s.session_id)
                    &&& state.session.lookup(s.session_id) matches Some(session) && s.cwd
                        == session.cwd
                    &&& s.home == self.deps.home
                    &&& s.user_dir == self.deps.user_dir
                    &&& s.system_dir == self.deps.system_dir
                },
                None => scan::scan_target(state.session, trigger) is None,
            },
    {
        match resolve_scan(&state.session, trigger) {
            Some((session_id, cwd)) => Some(
                PromptScan {
                    session_id,
                    cwd,
                    home: self.deps.home.clone(),
                    user_dir: self.deps.user_dir.clone(),
                    system_dir: self.deps.system_dir.clone(),
                },
            ),
            None => None,
        }
    }

    /// Takes in what a scan found, or why it failed, and tells of it.
    pub fn finish(state: &mut AppState, session_id: SessionId, outcome: PromptScanOutcome) -> (
    event: PromptTemplatesLoaded)
        ensures
            event.session_id == session_id,
            match outcome {
                PromptScanOutcome::Loaded(store) => {
                    &&& templates_stored(
                        *old(state),
                        *final(state),
                        session_id,
                        store.templates@,
                    )
                    &&& event.templates@ == store.templates@
                    &&& event.error is None
                },
                PromptScanOutcome::Failed(reason) => {
                    &&& *final(state) == *old(state)
                    &&& event.templates@.len() == 0
                    &&& event.error == Some(reason)
                },
                PromptScanOutcome::Aborted(reason) => {
                    &&& *final(state) == *old(state)
                    &&& event.templates@.len() == 0
                    &&& event.error matches Some(e) && e@ == "rescan task failed: "@ + reason@
                },
            },
    {
        match outcome {
            PromptScanOutcome::Loaded(store) => {
                let copy = PromptTemplateStore::from_vec(copy_templates(&store.templates));
                if state.session.active.session_id == session_id {
                    state.session.active.prompt_templates = copy;
                } else if let Some(i) = state.session.find_other(&session_id) {
                    state.session.others[i].prompt_templates = copy;
                }
                PromptTemplatesLoaded { session_id, templates: store.templates, error: None }
            },
            PromptScanOutcome::Failed(reason) => {
                PromptTemplatesLoaded { session_id, templates: Vec::new(), error: Some(reason) }
            },
            PromptScanOutcome::Aborted(reason) => {
                let mut error = "rescan task failed: ".to_owned();
                error.append(reason.as_str());
                PromptTemplatesLoaded { session_id, templates: Vec::new(), error: Some(error) }
            },
        }
    }
}

/// The templates are found in the session that was scanned. The rest of that
/// session, every other session and the screen stay as they were; if the
/// session is gone, everything does.
pub proof fn lemma_templates_reach_their_session(
    before: AppState,
    after: AppState,
    id: SessionId,
    templates: Seq<PromptTemplate>,
    other: SessionId,
)
    requires
        templates_stored(before, after, id, templates),
        other != id,
    ensures
        before.session.lookup(id) is None ==> after == before,
        before.session.lookup(id) matches Some(session) ==> {
            &&& after.session.lookup(id) is Some
            &&& after.session.lookup(id).unwrap().prompt_templates.templates@ == templates
            &&& after.session.lookup(id).unwrap() == (app_state::ChatSessionState {
                prompt_templates: after.session.lookup(id).unwrap().prompt_templates,
                ..session
            })
        },
        after.session.lookup(other) == before.session.lookup(other),
        after.session.active.session_id == before.session.active.session_id,
        after.frontend == before.frontend,
        after.personas == before.personas,
        after.tool_registry == before.tool_registry,
{
    app_state::lemma_every_session_is_found(before.session, id);
    if before.session.active.session_id != id {
        if let Some(i) = app_state::session_index(before.session.others@, 0, id) {
            app_state::lemma_lookup(before.session, id);
            app_state::lemma_first_index(before.session.others@, id);
            app_state::lemma_changed_session_is_found(before.session, after.session, i, id, other);
        }
    }
}

/// Templates that a scan found are told of and found in their session, and in
/// no other; a scan that failed changes nothing and tells why.
pub proof fn lemma_finished_scan(
    id: SessionId,
    other: SessionId,
    outcome: PromptScanOutcome,
    event: PromptTemplatesLoaded,
)
    requires
        other != id,
    ensures
        forall|state: &mut AppState|
            #[trigger] call_ensures(PromptScanActor::finish, (state, id, outcome), event) ==> {
                let (before, after) = (*state, *final(state));
                &&& event.session_id == id
                &&& after.session.lookup(other) == before.session.lookup(other)
                &&& after.frontend == before.frontend
                &&& outcome matches PromptScanOutcome::Loaded(store) ==> {
                    &&& event.error is None && event.templates@ == store.templates@
                    &&& before.session.lookup(id) is Some ==> after.session.lookup(id) is Some
                        && after.session.lookup(id).unwrap().prompt_templates.templates@
                        == store.templates@
                }
                &&& !(outcome is Loaded) ==> after == before && event.error is Some
                    && event.templates@.len() == 0
            },
{
    assert forall|state: &mut AppState|
        #[trigger] call_ensures(PromptScanActor::finish, (state, id, outcome), event)
            && outcome is Loaded implies ({
        let (before, after) = (*state, *final(state));
        &&& after.session.lookup(other) == before.session.lookup(other)
        &&& after.frontend == before.frontend
        &&& before.session.lookup(id) is Some ==> after.session.lookup(id) is Some
            && after.session.lookup(id).unwrap().prompt_templates.templates@
            == outcome->Loaded_0.templates@
    }) by {
        lemma_templates_reach_their_session(
            *state,
            *final(state),
            id,
            outcome->Loaded_0.templates@,
            other,
        );
    }
}

/// A scan runs in the session's own directory and looks into the directories
/// that the actor was given, each for its own purpose.
pub proof fn lemma_begun_scan(
    actor: &PromptScanActor,
    state: &AppState,
    id: SessionId,
    started: Option<PromptScan>,
)
    requires
        call_ensures(PromptScanActor::begin, (actor, state, ScanTrigger::Reload(id)), started),
    ensures
        started is Some <==> state.session.lookup(id) is Some,
        started is Some ==> {
            let scan = started.unwrap();
            &&& scan.session_id == id
            &&& scan.cwd == state.session.lookup(id).unwrap().cwd
            &&& scan.home == actor.deps.home
            &&& scan.user_dir == actor.deps.user_dir
            &&& scan.system_dir == actor.deps.system_dir
        },
{
    scan::lemma_the_session_of_the_event_is_scanned(state.session, ScanTrigger::Reload(id));
}

} // verus!
