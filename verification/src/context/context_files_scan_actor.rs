//! Scans for project context files: which session to scan, and what becomes of
//! the files that were read.

use crate::app_state;
use crate::app_state::AppState;
use crate::chat_entry::SessionId;
use crate::context::protocol::{ContextFile, ContextFilesLoaded};
use crate::context::scan;
use crate::context::scan::{resolve_scan, ScanTrigger};
use crate::context::snapshot::copy_files;
use vstd::prelude::*;

verus! {

/// What the scan needs besides the sessions.
#[derive(Debug, PartialEq, Eq)]
pub struct ContextFilesScanActorDeps {
    /// The user's home directory, where the walk up the directories stops.
    pub home: String,
}

/// Decides on scans for context files and takes in what they found.
#[derive(Debug, PartialEq, Eq)]
pub struct ContextFilesScanActor {
    pub deps: ContextFilesScanActorDeps,
}

/// A scan to run: the directories from `cwd` up to `home`.
#[derive(Debug, PartialEq, Eq)]
pub struct ContextFilesScan {
    pub session_id: SessionId,
    pub cwd: String,
    pub home: String,
}

/// Whether the files are those of the session now and nothing else changed. A
/// session that is gone keeps nothing.
pub open spec fn files_stored(
    before: AppState,
    after: AppState,
    id: SessionId,
    files: Seq<ContextFile>,
) -> bool {
    if before.session.active.session_id == id {
        &&& after.session.active.context_files@ == files
        &&& after == (AppState {
            session: app_state::SessionStore {
                active: app_state::ChatSessionState {
                    context_files: after.session.active.context_files,
                    ..before.session.active
                },
                ..before.session
            },
            ..before
        })
    } else {
        match app_state::session_index(before.session.others@, 0, id) {
            Some(i) => {
                let stored = after.session.others@[i].context_files;
                &&& stored@ == files
                &&& after.session.others@ == before.session.others@.update(
                    i,
                    app_state::ChatSessionState {
                        context_files: stored,
                        ..before.session.others@[i]
                    },
                )
                &&& after == (AppState {
                    session: app_state::SessionStore {
                        others: after.session.others,
                        ..before.session
                    },
                    ..before
                })
            },
            None => after == before,
        }
    }
}

impl ContextFilesScanActor {
    /// An actor with what it needs.
    pub fn new(deps: ContextFilesScanActorDeps) -> (actor: ContextFilesScanActor)
        ensures
            actor.deps == deps,
    {
        ContextFilesScanActor { deps }
    }

    /// The scan that a trigger sets off, if any.
    pub fn begin(&self, state: &AppState, trigger: ScanTrigger) -> (started: Option<
        ContextFilesScan,
    >)
        ensures
            match started {
                Some(s) => {
                    &&& scan::scan_target(state.session, trigger) == Some(s.session_id)
                    &&& state.session.lookup(s.session_id) matches Some(session) && s.cwd
                        == session.cwd
                    &&& s.home == self.deps.home
                },
                None => scan::scan_target(state.session, trigger) is None,
            },
    {
        match resolve_scan(&state.session, trigger) {
            Some((session_id, cwd)) => Some(
                ContextFilesScan { session_id, cwd, home: self.deps.home.clone() },
            ),
            None => None,
        }
    }

    /// Takes in what a scan found, or why it failed, and tells of it.
    pub fn finish(
        state: &mut AppState,
        session_id: SessionId,
        found: Result<Vec<ContextFile>, String>,
    ) -> (event: ContextFilesLoaded)
        ensures
            event.session_id == session_id,
            match found {
                Ok(files) => {
                    &&& files_stored(*old(state), *final(state), session_id, files@)
                    &&& event.files == files
                    &&& event.error is None
                },
                Err(reason) => {
                    &&& *final(state) == *old(state)
                    &&& event.files@.len() == 0
                    &&& event.error matches Some(e) && e@ == "context-files scan task failed: "@
                        + reason@
                },
            },
    {
        match found {
            Ok(files) => {
                let copy = copy_files(&files);
                if state.session.active.session_id == session_id {
                    state.session.active.context_files = copy;
                } else if let Some(i) = state.session.find_other(&session_id) {
                    state.session.others[i].context_files = copy;
                }
                ContextFilesLoaded { session_id, files, error: None }
            },
            Err(reason) => {
                let mut error = "context-files scan task failed: ".to_owned();
                error.append(reason.as_str());
                ContextFilesLoaded { session_id, files: Vec::new(), error: Some(error) }
            },
        }
    }
}

/// The files are found in the session that was scanned. The rest of that
/// session, every other session and the screen stay as they were; if the
/// session is gone, everything does.
pub proof fn lemma_files_reach_their_session(
    before: AppState,
    after: AppState,
    id: SessionId,
    files: Seq<ContextFile>,
    other: SessionId,
)
    requires
        files_stored(before, after, id, files),
        other != id,
    ensures
        before.session.lookup(id) is None ==> after == before,
        before.session.lookup(id) matches Some(session) ==> {
            &&& after.session.lookup(id) is Some
            &&& after.session.lookup(id).unwrap().context_files@ == files
            &&& after.session.lookup(id).unwrap() == (app_state::ChatSessionState {
                context_files: after.session.lookup(id).unwrap().context_files,
                ..session
            })
        },
        after.session.lookup(other) == before.session.lookup(other),
        after.session.active.session_id == before.session.active.session_id,
        after.frontend == before.frontend,
        after.personas == before.personas,
        after.tool_registry == before.tool_registry,
{
    app_state::lemma_every_session_is_found(before.session, id);
    if before.session.active.session_id != id {
        if let Some(i) = app_state::session_index(before.session.others@, 0, id) {
            app_state::lemma_lookup(before.session, id);
            app_state::lemma_first_index(before.session.others@, id);
            app_state::lemma_changed_session_is_found(before.session, after.session, i, id, other);
        }
    }
}

/// Files that a scan found are told of and found in their session, and in no
/// other; a scan that failed changes nothing and tells why.
pub proof fn lemma_finished_scan(
    id: SessionId,
    other: SessionId,
    found: Result<Vec<ContextFile>, String>,
    event: ContextFilesLoaded,
)
    requires
        other != id,
    ensures
        forall|state: &mut AppState|
            #[trigger] call_ensures(ContextFilesScanActor::finish, (state, id, found), event) ==> {
                let (before, after) = (*state, *final(state));
                &&& event.session_id == id
                &&& after.session.lookup(other) == before.session.lookup(other)
                &&& after.frontend == before.frontend
                &&& found is Ok ==> {
                    &&& event.error is None && event.files@ == found->Ok_0@
                    &&& before.session.lookup(id) is Some ==> after.session.lookup(id) is Some
                        && after.session.lookup(id).unwrap().context_files@ == found->Ok_0@
                }
                &&& found is Err ==> after == before && event.error is Some && event.files@.len()
                    == 0
            },
{
    assert forall|state: &mut AppState|
        #[trigger] call_ensures(ContextFilesScanActor::finish, (state, id, found), event)
            && found is Ok implies ({
        let (before, after) = (*state, *final(state));
        &&& after.session.lookup(other) == before.session.lookup(other)
        &&& after.frontend == before.frontend
        &&& before.session.lookup(id) is Some ==> after.session.lookup(id) is Some
            && after.session.lookup(id).unwrap().context_files@ == found->Ok_0@
    }) by {
        lemma_files_reach_their_session(*state, *final(state), id, found->Ok_0@, other);
    }
}

/// A scan runs from the session's own directory up to the home directory.
pub proof fn lemma_begun_scan(
    actor: &ContextFilesScanActor,
    state: &AppState,
    id: SessionId,
    started: Option<ContextFilesScan>,
)
    requires
        call_ensures(ContextFilesScanActor::begin, (actor, state, ScanTrigger::Reload(id)), started),
    ensures
        started is Some <==> state.session.lookup(id) is Some,
        started is Some ==> {
            let scan = started.unwrap();
            &&& scan.session_id == id
            &&& scan.cwd == state.session.lookup(id).unwrap().cwd
            &&& scan.home == actor.deps.home
        },
{
    scan::lemma_the_session_of_the_event_is_scanned(state.session, ScanTrigger::Reload(id));
}

} // verus!
