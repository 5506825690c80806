//! Which session an event makes to be scanned again.

use crate::app_state::SessionStore;
use crate::chat_entry::SessionId;
use crate::text::chars_of;
use vstd::prelude::*;

verus! {

/// What sets off a scan.
#[derive(Clone, Copy, Debug, PartialEq, Eq, Structural)]
pub enum ScanTrigger {
    /// The user asks for it.
    Reload(SessionId),
    EnvironmentLoaded,
    SessionCreated(SessionId),
    SessionSetupCompleted(SessionId),
    SessionLoadCompleted(SessionId),
    SessionCwdChanged(SessionId),
}

/// Whether a path is the `.` that stands for a working directory that is not
/// settled yet. Separators and further `.` segments behind it do not matter.
pub open spec fn unsettled(path: Seq<char>) -> bool {
    &&& path.len() > 0
    &&& path[0] == '.'
    &&& forall|i: int|
        0 < i < path.len() ==> (#[trigger] path[i] == '/' || path[i] == '.' && path[i - 1] == '/')
}

/// Whether a path is the `.` that stands for a working directory that is not
/// settled yet.
pub fn is_unsettled(path: &str) -> (yes: bool)
    ensures
        yes == unsettled(path@),
{
    let chars = chars_of(path);
    if chars.len() == 0 || chars[0] != '.' {
        return false;
    }
    let mut i: usize = 1;
    while i < chars.len()
        invariant
            1 <= i,
            chars@ == path@,
            forall|k: int|
                0 < k < i && k < path@.len() ==> (#[trigger] path@[k] == '/' || path@[k] == '.'
                    && path@[k - 1] == '/'),
        decreases chars@.len() - i,
    {
        if chars[i] != '/' && !(chars[i] == '.' && chars[i - 1] == '/') {
            assert(path@[i as int] != '/');
            return false;
        }
        i += 1;
    }
    true
}

/// Whether the session is there and its working directory is settled.
pub open spec fn scannable(store: SessionStore, id: SessionId) -> bool {
    store.lookup(id) matches Some(session) && !unsettled(session.cwd@)
}

/// The session to scan: the one that is asked for if it is there, and one that
/// an event is about if its working directory is settled as well.
pub open spec fn scan_target(store: SessionStore, trigger: ScanTrigger) -> Option<SessionId> {
    let (id, asked) = match trigger {
        ScanTrigger::Reload(id) => (id, true),
        ScanTrigger::EnvironmentLoaded => (store.active.session_id, false),
        ScanTrigger::SessionCreated(id) => (id, false),
        ScanTrigger::SessionSetupCompleted(id) => (id, false),
        ScanTrigger::SessionLoadCompleted(id) => (id, false),
        ScanTrigger::SessionCwdChanged(id) => (id, false),
    };
    if store.lookup(id) is Some && (asked || scannable(store, id)) {
        Some(id)
    } else {
        None
    }
}

/// No event sets off a scan of a session whose working directory is not
/// settled; the user can always have a session scanned that is there.
pub proof fn lemma_events_wait_for_cwd(store: SessionStore, trigger: ScanTrigger)
    ensures
        scan_target(store, trigger) matches Some(id) ==> store.lookup(id) is Some && (
        trigger is Reload || scannable(store, id)),
        trigger matches ScanTrigger::Reload(id) ==> (scan_target(store, trigger) is Some
            <==> store.lookup(id) is Some),
{
}

/// The working directory of the session, if it is there and its working
/// directory is settled.
pub fn scan_cwd_for_session(store: &SessionStore, session_id: &SessionId) -> (cwd: Option<String>)
    ensures
        match cwd {
            Some(c) => scannable(*store, *session_id) && c == store.lookup(
                *session_id,
            ).unwrap().cwd,
            None => !scannable(*store, *session_id),
        },
{
    match store.get(session_id) {
        Some(session) => if is_unsettled(session.cwd.as_str()) {
            None
        } else {
            Some(session.cwd.clone())
        },
        None => None,
    }
}

/// The session to scan and its working directory.
pub fn resolve_scan(store: &SessionStore, trigger: ScanTrigger) -> (target: Option<
    (SessionId, String),
>)
    ensures
        match target {
            Some((id, cwd)) => scan_target(*store, trigger) == Some(id) && store.lookup(
                id,
            ) is Some && cwd == store.lookup(id).unwrap().cwd,
            None => scan_target(*store, trigger) is None,
        },
{
    let id = match trigger {
        ScanTrigger::Reload(id) => {
            return match store.get(&id) {
                Some(session) => Some((id, session.cwd.clone())),
                None => None,
            };
        },
        ScanTrigger::EnvironmentLoaded => store.active.session_id,
        ScanTrigger::SessionCreated(id) => id,
        ScanTrigger::SessionSetupCompleted(id) => id,
        ScanTrigger::SessionLoadCompleted(id) => id,
        ScanTrigger::SessionCwdChanged(id) => id,
    };
    match scan_cwd_for_session(store, &id) {
        Some(cwd) => Some((id, cwd)),
        None => None,
    }
}

/// A working directory is not settled exactly when its path starts with a `.`,
/// has no other characters than `.` and `/`, and no two `.` side by side.
pub proof fn lemma_unsettled_paths(path: Seq<char>)
    ensures
        unsettled(path) <==> {
            &&& path.len() > 0 && path[0] == '.'
            &&& forall|i: int| 0 <= i < path.len() ==> #[trigger] path[i] == '.' || path[i] == '/'
            &&& forall|i: int, j: int|
                0 <= i && j == i + 1 && j < path.len() ==> !(#[trigger] path[i] == '.'
                    && #[trigger] path[j] == '.')
        },
{
    let pairs = forall|i: int, j: int|
        0 <= i && j == i + 1 && j < path.len() ==> !(#[trigger] path[i] == '.' && #[trigger] path[j]
            == '.');
    if pairs && path.len() > 0 && path[0] == '.' && (forall|i: int|
        0 <= i < path.len() ==> #[trigger] path[i] == '.' || path[i] == '/') {
        assert forall|i: int| 0 < i < path.len() implies (#[trigger] path[i] == '/' || path[i] == '.'
            && path[i - 1] == '/') by {
            assert(path[i - 1] == '.' || path[i - 1] == '/');
        }
    }
}

/// A working directory stays unsettled behind a further separator or `.`
/// segment; a path with any other segment is settled.
pub proof fn lemma_settled_paths(path: Seq<char>, segment: Seq<char>, i: int)
    requires
        0 <= i < segment.len(),
        segment[i] != '.',
        segment[i] != '/',
    ensures
        unsettled(seq!['.']),
        unsettled(path) ==> unsettled(path.push('/')) && unsettled(path.push('/').push('.')),
        !unsettled(path + segment),
        !unsettled(segment + path),
        !unsettled(Seq::<char>::empty()),
{
    assert((path + segment)[path.len() + i] == segment[i]);
    lemma_unsettled_paths(path + segment);
    lemma_unsettled_paths(segment + path);
    assert((segment + path)[i] == segment[i]);
    if unsettled(path) {
        let slashed = path.push('/');
        let dotted = slashed.push('.');
        assert forall|k: int| 0 < k < slashed.len() implies (#[trigger] slashed[k] == '/'
            || slashed[k] == '.' && slashed[k - 1] == '/') by {
            if k < path.len() {
                assert(path[k] == '/' || path[k] == '.' && path[k - 1] == '/');
            }
        }
        assert forall|k: int| 0 < k < dotted.len() implies (#[trigger] dotted[k] == '/'
            || dotted[k] == '.' && dotted[k - 1] == '/') by {
            if k < slashed.len() {
                assert(slashed[k] == '/' || slashed[k] == '.' && slashed[k - 1] == '/');
            }
        }
    }
}

/// An event makes the session that it is about to be scanned, and the end of
/// the start-up the one on screen, if that session is there and its working
/// directory is settled. What the user asks for is scanned in any case.
pub proof fn lemma_the_session_of_the_event_is_scanned(store: SessionStore, trigger: ScanTrigger)
    ensures
        match trigger {
            ScanTrigger::Reload(id) => scan_target(store, trigger) == if store.lookup(id) is Some {
                Some(id)
            } else {
                None
            },
            ScanTrigger::EnvironmentLoaded => scan_target(store, trigger) == if unsettled(
                store.active.cwd@,
            ) {
                None
            } else {
                Some(store.active.session_id)
            },
            ScanTrigger::SessionCreated(id)
            | ScanTrigger::SessionSetupCompleted(id)
            | ScanTrigger::SessionLoadCompleted(id)
            | ScanTrigger::SessionCwdChanged(id) => match store.lookup(id) {
                Some(session) => scan_target(store, trigger) == if unsettled(session.cwd@) {
                    None
                } else {
                    Some(id)
                },
                None => scan_target(store, trigger) is None,
            },
        },
{
}

/// A scan that is set off is one of the session that the event is about, in
/// that session's working directory.
pub proof fn lemma_resolved_scan(
    store: &SessionStore,
    id: SessionId,
    asked: Option<(SessionId, String)>,
    created: Option<(SessionId, String)>,
    loaded: Option<(SessionId, String)>,
)
    requires
        call_ensures(resolve_scan, (store, ScanTrigger::Reload(id)), asked),
        call_ensures(resolve_scan, (store, ScanTrigger::SessionCreated(id)), created),
        call_ensures(resolve_scan, (store, ScanTrigger::EnvironmentLoaded), loaded),
    ensures
        match store.lookup(id) {
            Some(session) => {
                &&& asked == Some((id, session.cwd))
                &&& created == if unsettled(session.cwd@) {
                    None
                } else {
                    Some((id, session.cwd))
                }
            },
            None => asked is None && created is None,
        },
        loaded == if unsettled(store.active.cwd@) {
            None
        } else {
            Some((store.active.session_id, store.active.cwd))
        },
{
    lemma_the_session_of_the_event_is_scanned(*store, ScanTrigger::Reload(id));
    lemma_the_session_of_the_event_is_scanned(*store, ScanTrigger::SessionCreated(id));
    lemma_the_session_of_the_event_is_scanned(*store, ScanTrigger::EnvironmentLoaded);
}

} // verus!
