use jinn_domain::app_state::{AppState, ChatSessionState};
use jinn_domain::chat_entry::SessionId;
use jinn_domain::context::context_files_scan_actor::{
    ContextFilesScanActor, ContextFilesScanActorDeps,
};
use jinn_domain::context::prompt_scan_actor::{
    PromptScanActor, PromptScanActorDeps, PromptScanOutcome,
};
use jinn_domain::context::prompt_template::{PromptTemplate, PromptTemplateStore};
use jinn_domain::context::protocol::ContextFile;
use jinn_domain::context::scan::{is_unsettled, ScanTrigger};

fn new_state() -> AppState {
    AppState::new(SessionId::new(), "/home/u".to_owned())
}

fn settled_state() -> AppState {
    let mut state = new_state();
    state.session.active.set_cwd("/home/u/work".to_owned());
    state
}

fn files_actor() -> ContextFilesScanActor {
    ContextFilesScanActor::new(ContextFilesScanActorDeps {
        home: "/home/u".to_owned(),
    })
}

fn prompts_actor() -> PromptScanActor {
    PromptScanActor::new(PromptScanActorDeps {
        home: "/home/u".to_owned(),
        user_dir: "/home/u/.prompts".to_owned(),
        system_dir: "/usr/share/prompts".to_owned(),
    })
}

fn agents_file() -> ContextFile {
    ContextFile {
        path: "/home/u/work/AGENTS.md".to_owned(),
        content: "# Project rules".to_owned(),
    }
}

fn code_template() -> PromptTemplate {
    PromptTemplate {
        name: "code".to_owned(),
        description: String::new(),
        body: "You are a coder.".to_owned(),
    }
}

#[test]
fn scan_context_files_command_writes_to_session_state() {
    // Given a session whose cwd has an AGENTS.md.
    let mut state = settled_state();
    let session_id = state.session.active.session_id;

    // When the scan that was asked for comes back.
    let scan = files_actor()
        .begin(&state, ScanTrigger::Reload(session_id))
        .expect("scan");
    assert_eq!(scan.cwd, "/home/u/work");
    assert_eq!(scan.home, "/home/u");
    let event = ContextFilesScanActor::finish(&mut state, scan.session_id, Ok(vec![agents_file()]));

    // Then the file is written to the session, and told of.
    assert_eq!(state.session.active.context_files, vec![agents_file()]);
    assert_eq!(event.session_id, session_id);
    assert_eq!(event.files, vec![agents_file()]);
    assert!(event.error.is_none());
}

#[test]
fn scan_context_files_empty_dir_emits_empty_loaded() {
    let mut state = settled_state();
    let session_id = state.session.active.session_id;
    let event = ContextFilesScanActor::finish(&mut state, session_id, Ok(Vec::new()));
    assert!(event.files.is_empty());
    assert!(event.error.is_none());
}

#[test]
fn a_failed_file_scan_keeps_the_files_and_says_why() {
    let mut state = settled_state();
    let session_id = state.session.active.session_id;
    state.session.active.context_files = vec![agents_file()];
    let event = ContextFilesScanActor::finish(&mut state, session_id, Err("cancelled".to_owned()));
    assert_eq!(state.session.active.context_files, vec![agents_file()]);
    assert!(event.files.is_empty());
    assert_eq!(
        event.error.as_deref(),
        Some("context-files scan task failed: cancelled")
    );
}

#[test]
fn events_scan_a_session_whose_cwd_is_settled() {
    let state = settled_state();
    let id = state.session.active.session_id;
    for trigger in [
        ScanTrigger::EnvironmentLoaded,
        ScanTrigger::SessionCreated(id),
        ScanTrigger::SessionSetupCompleted(id),
        ScanTrigger::SessionLoadCompleted(id),
        ScanTrigger::SessionCwdChanged(id),
        ScanTrigger::Reload(id),
    ] {
        assert_eq!(
            files_actor().begin(&state, trigger).expect("scan").session_id,
            id
        );
        let scan = prompts_actor().begin(&state, trigger).expect("scan");
        assert_eq!(scan.session_id, id);
        assert_eq!(scan.cwd, "/home/u/work");
        assert_eq!(scan.user_dir, "/home/u/.prompts");
        assert_eq!(scan.system_dir, "/usr/share/prompts");
    }
}

#[test]
fn context_files_scan_actor_session_created_event_skips_scan_when_cwd_is_sentinel() {
    // Given a session whose cwd is the pending "." sentinel.
    let state = new_state();
    let id = state.session.active.session_id;

    // Then no event sets off a scan, but the user can.
    for trigger in [
        ScanTrigger::EnvironmentLoaded,
        ScanTrigger::SessionCreated(id),
        ScanTrigger::SessionSetupCompleted(id),
        ScanTrigger::SessionLoadCompleted(id),
        ScanTrigger::SessionCwdChanged(id),
    ] {
        assert!(files_actor().begin(&state, trigger).is_none());
    }
    assert!(files_actor()
        .begin(&state, ScanTrigger::Reload(id))
        .is_some());
}

#[test]
fn prompt_scan_actor_session_created_event_skips_scan_when_cwd_is_sentinel() {
    let state = new_state();
    let id = state.session.active.session_id;
    assert!(prompts_actor()
        .begin(&state, ScanTrigger::SessionCreated(id))
        .is_none());
}

#[test]
fn a_session_that_is_gone_is_not_scanned_and_keeps_nothing() {
    let mut state = settled_state();
    let gone = SessionId::new();
    assert!(files_actor()
        .begin(&state, ScanTrigger::Reload(gone))
        .is_none());
    assert!(prompts_actor()
        .begin(&state, ScanTrigger::SessionCreated(gone))
        .is_none());
    let event = ContextFilesScanActor::finish(&mut state, gone, Ok(vec![agents_file()]));
    assert_eq!(event.files.len(), 1);
    assert!(state.session.active.context_files.is_empty());
}

#[test]
fn a_session_in_the_background_takes_in_its_own_scan() {
    let mut state = settled_state();
    let mut other = ChatSessionState::new(SessionId::new());
    other.set_cwd("/elsewhere".to_owned());
    let id = other.session_id;
    state.session.others.push(other);
    let scan = files_actor()
        .begin(&state, ScanTrigger::SessionCreated(id))
        .expect("scan");
    assert_eq!(scan.cwd, "/elsewhere");
    ContextFilesScanActor::finish(&mut state, id, Ok(vec![agents_file()]));
    PromptScanActor::finish(
        &mut state,
        id,
        PromptScanOutcome::Loaded(PromptTemplateStore::from_vec(vec![code_template()])),
    );
    assert!(state.session.active.context_files.is_empty());
    assert!(state.session.active.prompt_templates.templates.is_empty());
    assert_eq!(state.session.others[0].context_files.len(), 1);
    assert_eq!(
        state.session.others[0].prompt_templates.templates,
        vec![code_template()]
    );
}

#[test]
fn scan_prompts_writes_to_session_and_emits_session_tagged_event() {
    let mut state = settled_state();
    let session_id = state.session.active.session_id;
    let event = PromptScanActor::finish(
        &mut state,
        session_id,
        PromptScanOutcome::Loaded(PromptTemplateStore::from_vec(vec![code_template()])),
    );
    assert_eq!(event.session_id, session_id);
    assert!(event.error.is_none());
    assert_eq!(event.templates, vec![code_template()]);
    assert_eq!(
        state.session.active.prompt_templates.templates,
        vec![code_template()]
    );
}

#[test]
fn a_failed_prompt_scan_keeps_the_templates_and_says_why() {
    let mut state = settled_state();
    let id = state.session.active.session_id;
    state.session.active.prompt_templates = PromptTemplateStore::from_vec(vec![code_template()]);
    let failed = PromptScanActor::finish(
        &mut state,
        id,
        PromptScanOutcome::Failed("unreadable".to_owned()),
    );
    assert_eq!(failed.error.as_deref(), Some("unreadable"));
    let aborted = PromptScanActor::finish(
        &mut state,
        id,
        PromptScanOutcome::Aborted("panicked".to_owned()),
    );
    assert_eq!(aborted.error.as_deref(), Some("rescan task failed: panicked"));
    assert!(failed.templates.is_empty() && aborted.templates.is_empty());
    assert_eq!(state.session.active.prompt_templates.templates.len(), 1);
}

#[test]
fn only_the_dot_path_is_unsettled() {
    for path in [".", "./", "./.", ".//./"] {
        assert!(is_unsettled(path), "{path} is the dot path");
    }
    for path in ["", "/", "..", "./a", ".a", "a/.", "/."] {
        assert!(!is_unsettled(path), "{path} is another path");
    }
}
