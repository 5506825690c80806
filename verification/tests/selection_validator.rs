use jinn_domain::app_state::AppState;
use jinn_domain::chat_entry::{
    ChatEntry, ChatEntryId, ChatEntryKind, ContextOverride, PinPosition, SessionId,
    ToolResultStatus, UrlCitation,
};
use jinn_domain::chat_entry_selection::validator::{
    validate_chat_entry_ignore_selected, validate_chat_entry_isolate_selected,
    validate_chat_entry_pin_selected, validate_chat_entry_reset_selected,
    validate_chat_entry_select_next, validate_chat_entry_select_prev, validate_expand_tool_entry,
    validate_fork_from_entry, validate_new_session_from_entry, validate_yank_selected,
    ChatEntryIgnoreSelectedError, ChatEntryIsolateSelectedError, ChatEntryPinSelectedError,
    ChatEntryResetSelectedError, ExpandEntryError, ForkFromEntryError, NewSessionFromEntryError,
    YankSelectedError,
};

fn new_state() -> AppState {
    AppState::new(SessionId::new(), "/home/u".to_owned())
}

#[test]
fn fork_from_entry_rejects_empty_history() {
    // Given an empty session.
    let state = new_state();

    // When validating fork from entry.
    let result = validate_fork_from_entry(&state);

    // Then validation fails with EmptyHistory.
    assert!(matches!(result, Err(ForkFromEntryError::EmptyHistory)));
}

#[test]
fn fork_from_entry_rejects_no_selection() {
    // Given a state with entries but no selection.
    let mut state = new_state();
    state.session.active.log.push_entry(ChatEntry::user("hello"));
    state.session.active.log.clear_selection();

    // When validating fork from entry.
    let result = validate_fork_from_entry(&state);

    // Then validation fails with NoSelection.
    assert!(matches!(result, Err(ForkFromEntryError::NoSelection)));
}

#[test]
fn fork_from_entry_accepts_selected_entry() {
    // Given a state with a selected entry.
    let mut state = new_state();
    state.session.active.log.push_entry(ChatEntry::user("hello"));
    state.session.active.log.select_next_entry();

    // When validating fork from entry.
    let result = validate_fork_from_entry(&state);

    // Then validation succeeds.
    assert!(result.is_ok());
}

#[test]
fn new_session_from_entry_rejects_empty_history() {
    // Given an empty session.
    let state = new_state();

    // When validating new session from entry.
    let result = validate_new_session_from_entry(&state);

    // Then validation fails with EmptyHistory.
    assert!(matches!(
        result,
        Err(NewSessionFromEntryError::EmptyHistory)
    ));
}

#[test]
fn new_session_from_entry_rejects_no_selection() {
    // Given a state with entries but no selection.
    let mut state = new_state();
    state.session.active.log.push_entry(ChatEntry::user("hello"));
    state.session.active.log.clear_selection();

    // When validating new session from entry.
    let result = validate_new_session_from_entry(&state);

    // Then validation fails with NoSelection.
    assert!(matches!(result, Err(NewSessionFromEntryError::NoSelection)));
}

#[test]
fn new_session_from_entry_rejects_system_entry() {
    // Given a state with a selected System entry.
    let mut state = new_state();
    state.session.active.log.push_entry(ChatEntry::system("status update"));
    state.session.active.log.select_next_entry();

    // When validating new session from entry.
    let result = validate_new_session_from_entry(&state);

    // Then validation fails with InvalidKind.
    assert!(matches!(result, Err(NewSessionFromEntryError::InvalidKind)));
}

#[test]
fn new_session_from_entry_rejects_tool_result_entry() {
    // Given a state with a selected ToolResult entry.
    let mut state = new_state();
    state.session.active.log.push_entry(ChatEntry::tool_result(
            "call-1",
            "bash",
            "ok",
            ToolResultStatus::Success,
        ));
    state.session.active.log.select_next_entry();

    // When validating new session from entry.
    let result = validate_new_session_from_entry(&state);

    // Then validation fails with InvalidKind.
    assert!(matches!(result, Err(NewSessionFromEntryError::InvalidKind)));
}

#[test]
fn new_session_from_entry_accepts_user_entry() {
    // Given a state with a selected User entry.
    let mut state = new_state();
    state.session.active.log.push_entry(ChatEntry::user("hello"));
    state.session.active.log.select_next_entry();

    // When validating new session from entry.
    let result = validate_new_session_from_entry(&state);

    // Then validation succeeds.
    assert!(result.is_ok());
}

#[test]
fn new_session_from_entry_accepts_assistant_entry() {
    // Given a state with a selected Assistant entry.
    let mut state = new_state();
    state.session.active.log.push_entry(ChatEntry::assistant("a metaprompt"));
    state.session.active.log.select_next_entry();

    // When validating new session from entry.
    let result = validate_new_session_from_entry(&state);

    // Then validation succeeds.
    assert!(result.is_ok());
}

#[test]
fn pin_selected_succeeds_with_transient_entry() {
    // Given a state with a selected transient entry.
    let mut state = new_state();
    state.session.active.log.push_entry(ChatEntry::transient("welcome"));
    state.session.active.log.select_next_entry();

    // When validating pin selected.
    let result = validate_chat_entry_pin_selected(&state);

    // Then it succeeds (all entry types can be pinned).
    assert!(result.is_ok());
}

#[test]
fn pin_selected_succeeds_with_system_entry() {
    // Given a state with a selected system entry.
    let mut state = new_state();
    state.session.active.log.push_entry(ChatEntry::system("status"));
    state.session.active.log.select_next_entry();

    // When validating pin selected.
    let result = validate_chat_entry_pin_selected(&state);

    // Then it succeeds (all entry types can be pinned).
    assert!(result.is_ok());
}

#[test]
fn expand_tool_entry_succeeds_with_selected_tool_result() {
    // Given a state with a selected tool result entry.
    let mut state = new_state();
    state.session.active.log.push_entry(ChatEntry::tool_result(
            "id",
            "bash",
            "output",
            ToolResultStatus::Success,
        ));
    state.session.active.log.select_next_entry();

    // When validating expand tool entry.
    let result = validate_expand_tool_entry(&state);

    // Then it succeeds.
    assert!(result.is_ok());
}

#[test]
fn expand_tool_entry_succeeds_with_selected_tool_call() {
    // Given a state with a selected tool call entry.
    let mut state = new_state();
    state.session.active.log.push_entry(ChatEntry::tool_call(
        "id",
        "bash",
        "{\"cmd\": true}",
    ));
    state.session.active.log.select_next_entry();

    // When validating expand tool entry.
    let result = validate_expand_tool_entry(&state);

    // Then it succeeds.
    assert!(result.is_ok());
}

#[test]
fn expand_entry_succeeds_with_selected_compaction() {
    // Given a state with a selected compaction entry.
    let mut state = new_state();
    state.session.active.log.push_entry(ChatEntry {
        id: ChatEntryId::new(),
        kind: ChatEntryKind::Compaction {
            summary: "summary".to_owned(),
            tokens_before: 100,
            tokens_after: 50,
            entries_compacted: 5,
            model_used: "test/model".to_owned(),
        },
        pin_position: None,
        context_override: ContextOverride::Default,
        context_history: Vec::new(),
        token_count: None,
    });
    state.session.active.log.select_next_entry();

    // When validating expand tool entry.
    let result = validate_expand_tool_entry(&state);

    // Then it succeeds.
    assert!(result.is_ok());
}

#[test]
fn expand_tool_entry_succeeds_with_selected_annotation() {
    // Given a state with a selected annotation entry.
    let mut state = new_state();
    state.session.active.log.push_entry(ChatEntry::annotation(vec![UrlCitation {
            url: "https://example.com/a".to_owned(),
            title: "Source A".to_owned(),
            content: None,
            start_index: None,
            end_index: None,
        }]));
    state.session.active.log.select_next_entry();

    // When validating expand tool entry.
    let result = validate_expand_tool_entry(&state);

    // Then it succeeds (annotations are expandable).
    assert!(result.is_ok());
}

#[test]
fn expand_tool_entry_fails_with_no_selection() {
    // Given a state with empty history (no selection possible).
    let state = new_state();

    // When validating expand tool entry.
    let result = validate_expand_tool_entry(&state);

    // Then it returns NoSelection error.
    assert!(matches!(result, Err(ExpandEntryError::NoSelection)));
}

#[test]
fn expand_tool_entry_fails_with_non_tool_entry() {
    // Given a state with a selected user entry (not a tool entry).
    let mut state = new_state();
    state.session.active.log.push_entry(ChatEntry::user("hello"));
    state.session.active.log.select_next_entry();

    // When validating expand tool entry.
    let result = validate_expand_tool_entry(&state);

    // Then it returns NotExpandable error.
    assert!(matches!(result, Err(ExpandEntryError::NotExpandable)));
}

#[test]
fn pin_selected_succeeds_with_selected_entry() {
    // Given a state with a history entry that is selected.
    let mut state = new_state();
    state.session.active.log.push_entry(ChatEntry::user("hello"));
    state.session.active.log.select_next_entry();

    // When validating pin selected.
    let result = validate_chat_entry_pin_selected(&state);

    // Then it succeeds.
    assert!(result.is_ok());
}

#[test]
fn pin_selected_fails_with_empty_history() {
    // Given a state with no history.
    let state = new_state();

    // When validating pin selected.
    let result = validate_chat_entry_pin_selected(&state);

    // Then it returns EmptyHistory error.
    assert!(matches!(
        result,
        Err(ChatEntryPinSelectedError::EmptyHistory)
    ));
}

#[test]
fn pin_selected_fails_with_no_selection() {
    // Given a state with empty history (no selection possible).
    let state = new_state();

    // When validating pin selected.
    let result = validate_chat_entry_pin_selected(&state);

    // Then it returns EmptyHistory error.
    assert!(matches!(
        result,
        Err(ChatEntryPinSelectedError::EmptyHistory)
    ));
}

#[test]
fn yank_selected_rejects_empty_history() {
    // Given an empty session.
    let state = new_state();

    // When validating yank selected.
    let result = validate_yank_selected(&state);

    // Then validation fails with NoSelection.
    assert!(matches!(result, Err(YankSelectedError::NoSelection)));
}

#[test]
fn yank_selected_rejects_no_selection() {
    // Given a state with entries but no selection.
    let mut state = new_state();
    state.session.active.log.push_entry(ChatEntry::user("hello"));
    state.session.active.log.clear_selection();

    // When validating yank selected.
    let result = validate_yank_selected(&state);

    // Then validation fails with NoSelection.
    assert!(matches!(result, Err(YankSelectedError::NoSelection)));
}

#[test]
fn yank_selected_accepts_selected_entry() {
    // Given a state with a selected entry.
    let mut state = new_state();
    state.session.active.log.push_entry(ChatEntry::user("hello"));
    state.session.active.log.select_next_entry();

    // When validating yank selected.
    let result = validate_yank_selected(&state);

    // Then validation succeeds.
    assert!(result.is_ok());
}

#[test]
fn ignore_selected_rejects_empty_history() {
    // Given an empty session.
    let state = new_state();

    // When validating ignore selected.
    let result = validate_chat_entry_ignore_selected(&state);

    // Then validation fails with EmptyHistory.
    assert!(matches!(
        result,
        Err(ChatEntryIgnoreSelectedError::EmptyHistory)
    ));
}

#[test]
fn ignore_selected_rejects_no_selection() {
    // Given a state with entries but no selection.
    let mut state = new_state();
    state.session.active.log.push_entry(ChatEntry::user("hello"));
    state.session.active.log.clear_selection();

    // When validating ignore selected.
    let result = validate_chat_entry_ignore_selected(&state);

    // Then validation fails with NoSelection.
    assert!(matches!(
        result,
        Err(ChatEntryIgnoreSelectedError::NoSelection)
    ));
}

#[test]
fn ignore_selected_rejects_pinned_entry() {
    // Given a state with a selected pinned entry.
    let mut state = new_state();
    state.session.active.log.push_entry(ChatEntry::user("hello").with_pin(PinPosition::Top));
    state.session.active.log.select_next_entry();

    // When validating ignore selected.
    let result = validate_chat_entry_ignore_selected(&state);

    // Then validation fails with IsPinned.
    assert!(matches!(
        result,
        Err(ChatEntryIgnoreSelectedError::IsPinned)
    ));
}

#[test]
fn ignore_selected_accepts_system_entry() {
    // Given a state with a selected system entry.
    let mut state = new_state();
    state.session.active.log.push_entry(ChatEntry::system("system prompt"));
    state.session.active.log.select_next_entry();

    // When validating ignore selected.
    let result = validate_chat_entry_ignore_selected(&state);

    // Then validation succeeds (all entry types can be toggled).
    assert!(result.is_ok());
}

#[test]
fn ignore_selected_accepts_thinking_entry() {
    // Given a state with a selected thinking entry.
    let mut state = new_state();
    state.session.active.log.push_entry(ChatEntry::thinking("thinking..."));
    state.session.active.log.select_next_entry();

    // When validating ignore selected.
    let result = validate_chat_entry_ignore_selected(&state);

    // Then validation succeeds (all entry types can be toggled).
    assert!(result.is_ok());
}

#[test]
fn ignore_selected_accepts_transient_entry() {
    // Given a state with a selected transient entry.
    let mut state = new_state();
    state.session.active.log.push_entry(ChatEntry::transient("ephemeral"));
    state.session.active.log.select_next_entry();

    // When validating ignore selected.
    let result = validate_chat_entry_ignore_selected(&state);

    // Then validation succeeds (all entry types can be toggled).
    assert!(result.is_ok());
}

#[test]
fn ignore_selected_accepts_compaction_entry() {
    // Given a state with a selected compaction entry.
    let mut state = new_state();
    state.session.active.log.push_entry(ChatEntry {
        id: ChatEntryId::new(),
        kind: ChatEntryKind::Compaction {
            summary: "summary".to_owned(),
            tokens_before: 100,
            tokens_after: 50,
            entries_compacted: 5,
            model_used: "test/model".to_owned(),
        },
        pin_position: None,
        context_override: ContextOverride::Default,
        context_history: Vec::new(),
        token_count: None,
    });
    state.session.active.log.select_next_entry();

    // When validating ignore selected.
    let result = validate_chat_entry_ignore_selected(&state);

    // Then validation succeeds (all entry types can be toggled).
    assert!(result.is_ok());
}

#[test]
fn ignore_selected_accepts_user_entry() {
    // Given a state with a selected user entry.
    let mut state = new_state();
    state.session.active.log.push_entry(ChatEntry::user("hello"));
    state.session.active.log.select_next_entry();

    // When validating ignore selected.
    let result = validate_chat_entry_ignore_selected(&state);

    // Then validation succeeds.
    assert!(result.is_ok());
}

#[test]
fn ignore_selected_accepts_assistant_entry() {
    // Given a state with a selected assistant entry.
    let mut state = new_state();
    state.session.active.log.push_entry(ChatEntry::assistant("hi"));
    state.session.active.log.select_next_entry();

    // When validating ignore selected.
    let result = validate_chat_entry_ignore_selected(&state);

    // Then validation succeeds.
    assert!(result.is_ok());
}

#[test]
fn ignore_selected_accepts_tool_call() {
    // Given a state with a selected tool call entry.
    let mut state = new_state();
    state.session.active.log.push_entry(ChatEntry::tool_call("id", "bash", "ls"));
    state.session.active.log.select_next_entry();

    // When validating ignore selected.
    let result = validate_chat_entry_ignore_selected(&state);

    // Then validation succeeds.
    assert!(result.is_ok());
}

#[test]
fn ignore_selected_accepts_tool_result() {
    // Given a state with a selected tool result entry.
    let mut state = new_state();
    state.session.active.log.push_entry(ChatEntry::tool_result(
            "id",
            "bash",
            "output",
            ToolResultStatus::Success,
        ));
    state.session.active.log.select_next_entry();

    // When validating ignore selected.
    let result = validate_chat_entry_ignore_selected(&state);

    // Then validation succeeds.
    assert!(result.is_ok());
}

#[test]
fn ignore_selected_accepts_error_entry() {
    // Given a state with a selected error entry.
    let mut state = new_state();
    state.session.active.log.push_entry(ChatEntry::error("something went wrong"));
    state.session.active.log.select_next_entry();

    // When validating ignore selected.
    let result = validate_chat_entry_ignore_selected(&state);

    // Then validation succeeds.
    assert!(result.is_ok());
}

#[test]
fn ignore_selected_accepts_actor_entry() {
    // Given a state with a selected actor entry.
    let mut state = new_state();
    state.session.active.log.push_entry(ChatEntry::actor("source", "text"));
    state.session.active.log.select_next_entry();

    // When validating ignore selected.
    let result = validate_chat_entry_ignore_selected(&state);

    // Then validation succeeds.
    assert!(result.is_ok());
}

#[test]
fn reset_selected_rejects_empty_history() {
    // Given an empty session.
    let state = new_state();

    // When validating reset selected.
    let result = validate_chat_entry_reset_selected(&state);

    // Then validation fails with EmptyHistory.
    assert!(matches!(
        result,
        Err(ChatEntryResetSelectedError::EmptyHistory)
    ));
}

#[test]
fn reset_selected_rejects_no_selection() {
    // Given a state with entries but no selection.
    let mut state = new_state();
    state.session.active.log.push_entry(ChatEntry::user("hello"));
    state.session.active.log.clear_selection();

    // When validating reset selected.
    let result = validate_chat_entry_reset_selected(&state);

    // Then validation fails with NoSelection.
    assert!(matches!(
        result,
        Err(ChatEntryResetSelectedError::NoSelection)
    ));
}

#[test]
fn reset_selected_rejects_pinned_entry() {
    // Given a state with a selected pinned entry.
    let mut state = new_state();
    state.session.active.log.push_entry(ChatEntry::user("hello").with_pin(PinPosition::Top));
    state.session.active.log.select_next_entry();

    // When validating reset selected.
    let result = validate_chat_entry_reset_selected(&state);

    // Then validation fails with IsPinned.
    assert!(matches!(result, Err(ChatEntryResetSelectedError::IsPinned)));
}

#[test]
fn isolate_selected_rejects_empty_history() {
    // Given an empty session.
    let state = new_state();

    // When validating isolate selected.
    let result = validate_chat_entry_isolate_selected(&state);

    // Then validation fails with EmptyHistory.
    assert!(matches!(
        result,
        Err(ChatEntryIsolateSelectedError::EmptyHistory)
    ));
}

#[test]
fn isolate_selected_rejects_no_selection() {
    // Given a state with entries but no selection.
    let mut state = new_state();
    state.session.active.log.push_entry(ChatEntry::user("hello"));
    state.session.active.log.clear_selection();

    // When validating isolate selected.
    let result = validate_chat_entry_isolate_selected(&state);

    // Then validation fails with NoSelection.
    assert!(matches!(
        result,
        Err(ChatEntryIsolateSelectedError::NoSelection)
    ));
}

#[test]
fn isolate_selected_rejects_pinned_entry() {
    // Given a state with a selected pinned entry.
    let mut state = new_state();
    state.session.active.log.push_entry(ChatEntry::user("hello").with_pin(PinPosition::Top));
    state.session.active.log.select_next_entry();

    // When validating isolate selected.
    let result = validate_chat_entry_isolate_selected(&state);

    // Then validation fails with IsPinned.
    assert!(matches!(
        result,
        Err(ChatEntryIsolateSelectedError::IsPinned)
    ));
}

#[test]
fn isolate_selected_accepts_unpinned_selection() {
    // Given a state with a selected unpinned entry.
    let mut state = new_state();
    state.session.active.log.push_entry(ChatEntry::assistant("a metaprompt"));
    state.session.active.log.select_next_entry();

    // When validating isolate selected.
    let result = validate_chat_entry_isolate_selected(&state);

    // Then validation succeeds.
    assert!(result.is_ok());
}

#[test]
fn pin_selected_fails_without_selection() {
    let mut state = new_state();
    state.session.active.log.push_entry(ChatEntry::user("hello"));
    state.session.active.log.clear_selection();
    assert!(matches!(
        validate_chat_entry_pin_selected(&state),
        Err(ChatEntryPinSelectedError::NoSelection)
    ));
    validate_chat_entry_select_next(&state);
    validate_chat_entry_select_prev(&state);
}

#[test]
fn a_collapsed_block_selects_nothing() {
    let mut state = new_state();
    for text in ["a", "b"] {
        let entry = ChatEntry::user(text).with_context_override(ContextOverride::ForcedExclude);
        state.session.active.log.push_entry(entry);
    }
    state.session.active.log.select_next_entry();
    assert!(matches!(
        validate_yank_selected(&state),
        Err(YankSelectedError::NoSelection)
    ));
}
