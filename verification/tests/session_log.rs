use jinn_domain::app_state::AppState;
use jinn_domain::chat_entry::{
    ChatEntry, ContextOverride, PinPosition, SessionId, ToolResultStatus,
};
use jinn_domain::auto_prune_worker::entry_token_cache::HistoryWorkerChatEntryTokenCache;
use jinn_domain::session::chat_log::{tool_group_end, ChatLog};

fn turn() -> Vec<ChatEntry> {
    vec![
        ChatEntry::user("question"),
        ChatEntry::assistant("let me look"),
        ChatEntry::tool_call("c1", "read", "{}"),
        ChatEntry::tool_result("c1", "read", "text", ToolResultStatus::Success),
        ChatEntry::assistant("answer"),
    ]
}

fn log_of(entries: Vec<ChatEntry>) -> ChatLog {
    let mut log = ChatLog::new();
    for entry in entries {
        log.push_entry(entry);
    }
    log
}

fn overrides(log: &ChatLog) -> Vec<ContextOverride> {
    log.history().iter().map(ChatEntry::context_override).collect()
}

#[test]
fn an_override_reaches_the_whole_chunk() {
    let mut log = log_of(turn());
    let changed = log.set_entry_context_override_at(3, ContextOverride::ForcedExclude);
    assert!(changed.is_some());
    let after = overrides(&log);
    assert_eq!(after[0], ContextOverride::Default);
    assert_eq!(after[2], ContextOverride::ForcedExclude);
    assert_eq!(after[3], ContextOverride::ForcedExclude);
    assert_eq!(after[4], ContextOverride::Default);
    // Setting it again changes nothing.
    assert_eq!(
        log.set_entry_context_override_at(3, ContextOverride::ForcedExclude),
        None
    );
}

#[test]
fn a_pinned_member_keeps_the_chunk_from_being_excluded() {
    let mut log = log_of(turn());
    let id = log.history()[3].id;
    log.pin_entry(&id, PinPosition::Top);
    assert_eq!(
        log.set_entry_context_override_at(2, ContextOverride::ForcedExclude),
        None
    );
    assert_eq!(overrides(&log), vec![ContextOverride::Default; 5]);
}

#[test]
fn a_tool_group_ends_behind_its_last_tool_entry() {
    let entries = turn();
    assert_eq!(tool_group_end(&entries, 0), None);
    assert_eq!(tool_group_end(&entries, 4), None);
    assert!(tool_group_end(&entries, 2).is_some());
}

#[test]
fn the_selection_moves_over_a_collapsed_block_at_once() {
    let mut entries: Vec<ChatEntry> = (0..5).map(|i| ChatEntry::user(&format!("{i}"))).collect();
    for entry in entries[1..4].iter_mut() {
        entry.context_override = ContextOverride::ForcedExclude;
    }
    let block = entries[1].id;
    let mut log = log_of(entries);
    log.set_selected_cursor_id(block);
    assert!(log.is_selected_collapsed_block());
    assert!(log.is_collapsed(2));
    assert!(log.selected_entry().is_none());
    log.advance_selection_one();
    assert_eq!(log.cursor, Some(4));
    // Shown, the block is walked entry by entry.
    log.toggle_ignored_block_visibility(&block);
    log.set_selected_cursor_id(block);
    assert!(!log.is_selected_collapsed_block());
    log.advance_selection_one();
    assert_eq!(log.cursor, Some(2));
    assert_eq!(log.selected_history_index(), Some(2));
}

#[test]
fn a_cached_count_is_not_computed_again() {
    let mut cache = HistoryWorkerChatEntryTokenCache::new();
    let session_id = SessionId::new();
    let entry = ChatEntry::assistant("ok");
    assert_eq!(cache.get_or_insert_with(&session_id, &entry.id, || 7), 7);
    assert_eq!(cache.get_or_insert_with(&session_id, &entry.id, || 9), 7);
    let other = SessionId::new();
    assert_eq!(cache.get_or_insert_with(&other, &entry.id, || 9), 9);
}

#[test]
fn a_new_state_holds_one_idle_session_and_an_empty_screen() {
    let id = SessionId::new();
    let state = AppState::new(id, "/home/u".to_owned());
    let session = &state.session.active;
    assert_eq!(session.session_id, id);
    assert!(state.session.others.is_empty());
    assert!(session.log.entries.is_empty() && session.log.shown_blocks.is_empty());
    assert_eq!(session.log.cursor, None);
    assert!(session.prompt_templates.templates.is_empty());
    assert!(session.input.as_ref().is_some_and(|i| i.is_empty() && !i.disabled()));
    let screen = &state.frontend;
    assert!(!screen.cancel_stream_prompt);
    assert!(screen.file_picker.entries.is_empty() && !screen.file_picker.loading);
    assert_eq!(screen.file_picker.expected_request_id, 0);
    assert_eq!(screen.picker_kind, None);
    assert_eq!(screen.pending_creation, None);
    assert!(screen.overlays.is_empty());
    assert_eq!(screen.home, "/home/u");
}
