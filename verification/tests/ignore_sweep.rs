use jinn_domain::app_state::AppState;
use jinn_domain::chat_entry::{
    ChatEntry, ContextOverride, PinPosition, SessionId, ToolResultStatus,
};
use jinn_domain::chat_entry_selection::ignore_sweep::run_sweep;

fn state_with(entries: Vec<ChatEntry>) -> AppState {
    let mut state = AppState::new(SessionId::new(), "/home/u".to_owned());
    for entry in entries {
        state.session.active.log.push_entry(entry);
    }
    state.session.active.log.select_next_entry();
    state
}

fn users(n: usize) -> Vec<ChatEntry> {
    (0..n)
        .map(|i| ChatEntry::user(&format!("message {i}")))
        .collect()
}

fn overrides(state: &AppState) -> Vec<ContextOverride> {
    state
        .session
        .active
        .log
        .history()
        .iter()
        .map(ChatEntry::context_override)
        .collect()
}

#[test]
fn each_press_changes_one_entry_and_moves_on() {
    let mut state = state_with(users(3));
    let result = run_sweep(&mut state, ContextOverride::ForcedExclude);
    assert_eq!(overrides(&state), vec![ContextOverride::ForcedExclude, ContextOverride::Default, ContextOverride::Default]);
    assert_eq!(state.session.active.log.cursor, Some(1));
    assert_eq!(state.session.active.log.ignore_sweep, Some(ContextOverride::ForcedExclude));
    assert_eq!(
        result.message_names(),
        vec!["PersistSession", "ContextOverrideChanged"]
    );

    // The second press folds both into a block; the cursor goes below it.
    run_sweep(&mut state, ContextOverride::ForcedExclude);
    assert_eq!(
        overrides(&state),
        vec![ContextOverride::ForcedExclude, ContextOverride::ForcedExclude, ContextOverride::Default]
    );
    assert_eq!(state.session.active.log.cursor, Some(2));
}

#[test]
fn pinned_entries_and_collapsed_blocks_are_passed_over() {
    let mut entries = users(6);
    entries[0].pin_position = Some(PinPosition::Top);
    entries[1].context_override = ContextOverride::ForcedExclude;
    entries[2].context_override = ContextOverride::ForcedExclude;
    let mut state = state_with(entries);
    run_sweep(&mut state, ContextOverride::ForcedInclude);
    assert_eq!(
        overrides(&state),
        vec![
            ContextOverride::Default,
            ContextOverride::ForcedExclude,
            ContextOverride::ForcedExclude,
            ContextOverride::ForcedInclude,
            ContextOverride::Default,
            ContextOverride::Default
        ]
    );
    assert_eq!(state.session.active.log.cursor, Some(4));
}

#[test]
fn a_sweep_over_pinned_entries_alone_changes_nothing() {
    let mut entries = users(2);
    entries[0].pin_position = Some(PinPosition::Top);
    entries[1].pin_position = Some(PinPosition::Top);
    let mut state = state_with(entries);
    let result = run_sweep(&mut state, ContextOverride::ForcedExclude);
    assert!(result.messages.is_empty());
    assert_eq!(overrides(&state), vec![ContextOverride::Default, ContextOverride::Default]);
    assert_eq!(state.session.active.log.cursor, Some(1));
    assert_eq!(state.session.active.log.ignore_sweep, None);
}

#[test]
fn an_entry_that_has_the_override_is_saved_but_not_told_of() {
    let mut state = state_with(users(1));
    run_sweep(&mut state, ContextOverride::ForcedInclude);
    let result = run_sweep(&mut state, ContextOverride::ForcedInclude);
    assert_eq!(result.message_names(), vec!["PersistSession"]);
    assert_eq!(state.session.active.log.cursor, Some(0));
}

#[test]
fn without_a_cursor_nothing_is_swept() {
    let mut state = state_with(users(2));
    state.session.active.log.clear_selection();
    assert!(run_sweep(&mut state, ContextOverride::ForcedExclude).messages.is_empty());
    assert_eq!(overrides(&state), vec![ContextOverride::Default, ContextOverride::Default]);
}

#[test]
fn the_rest_of_an_unfolded_block_stays_unfolded() {
    let mut entries = users(4);
    for entry in entries.iter_mut() {
        entry.context_override = ContextOverride::ForcedExclude;
    }
    let first = entries[0].id;
    let second = entries[1].id;
    let mut state = state_with(entries);
    state
        .session
        .active
        .log
        .toggle_ignored_block_visibility(&first);
    run_sweep(&mut state, ContextOverride::ForcedInclude);
    assert_eq!(overrides(&state)[0], ContextOverride::ForcedInclude);
    assert!(state.session.active.log.shown_blocks.contains(&second));
    assert_eq!(state.session.active.log.cursor, Some(1));
    assert!(!state.session.active.log.is_selected_collapsed_block());
}

fn tool_loop() -> Vec<ChatEntry> {
    vec![
        ChatEntry::assistant("let me look"),
        ChatEntry::tool_call("c1", "read", "{}"),
        ChatEntry::tool_result("c1", "read", "text", ToolResultStatus::Success),
    ]
}

#[test]
fn an_excluding_sweep_spares_the_pinned_member_of_a_loop() {
    let mut entries = tool_loop();
    entries[0].pin_position = Some(PinPosition::Top);
    let before = entries[0].copy();
    let mut state = state_with(entries);
    let result = run_sweep(&mut state, ContextOverride::ForcedExclude);
    assert_eq!(overrides(&state), vec![ContextOverride::Default; 3]);
    assert_eq!(state.session.active.log.history()[0], before);
    assert_eq!(result.message_names(), vec!["PersistSession"]);
}

#[test]
fn an_including_sweep_sets_the_loop_that_it_stops_on_as_a_whole() {
    let mut entries = tool_loop();
    entries[0].context_override = ContextOverride::ForcedExclude;
    entries[1].context_override = ContextOverride::ForcedExclude;
    let mut state = state_with(entries);
    run_sweep(&mut state, ContextOverride::ForcedInclude);
    assert_eq!(overrides(&state), vec![ContextOverride::ForcedInclude; 3]);
}
