use jinn_domain::app_state::{AppState, PhaseKind};
use jinn_domain::chat_entry::{ChatEntry, ChatEntryKind, SessionId};
use jinn_domain::chat_input::intent::{
    handle_autocomplete_confirm, handle_delete_grapheme, handle_delete_grapheme_forward,
    handle_enter_insert_mode, handle_enter_normal_mode, handle_enter_normal_mode_with_pickers,
    handle_insert_char, handle_move_cursor_down, handle_move_cursor_left,
    handle_move_cursor_right, handle_move_cursor_to_end, handle_move_cursor_to_start,
    handle_move_cursor_up, handle_move_cursor_word_left, handle_move_cursor_word_right,
    handle_normal_escape, handle_paste_text, handle_submit_message, handle_toggle_input_mode,
};
use jinn_domain::chat_input::autocomplete_render::{render_autocomplete_popup, Rect};
use jinn_domain::chat_input::protocol::SubmitSteeringMessage;
use jinn_domain::chat_input::{AutocompleteTrigger, ChatInputBoxState, InputMode};
use jinn_domain::context::prompt_template::{PromptTemplate, PromptTemplateStore};
use jinn_domain::file_lister::{DirectoryListerActor, DirectoryListing, FileEntry, ListDirectory};
use jinn_domain::focus::{FocusScope, PickerKind, PickerRegistry};
use jinn_domain::history::TriggerCompaction;
use jinn_domain::intent_result::{
    ClosePicker, IntentMessage, IntentResult, MarkSessionInteracted, StartNewSession,
};

fn new_state() -> AppState {
    let mut state = AppState::new(SessionId::new(), "/home/u".to_owned());
    state.session.active.set_cwd("/proj".to_owned());
    state.session.active.prompt_templates = PromptTemplateStore::from_vec(vec![
        PromptTemplate {
            name: "review".to_owned(),
            description: "Review a change".to_owned(),
            body: "Please review.".to_owned(),
        },
        PromptTemplate {
            name: "rewrite".to_owned(),
            description: String::new(),
            body: "Please rewrite.".to_owned(),
        },
    ]);
    state
}

fn type_text(state: &mut AppState, text: &str) -> IntentResult {
    let mut last = IntentResult::empty();
    for ch in text.chars() {
        last = handle_insert_char(ch, state);
    }
    last
}

fn shown(state: &AppState) -> &ChatInputBoxState {
    state.session.active.input.as_ref().expect("input box")
}

fn rows(state: &AppState) -> Vec<&str> {
    match shown(state).autocomplete() {
        Some(popup) => popup.matches.iter().map(|m| m.name.as_str()).collect(),
        None => panic!("no popup"),
    }
}

fn listed(state: &AppState, result: IntentResult) -> String {
    assert_eq!(result.messages.len(), 1);
    match &result.messages[0] {
        IntentMessage::ListDirectory(ListDirectory {
            session_id,
            path,
            request_id,
        }) => {
            assert_eq!(*session_id, state.session.active.session_id);
            assert_eq!(*request_id, state.frontend.file_picker.expected_request_id);
            assert!(state.frontend.file_picker.loading);
            path.clone()
        }
        other => panic!("unexpected message {other:?}"),
    }
}

fn entry(name: &str, is_dir: bool) -> FileEntry {
    FileEntry {
        name: name.to_owned(),
        is_dir,
    }
}

#[test]
fn the_hash_popup_narrows_as_the_user_types() {
    let mut state = new_state();
    type_text(&mut state, "use #");
    assert_eq!(rows(&state), vec!["review", "rewrite"]);
    type_text(&mut state, "RV");
    assert_eq!(rows(&state), vec!["review"]);
    handle_delete_grapheme(&mut state);
    assert_eq!(rows(&state), vec!["review", "rewrite"]);
    assert_eq!(shown(&state).autocomplete_filter().as_deref(), Some("R"));
}

#[test]
fn a_closing_hash_expands_the_named_template() {
    let mut state = new_state();
    type_text(&mut state, "now #review#");
    assert_eq!(shown(&state).text(), "now Please review.");
    assert_eq!(shown(&state).cursor_pos(), 18);
    assert!(shown(&state).autocomplete().is_none());
    // A name that no template has stays as it was typed.
    let mut state = new_state();
    type_text(&mut state, "#nothing#");
    assert_eq!(shown(&state).text(), "#nothing#");
    assert!(shown(&state).autocomplete().is_none());
}

#[test]
fn confirming_a_template_completes_its_name() {
    let mut state = new_state();
    type_text(&mut state, "#re");
    handle_move_cursor_down(&mut state);
    assert!(handle_autocomplete_confirm(&mut state).messages.is_empty());
    assert_eq!(shown(&state).text(), "#rewrite");
    assert_eq!(shown(&state).cursor_pos(), 8);
    assert_eq!(rows(&state), vec!["rewrite"]);
    assert_eq!(shown(&state).autocomplete_selected_index(), 0);
}

#[test]
fn confirming_without_a_popup_does_nothing() {
    let mut state = new_state();
    type_text(&mut state, "plain");
    assert!(handle_autocomplete_confirm(&mut state).messages.is_empty());
    assert_eq!(shown(&state).text(), "plain");
}

#[test]
fn the_file_popup_lists_the_directory_that_is_typed() {
    let mut state = new_state();
    let result = type_text(&mut state, "see @");
    assert_eq!(listed(&state, result), "/proj");
    assert_eq!(state.frontend.file_picker.expected_request_id, 1);
    assert!(type_text(&mut state, "src").messages.is_empty());
    let result = type_text(&mut state, "/");
    assert_eq!(listed(&state, result), "/proj/src/");
    let result = handle_delete_grapheme(&mut state);
    assert_eq!(listed(&state, result), "/proj/src");
    assert_eq!(state.frontend.file_picker.expected_request_id, 3);
    let mut state = new_state();
    let result = type_text(&mut state, "@~/");
    assert_eq!(listed(&state, result), "/home/u/");
}

#[test]
fn the_request_id_wraps_around() {
    let mut state = new_state();
    state.frontend.file_picker.expected_request_id = u64::MAX;
    let result = type_text(&mut state, "@");
    listed(&state, result);
    assert_eq!(state.frontend.file_picker.expected_request_id, 0);
}

#[test]
fn a_space_and_a_second_at_close_the_file_popup() {
    for closing in [' ', '@'] {
        let mut state = new_state();
        type_text(&mut state, "@");
        assert!(handle_insert_char(closing, &mut state).messages.is_empty());
        assert!(shown(&state).autocomplete().is_none());
        assert_eq!(shown(&state).text(), format!("@{closing}"));
    }
}

#[test]
fn confirming_a_directory_descends_and_a_file_closes() {
    let mut state = new_state();
    type_text(&mut state, "@s");
    state.frontend.file_picker.entries =
        vec![entry("docs", true), entry("src", true), entry("setup.py", false)];
    // The shown entries are "src" and "setup.py".
    handle_move_cursor_down(&mut state);
    handle_move_cursor_down(&mut state);
    assert_eq!(shown(&state).autocomplete_selected_index(), 1);
    handle_move_cursor_up(&mut state);
    handle_move_cursor_up(&mut state);
    let result = handle_autocomplete_confirm(&mut state);
    assert_eq!(shown(&state).text(), "@src/");
    assert_eq!(listed(&state, result), "/proj/src/");
    assert!(shown(&state).autocomplete().is_some());
    // Inside the directory a file is confirmed.
    state.frontend.file_picker.entries = vec![entry("lib.rs", false), entry("main.rs", false)];
    type_text(&mut state, "M");
    assert!(handle_autocomplete_confirm(&mut state).messages.is_empty());
    assert_eq!(shown(&state).text(), "@src/main.rs");
    assert!(shown(&state).autocomplete().is_none());
}

#[test]
fn a_row_that_is_not_shown_is_not_confirmed() {
    let mut state = new_state();
    type_text(&mut state, "@x");
    state.frontend.file_picker.entries = vec![entry("docs", true)];
    assert!(handle_autocomplete_confirm(&mut state).messages.is_empty());
    assert_eq!(shown(&state).text(), "@x");
}

#[test]
fn moving_into_a_token_opens_its_popup_again() {
    let mut state = new_state();
    type_text(&mut state, "@src x");
    handle_move_cursor_left(&mut state);
    assert!(shown(&state).autocomplete().is_none());
    let result = handle_move_cursor_left(&mut state);
    // On the space behind the token there is no popup.
    assert!(result.messages.is_empty());
    let result = handle_move_cursor_left(&mut state);
    assert_eq!(listed(&state, result), "/proj/sr");
    let popup = shown(&state).autocomplete().as_ref().expect("popup");
    assert_eq!(popup.trigger, AutocompleteTrigger::At);
    assert_eq!(popup.token_start, 0);
    // Leaving it on the right closes it.
    handle_move_cursor_right(&mut state);
    assert!(shown(&state).autocomplete().is_some());
    handle_move_cursor_right(&mut state);
    assert!(shown(&state).autocomplete().is_none());
    assert_eq!(shown(&state).text(), "@src x");
}

#[test]
fn deleting_forward_inside_a_token_narrows_and_at_its_mark_closes() {
    let mut state = new_state();
    type_text(&mut state, "#review");
    handle_move_cursor_left(&mut state);
    handle_delete_grapheme_forward(&mut state);
    assert_eq!(shown(&state).text(), "#revie");
    assert!(shown(&state).autocomplete().is_some());
    handle_move_cursor_to_start(&mut state);
    handle_delete_grapheme_forward(&mut state);
    assert_eq!(shown(&state).text(), "revie");
    assert!(shown(&state).autocomplete().is_none());
}

#[test]
fn the_slash_popup_lists_commands() {
    let mut state = new_state();
    type_text(&mut state, "/");
    assert_eq!(rows(&state), vec!["compact", "compact-all", "new"]);
    type_text(&mut state, "ca");
    assert_eq!(rows(&state), vec!["compact", "compact-all"]);
    type_text(&mut state, "l");
    assert_eq!(rows(&state), vec!["compact-all"]);
    handle_move_cursor_to_start(&mut state);
    assert!(shown(&state).autocomplete().is_none());
    handle_move_cursor_right(&mut state);
    assert_eq!(rows(&state).len(), 3);
}

#[test]
fn a_submitted_command_is_executed() {
    let mut state = new_state();
    let session_id = state.session.active.session_id;
    let interacted = IntentMessage::MarkSessionInteracted(MarkSessionInteracted { session_id });
    // "/compact" with its popup open: the first row is completed.
    type_text(&mut state, "/comp");
    let result = handle_submit_message(&mut state);
    assert_eq!(
        result.messages,
        vec![
            interacted,
            IntentMessage::TriggerCompaction(TriggerCompaction {
                session_id,
                compact_all: false
            })
        ]
    );
    assert_eq!(shown(&state).text(), "");
    // Arguments are ignored.
    type_text(&mut state, "/compact-all now");
    let result = handle_submit_message(&mut state);
    assert_eq!(
        result.messages[1],
        IntentMessage::TriggerCompaction(TriggerCompaction {
            session_id,
            compact_all: true
        })
    );
    type_text(&mut state, "/new ");
    let result = handle_submit_message(&mut state);
    assert_eq!(
        result.messages[1],
        IntentMessage::StartNewSession(StartNewSession { from: session_id })
    );
    assert_eq!(
        result.message_names(),
        vec!["MarkSessionInteracted", "StartNewSession"]
    );
}

fn enqueued(result: &IntentResult) -> &str {
    assert_eq!(
        result.message_names(),
        vec!["MarkSessionInteracted", "EnqueueUserMessage"]
    );
    match &result.messages[1] {
        IntentMessage::EnqueueUserMessage(message) => match &message.entry.kind {
            ChatEntryKind::User {
                display, expanded, ..
            } => {
                assert_eq!(display, expanded);
                display.as_str()
            }
            other => panic!("unexpected entry {other:?}"),
        },
        other => panic!("unexpected message {other:?}"),
    }
}

#[test]
fn an_unknown_command_is_a_message() {
    let mut state = new_state();
    type_text(&mut state, "/frobnicate it");
    let result = handle_submit_message(&mut state);
    assert_eq!(enqueued(&result), "/frobnicate it");
}

#[test]
fn a_template_popup_is_completed_and_sent_as_text() {
    let mut state = new_state();
    type_text(&mut state, "#rewr");
    let result = handle_submit_message(&mut state);
    assert_eq!(enqueued(&result), "#rewrite");
    assert!(shown(&state).autocomplete().is_none());
    assert_eq!(shown(&state).cursor_pos(), 0);
}

#[test]
fn a_message_steers_only_a_running_turn() {
    let mut state = new_state();
    // Steering without a turn falls back to the queue.
    handle_toggle_input_mode(&mut state);
    assert_eq!(shown(&state).input_mode(), InputMode::Steer);
    type_text(&mut state, "first");
    assert_eq!(enqueued(&handle_submit_message(&mut state)), "first");
    state.session.active.begin_streaming();
    type_text(&mut state, "second");
    let result = handle_submit_message(&mut state);
    assert_eq!(
        result.messages[1],
        IntentMessage::SubmitSteeringMessage(SubmitSteeringMessage {
            session_id: state.session.active.session_id,
            text: "second".to_owned()
        })
    );
    // Queueing queues whatever the phase.
    handle_toggle_input_mode(&mut state);
    assert_eq!(shown(&state).input_mode(), InputMode::Queue);
    type_text(&mut state, "third");
    assert_eq!(enqueued(&handle_submit_message(&mut state)), "third");
}

#[test]
fn an_empty_box_is_not_submitted() {
    let mut state = new_state();
    assert!(handle_submit_message(&mut state).messages.is_empty());
}

#[test]
fn without_an_input_box_the_keys_do_nothing() {
    let mut state = new_state();
    state.session.active.input = None;
    assert!(handle_insert_char('@', &mut state).messages.is_empty());
    assert!(handle_submit_message(&mut state).messages.is_empty());
    assert!(handle_autocomplete_confirm(&mut state).messages.is_empty());
    assert!(!state.frontend.file_picker.loading);
}

#[test]
fn pasted_text_closes_the_popup() {
    let mut state = new_state();
    type_text(&mut state, "#");
    handle_paste_text("a b\ncafe\u{301}", &mut state);
    assert!(shown(&state).autocomplete().is_none());
    assert_eq!(shown(&state).text(), "#a b\ncafe\u{301}");
    // The combining accent does not count as a position of its own.
    assert_eq!(shown(&state).cursor_pos(), 9);
    handle_delete_grapheme(&mut state);
    assert_eq!(shown(&state).text(), "#a b\ncaf");
}

#[test]
fn word_moves_stop_at_word_edges() {
    let mut state = new_state();
    type_text(&mut state, "one  two");
    handle_move_cursor_word_left(&mut state);
    assert_eq!(shown(&state).cursor_pos(), 5);
    handle_move_cursor_word_left(&mut state);
    assert_eq!(shown(&state).cursor_pos(), 0);
    handle_move_cursor_word_right(&mut state);
    assert_eq!(shown(&state).cursor_pos(), 3);
    handle_move_cursor_word_right(&mut state);
    assert_eq!(shown(&state).cursor_pos(), 8);
    handle_move_cursor_to_start(&mut state);
    assert_eq!(shown(&state).cursor_pos(), 0);
    handle_move_cursor_to_end(&mut state);
    assert_eq!(shown(&state).cursor_pos(), 8);
}

#[test]
fn up_and_down_move_between_lines() {
    let mut state = new_state();
    type_text(&mut state, "long line\nab");
    assert_eq!(shown(&state).cursor_row_col(), (1, 2));
    handle_move_cursor_up(&mut state);
    assert_eq!(shown(&state).cursor_row_col(), (0, 2));
    handle_move_cursor_up(&mut state);
    assert_eq!(shown(&state).cursor_row_col(), (0, 2));
    handle_move_cursor_word_right(&mut state);
    assert_eq!(shown(&state).cursor_pos(), 4);
    handle_move_cursor_down(&mut state);
    // The lower line is shorter.
    assert_eq!(shown(&state).cursor_row_col(), (1, 2));
    handle_move_cursor_down(&mut state);
    assert_eq!(shown(&state).cursor_row_col(), (1, 2));
}

#[test]
fn escape_asks_before_it_cancels_a_busy_session() {
    let mut state = new_state();
    handle_normal_escape(&mut state);
    assert!(!state.frontend.cancel_stream_prompt);
    state.session.active.busy = true;
    handle_normal_escape(&mut state);
    assert!(state.frontend.cancel_stream_prompt);
    let mut state = new_state();
    state.session.active.phase = PhaseKind::Sending;
    handle_normal_escape(&mut state);
    assert!(state.frontend.cancel_stream_prompt);
}

#[test]
fn insert_mode_returns_from_a_pin() {
    let mut state = new_state();
    state.session.active.log.push_entry(ChatEntry::user("a"));
    state.session.active.log.push_entry(ChatEntry::user("b"));
    let first = state.session.active.log.history()[0].id;
    state.session.active.saved_history_position = Some(first);
    handle_enter_insert_mode(&mut state);
    assert_eq!(state.frontend.scope(), FocusScope::Input);
    assert_eq!(state.session.active.log.selected_cursor_id(), Some(first));
    assert_eq!(state.session.active.saved_history_position, None);
}

#[test]
fn normal_mode_closes_one_thing_at_a_time() {
    let mut state = new_state();
    state.frontend.scope_push(FocusScope::Sidebar);
    state.frontend.scope_push(FocusScope::Input);
    state.frontend.pending_creation = Some(state.session.active.session_id);
    type_text(&mut state, "/");
    handle_enter_normal_mode(&mut state);
    assert!(shown(&state).autocomplete().is_none());
    assert_eq!(state.frontend.scope(), FocusScope::Input);
    assert!(state.frontend.pending_creation.is_some());
    handle_enter_normal_mode(&mut state);
    assert_eq!(state.frontend.scope(), FocusScope::Normal);
    assert!(state.frontend.pending_creation.is_none());
}

#[test]
fn the_task_list_gives_the_keys_back_to_the_sidebar() {
    let mut state = new_state();
    state.frontend.scope_push(FocusScope::Sidebar);
    state.frontend.scope_push(FocusScope::Picker);
    state.frontend.picker_kind = Some(PickerKind::TaskList);
    assert!(state.frontend.is_picker());
    assert!(handle_enter_normal_mode(&mut state).messages.is_empty());
    assert_eq!(state.frontend.scope(), FocusScope::Sidebar);
    state.frontend.scope_pop();
    assert_eq!(state.frontend.scope(), FocusScope::Normal);
}

#[test]
fn a_picker_with_a_close_hook_runs_it() {
    let mut state = new_state();
    state.frontend.scope_push(FocusScope::Picker);
    state.frontend.picker_kind = Some(PickerKind::Persona);
    let pickers = PickerRegistry {
        kinds: vec![PickerKind::Endpoint, PickerKind::Persona],
    };
    let result = handle_enter_normal_mode_with_pickers(&mut state, &pickers);
    assert_eq!(
        result.messages,
        vec![IntentMessage::ClosePicker(ClosePicker {
            kind: PickerKind::Persona
        })]
    );
    assert_eq!(state.frontend.scope(), FocusScope::Picker);
    // A picker without one is just left.
    let result = handle_enter_normal_mode_with_pickers(&mut state, &PickerRegistry::new());
    assert!(result.messages.is_empty());
    assert_eq!(state.frontend.scope(), FocusScope::Normal);
}

#[test]
fn a_reply_to_an_older_request_is_dropped() {
    let mut state = new_state();
    type_text(&mut state, "@");
    let older = state.frontend.file_picker.expected_request_id;
    type_text(&mut state, "src/");
    let late = DirectoryListing {
        request_id: older,
        entries: vec![entry("docs", true)],
    };
    DirectoryListerActor::handle_listing(&mut state.frontend.file_picker, late);
    assert!(state.frontend.file_picker.loading);
    assert!(state.frontend.file_picker.entries.is_empty());
}

#[test]
fn the_popup_marks_the_row_that_is_confirmed() {
    let mut state = new_state();
    type_text(&mut state, "@s");
    state.frontend.file_picker.entries =
        vec![entry("docs", true), entry("setup.py", false), entry("src", true)];
    state.frontend.file_picker.loading = false;
    handle_move_cursor_down(&mut state);
    let area = Rect {
        x: 0,
        y: 20,
        width: 80,
        height: 4,
    };
    let layout = render_autocomplete_popup(area, 80, 48, &state).expect("popup");
    let marked: Vec<&str> = layout
        .rows
        .iter()
        .filter(|row| row.selected)
        .map(|row| row.text.as_str())
        .collect();
    assert_eq!(marked, vec!["src/"]);
    handle_autocomplete_confirm(&mut state);
    assert_eq!(shown(&state).text(), "@src/");
    assert_eq!(shown(&state).grapheme_at(4).as_deref(), Some("/"));
    assert_eq!(shown(&state).grapheme_at(5), None);
}
