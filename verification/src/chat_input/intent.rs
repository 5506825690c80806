//! The intents of the input box.

use crate::app_state;
use crate::app_state::{AppState, PhaseKind};
use crate::chat_entry::{ChatEntry, ChatEntryKind, SessionId};
use crate::chat_input::editing;
use crate::chat_input::editing::{
    backspace, complete_selected, confirm, delete_forward, insert_char, settle_after_move,
};
use crate::chat_input::protocol::{EnqueueUserMessage, SubmitSteeringMessage};
use crate::chat_input::slash_command;
use crate::chat_input::slash_command::SlashCommand;
use crate::chat_input::state;
use crate::chat_input::state::{AutocompleteTrigger, ChatInputBoxState, InputMode};
use crate::chat_input::validator;
use crate::chat_input::validator::{validate_autocomplete_confirm, validate_normal_escape};
use crate::file_lister::directory_lister_actor;
use crate::file_lister::file_picker_state;
use crate::file_lister::{resolve_list_dir, DirectoryListing, FilePickerState, ListDirectory};
use crate::focus::{FocusScope, PickerKind, PickerRegistry};
use crate::history::TriggerCompaction;
use crate::intent_result::{
    ClosePicker, IntentMessage, IntentResult, MarkSessionInteracted, StartNewSession,
};
use crate::session::chat_log;
use crate::text;
use crate::text::{chars_of, first_word_of, starts_with};
use vstd::prelude::*;

verus! {

/// Whether nothing but the active input box and the file picker changed.
pub open spec fn only_input(before: AppState, after: AppState) -> bool {
    after == (AppState {
        session: app_state::SessionStore {
            active: app_state::ChatSessionState {
                input: after.session.active.input,
                ..before.session.active
            },
            ..before.session
        },
        frontend: app_state::FrontendState {
            file_picker: after.frontend.file_picker,
            ..before.frontend
        },
        ..before
    })
}

/// The id of the listing after this one.
pub open spec fn next_request_id(id: u64) -> u64 {
    if id == u64::MAX {
        0
    } else {
        (id + 1) as u64
    }
}

/// The picker while it awaits a new listing.
pub open spec fn awaiting(picker: FilePickerState) -> FilePickerState {
    FilePickerState {
        loading: true,
        expected_request_id: next_request_id(picker.expected_request_id),
        ..picker
    }
}

/// A new request makes the reply to the one before it stale: it changes
/// nothing any more.
pub proof fn lemma_old_listing_is_dropped(picker: FilePickerState, listing: DirectoryListing)
    requires
        listing.request_id == picker.expected_request_id,
    ensures
        directory_lister_actor::after_listing(awaiting(picker), listing) == awaiting(picker),
{
}

/// Whether the request lists the directory that the typed path names, and its
/// reply is the one that is awaited next.
pub open spec fn lists(request: ListDirectory, before: AppState, filter: Seq<char>) -> bool {
    &&& request.session_id == before.session.active.session_id
    &&& request.path@ == file_picker_state::list_dir(
        filter,
        before.session.active.cwd@,
        before.frontend.home@,
    )
    &&& request.request_id == next_request_id(before.frontend.file_picker.expected_request_id)
}

/// Whether the state and the messages are those after the edit of the active
/// input box. Without an input box nothing happens.
pub open spec fn handled(
    before: AppState,
    after: AppState,
    messages: Seq<IntentMessage>,
    edit: spec_fn(state::InputView) -> editing::Edit,
) -> bool {
    &&& only_input(before, after)
    &&& match (before.session.active.input, after.session.active.input) {
        (Some(old_input), Some(new_input)) => {
            &&& new_input@ == edit(old_input@).input
            &&& match edit(old_input@).list {
                Some(filter) => {
                    &&& after.frontend.file_picker == awaiting(before.frontend.file_picker)
                    &&& messages.len() == 1
                    &&& messages[0] matches IntentMessage::ListDirectory(request) && lists(
                        request,
                        before,
                        filter,
                    )
                },
                None => after.frontend.file_picker == before.frontend.file_picker
                    && messages.len() == 0,
            }
        },
        (None, None) => after.frontend.file_picker == before.frontend.file_picker && messages.len()
            == 0,
        _ => false,
    }
}

/// Asks for the directory that a typed path names.
fn emit_list_directory(state: &mut AppState, filter: &str) -> (request: ListDirectory)
    ensures
        lists(request, *old(state), filter@),
        *final(state) == (AppState {
            frontend: app_state::FrontendState {
                file_picker: awaiting(old(state).frontend.file_picker),
                ..old(state).frontend
            },
            ..*old(state)
        }),
{
    let path = resolve_list_dir(
        filter,
        state.session.active.cwd.as_str(),
        state.frontend.home.as_str(),
    );
    let request_id: u64 = if state.frontend.file_picker.expected_request_id == u64::MAX {
        0
    } else {
        state.frontend.file_picker.expected_request_id + 1
    };
    state.frontend.file_picker.expected_request_id = request_id;
    state.frontend.file_picker.loading = true;
    ListDirectory { session_id: state.session.active.session_id, path, request_id }
}

/// Asks for a listing where there is one to ask for.
fn list_if_asked(state: &mut AppState, list: Option<String>) -> (result: IntentResult)
    ensures
        match list {
            Some(filter) => {
                &&& *final(state) == (AppState {
                    frontend: app_state::FrontendState {
                        file_picker: awaiting(old(state).frontend.file_picker),
                        ..old(state).frontend
                    },
                    ..*old(state)
                })
                &&& result.messages@.len() == 1
                &&& result.messages@[0] matches IntentMessage::ListDirectory(request) && lists(
                    request,
                    *old(state),
                    filter@,
                )
            },
            None => *final(state) == *old(state) && result.messages@.len() == 0,
        },
{
    match list {
        Some(filter) => {
            let request = emit_list_directory(state, filter.as_str());
            IntentResult::new_message(IntentMessage::ListDirectory(request))
        },
        None => IntentResult::empty(),
    }
}

/// Handles a typed character.
pub fn handle_insert_char(ch: char, state: &mut AppState) -> (result: IntentResult)
    ensures
        handled(
            *old(state),
            *final(state),
            result.messages@,
            |i: state::InputView| editing::after_char(i, old(state).templates(), ch),
        ),
{
    let list = match &mut state.session.active.input {
        Some(input) => insert_char(ch, input, &state.session.active.prompt_templates),
        None => None,
    };
    list_if_asked(state, list)
}

/// Handles pasted text: it is inserted at once, and the popup closes.
pub fn handle_paste_text(text: &str, state: &mut AppState) -> (result: IntentResult)
    ensures
        handled(
            *old(state),
            *final(state),
            result.messages@,
            |i: state::InputView| editing::quiet(i.closed_popup().inserted(text@)),
        ),
{
    if let Some(input) = &mut state.session.active.input {
        input.deactivate_autocomplete();
        input.insert_text(text);
    }
    IntentResult::empty()
}

/// Handles backspace.
pub fn handle_delete_grapheme(state: &mut AppState) -> (result: IntentResult)
    ensures
        handled(
            *old(state),
            *final(state),
            result.messages@,
            |i: state::InputView| editing::after_backspace(i, old(state).templates()),
        ),
{
    let list = match &mut state.session.active.input {
        Some(input) => backspace(input, &state.session.active.prompt_templates),
        None => None,
    };
    list_if_asked(state, list)
}

/// Handles a forward delete.
pub fn handle_delete_grapheme_forward(state: &mut AppState) -> (result: IntentResult)
    ensures
        handled(
            *old(state),
            *final(state),
            result.messages@,
            |i: state::InputView|
                editing::quiet(editing::after_delete(i, old(state).templates())),
        ),
{
    if let Some(input) = &mut state.session.active.input {
        delete_forward(input, &state.session.active.prompt_templates);
    }
    IntentResult::empty()
}

/// Handles the change between queueing and steering.
pub fn handle_toggle_input_mode(state: &mut AppState) -> (result: IntentResult)
    ensures
        handled(
            *old(state),
            *final(state),
            result.messages@,
            |i: state::InputView|
                editing::quiet(state::InputView { mode: state::other_mode(i.mode), ..i }),
        ),
{
    if let Some(input) = &mut state.session.active.input {
        input.toggle_input_mode();
    }
    IntentResult::empty()
}

/// The command that a submitted text begins with.
pub open spec fn command_in(text: Seq<char>) -> Option<SlashCommand> {
    if "/"@.is_prefix_of(text) {
        slash_command::command_named(text::first_word(text.skip(1)))
    } else {
        None
    }
}

/// Whether a submitted message goes into the running turn: in steering mode
/// while there is one. Otherwise it goes into the queue.
pub open spec fn steers(mode: InputMode, phase: PhaseKind) -> bool {
    mode == InputMode::Steer && phase != PhaseKind::Idle
}

/// Whether the message carries the submitted text to where it belongs.
pub open spec fn carries(
    message: IntentMessage,
    session_id: SessionId,
    mode: InputMode,
    phase: PhaseKind,
    text: Seq<char>,
) -> bool {
    if steers(mode, phase) {
        message matches IntentMessage::SubmitSteeringMessage(m) && m.session_id == session_id
            && m.text@ == text
    } else {
        &&& message matches IntentMessage::EnqueueUserMessage(m)
        &&& m.session_id == session_id
        &&& m.entry.is_fresh()
        &&& m.entry.kind matches ChatEntryKind::User { display, expanded, attachments }
        &&& display@ == text
        &&& expanded@ == text
        &&& attachments@.len() == 0
    }
}

/// The message that executes a command.
pub open spec fn command_message(command: SlashCommand, session_id: SessionId) -> IntentMessage {
    match command {
        SlashCommand::Compact => IntentMessage::TriggerCompaction(
            TriggerCompaction { session_id, compact_all: false },
        ),
        SlashCommand::CompactAll => IntentMessage::TriggerCompaction(
            TriggerCompaction { session_id, compact_all: true },
        ),
        SlashCommand::New => IntentMessage::StartNewSession(StartNewSession { from: session_id }),
    }
}

/// Whether the messages are those of a submitted text: the session was worked
/// in, and then its command, or the text itself.
pub open spec fn submits(
    messages: Seq<IntentMessage>,
    session: app_state::ChatSessionState,
    mode: InputMode,
    text: Seq<char>,
    command: Option<SlashCommand>,
) -> bool {
    &&& messages.len() == 2
    &&& messages[0] == IntentMessage::MarkSessionInteracted(
        MarkSessionInteracted { session_id: session.session_id },
    )
    &&& match command {
        Some(c) => messages[1] == command_message(c, session.session_id),
        None => carries(messages[1], session.session_id, mode, session.phase, text),
    }
}

/// The box as it is submitted: an open popup's selected row is put in first.
pub open spec fn as_submitted(input: state::InputView) -> state::InputView {
    editing::with_selection(input).closed_popup()
}

/// The command that a submitted box executes. The row of a template or file
/// popup is never one.
pub open spec fn submitted_command(input: state::InputView) -> Option<SlashCommand> {
    if input.popup matches Some(popup) && popup.trigger != AutocompleteTrigger::Slash {
        None
    } else {
        command_in(as_submitted(input).text)
    }
}

/// The box after its text was submitted.
pub open spec fn cleared(input: state::InputView) -> state::InputView {
    state::InputView { text: Seq::empty(), cursor: 0, popup: None, scroll_offset: 0, ..input }
}

/// The command that a submitted text begins with.
fn find_command(text: &str) -> (command: Option<SlashCommand>)
    ensures
        command == command_in(text@),
{
    if !starts_with(text, "/") {
        return None;
    }
    let chars = chars_of(text);
    proof {
        reveal_strlit("/");
    }
    let rest = text::from_chars(&chars, 1);
    let word = first_word_of(rest.as_str());
    SlashCommand::lookup(word.as_str())
}

/// Routes a submitted message by input mode and session phase.
fn route_to_enqueue_or_steer(
    session_id: SessionId,
    mode: InputMode,
    phase: PhaseKind,
    display: String,
) -> (message: IntentMessage)
    ensures
        carries(message, session_id, mode, phase, display@),
{
    if mode == InputMode::Steer && phase != PhaseKind::Idle {
        IntentMessage::SubmitSteeringMessage(SubmitSteeringMessage { session_id, text: display })
    } else {
        IntentMessage::EnqueueUserMessage(
            EnqueueUserMessage { session_id, entry: ChatEntry::user(display.as_str()) },
        )
    }
}

/// The message that executes a command.
fn execute_slash_command(command: SlashCommand, session_id: SessionId) -> (message: IntentMessage)
    ensures
        message == command_message(command, session_id),
{
    match command {
        SlashCommand::Compact => IntentMessage::TriggerCompaction(
            TriggerCompaction { session_id, compact_all: false },
        ),
        SlashCommand::CompactAll => IntentMessage::TriggerCompaction(
            TriggerCompaction { session_id, compact_all: true },
        ),
        SlashCommand::New => IntentMessage::StartNewSession(StartNewSession { from: session_id }),
    }
}

/// The messages of a submitted text, behind the note that the session was
/// worked in.
fn with_mark_interacted(session_id: SessionId, message: IntentMessage) -> (result: IntentResult)
    ensures
        result.messages@ == seq![
            IntentMessage::MarkSessionInteracted(MarkSessionInteracted { session_id }),
            message,
        ],
{
    let mut messages: Vec<IntentMessage> = Vec::new();
    messages.push(IntentMessage::MarkSessionInteracted(MarkSessionInteracted { session_id }));
    messages.push(message);
    assert(messages@ =~= seq![
        IntentMessage::MarkSessionInteracted(MarkSessionInteracted { session_id }),
        message,
    ]);
    IntentResult { messages }
}

/// Takes the text out of the box: an open popup's selected row is put in
/// first. `None` if there is nothing to submit.
fn take_submission(input: &mut ChatInputBoxState) -> (taken: Option<
    (String, Option<SlashCommand>),
>)
    ensures
        match taken {
            Some((text, command)) => {
                &&& as_submitted(old(input)@).text.len() > 0
                &&& text@ == as_submitted(old(input)@).text
                &&& command == submitted_command(old(input)@)
                &&& final(input)@ == cleared(as_submitted(old(input)@))
            },
            None => {
                &&& as_submitted(old(input)@).text.len() == 0
                &&& final(input)@ == as_submitted(old(input)@)
            },
        },
{
    let commands = match input.autocomplete_trigger() {
        Some(trigger) => trigger == AutocompleteTrigger::Slash,
        None => true,
    };
    complete_selected(input);
    input.deactivate_autocomplete();
    if input.is_empty() {
        return None;
    }
    let text = input.text().to_owned();
    let command = if commands {
        find_command(text.as_str())
    } else {
        None
    };
    input.reset();
    Some((text, command))
}

/// Handles the submission of the box: its command is executed, or its text is
/// sent. An empty box is not submitted.
pub fn handle_submit_message(state: &mut AppState) -> (result: IntentResult)
    ensures
        only_input(*old(state), *final(state)),
        final(state).frontend.file_picker == old(state).frontend.file_picker,
        match (old(state).session.active.input, final(state).session.active.input) {
            (Some(before), Some(after)) => if as_submitted(before@).text.len() == 0 {
                after@ == as_submitted(before@) && result.messages@.len() == 0
            } else {
                &&& after@ == cleared(as_submitted(before@))
                &&& submits(
                    result.messages@,
                    old(state).session.active,
                    before@.mode,
                    as_submitted(before@).text,
                    submitted_command(before@),
                )
            },
            (None, None) => result.messages@.len() == 0,
            _ => false,
        },
{
    let session_id = state.session.active.session_id;
    let phase = state.session.active.phase;
    match &mut state.session.active.input {
        Some(input) => {
            let mode = input.input_mode();
            match take_submission(input) {
                Some((text, command)) => {
                    let message = match command {
                        Some(c) => execute_slash_command(c, session_id),
                        None => route_to_enqueue_or_steer(session_id, mode, phase, text),
                    };
                    with_mark_interacted(session_id, message)
                },
                None => IntentResult::empty(),
            }
        },
        None => IntentResult::empty(),
    }
}

/// Handles the confirmation of the popup's selected row.
pub fn handle_autocomplete_confirm(state: &mut AppState) -> (result: IntentResult)
    ensures
        handled(
            *old(state),
            *final(state),
            result.messages@,
            |i: state::InputView|
                editing::after_confirm(
                    i,
                    old(state).templates(),
                    old(state).frontend.file_picker.entries@,
                ),
        ),
{
    if validate_autocomplete_confirm(state).is_err() {
        return IntentResult::empty();
    }
    let list = match &mut state.session.active.input {
        Some(input) => confirm(
            input,
            &state.session.active.prompt_templates,
            &state.frontend.file_picker,
        ),
        None => None,
    };
    list_if_asked(state, list)
}

/// Handles a step to the left.
pub fn handle_move_cursor_left(state: &mut AppState) -> (result: IntentResult)
    ensures
        handled(
            *old(state),
            *final(state),
            result.messages@,
            |i: state::InputView|
                editing::after_move(
                    i.at(
                        if i.cursor > 0 {
                            i.cursor - 1
                        } else {
                            0
                        },
                    ),
                    old(state).templates(),
                ),
        ),
{
    let list = match &mut state.session.active.input {
        Some(input) => {
            input.move_cursor_left();
            settle_after_move(input, &state.session.active.prompt_templates)
        },
        None => None,
    };
    list_if_asked(state, list)
}

/// Handles a step to the right.
pub fn handle_move_cursor_right(state: &mut AppState) -> (result: IntentResult)
    ensures
        handled(
            *old(state),
            *final(state),
            result.messages@,
            |i: state::InputView|
                editing::after_move(
                    i.at(state::lesser(i.cursor + 1, i.clusters().len() as int)),
                    old(state).templates(),
                ),
        ),
{
    let list = match &mut state.session.active.input {
        Some(input) => {
            input.move_cursor_right();
            settle_after_move(input, &state.session.active.prompt_templates)
        },
        None => None,
    };
    list_if_asked(state, list)
}

/// Handles the jump to the start; the popup closes.
pub fn handle_move_cursor_to_start(state: &mut AppState) -> (result: IntentResult)
    ensures
        handled(
            *old(state),
            *final(state),
            result.messages@,
            |i: state::InputView| editing::quiet(i.closed_popup().at(0)),
        ),
{
    if let Some(input) = &mut state.session.active.input {
        input.deactivate_autocomplete();
        input.move_cursor_to_start();
    }
    IntentResult::empty()
}

/// Handles the jump to the end; the popup closes.
pub fn handle_move_cursor_to_end(state: &mut AppState) -> (result: IntentResult)
    ensures
        handled(
            *old(state),
            *final(state),
            result.messages@,
            |i: state::InputView|
                editing::quiet(i.closed_popup().at(i.clusters().len() as int)),
        ),
{
    if let Some(input) = &mut state.session.active.input {
        input.deactivate_autocomplete();
        input.move_cursor_to_end();
    }
    IntentResult::empty()
}

/// Handles the jump to the word before the cursor; the popup closes.
pub fn handle_move_cursor_word_left(state: &mut AppState) -> (result: IntentResult)
    ensures
        handled(
            *old(state),
            *final(state),
            result.messages@,
            |i: state::InputView|
                editing::quiet(
                    i.closed_popup().at(
                        state::skip_back(
                            i.clusters(),
                            state::skip_back(i.clusters(), i.cursor, true),
                            false,
                        ),
                    ),
                ),
        ),
{
    if let Some(input) = &mut state.session.active.input {
        input.deactivate_autocomplete();
        input.move_cursor_word_left();
    }
    IntentResult::empty()
}

/// Handles the jump behind the word after the cursor; the popup closes.
pub fn handle_move_cursor_word_right(state: &mut AppState) -> (result: IntentResult)
    ensures
        handled(
            *old(state),
            *final(state),
            result.messages@,
            |i: state::InputView|
                editing::quiet(
                    i.closed_popup().at(
                        state::skip_ahead(
                            i.clusters(),
                            state::skip_ahead(i.clusters(), i.cursor, true),
                            false,
                        ),
                    ),
                ),
        ),
{
    if let Some(input) = &mut state.session.active.input {
        input.deactivate_autocomplete();
        input.move_cursor_word_right();
    }
    IntentResult::empty()
}

/// The number of rows in the popup: of the shown files for a file popup.
pub open spec fn row_count(
    input: state::InputView,
    files: Seq<file_picker_state::FileEntry>,
) -> int {
    match input.popup {
        Some(popup) => if popup.trigger == AutocompleteTrigger::At {
            file_picker_state::visible(files, input.filter()).len() as int
        } else {
            popup.matches.len() as int
        },
        None => 0,
    }
}

/// The box after a step up: the row above is selected in an open popup, and
/// otherwise the cursor moves a line up.
pub open spec fn after_up(
    input: state::InputView,
    files: Seq<file_picker_state::FileEntry>,
) -> state::InputView {
    match input.popup {
        Some(popup) => if popup.trigger == AutocompleteTrigger::At {
            let from = state::lesser(popup.selected, row_count(input, files));
            input.selecting(
                if from > 0 {
                    from - 1
                } else {
                    0
                },
            )
        } else if popup.selected > 0 {
            input.selecting(popup.selected - 1)
        } else {
            input
        },
        None => {
            let row = input.row_at(input.cursor);
            if row > 0 {
                input.at(input.in_row(row - 1))
            } else {
                input
            }
        },
    }
}

/// The box after a step down: the row below is selected in an open popup, and
/// otherwise the cursor moves a line down.
pub open spec fn after_down(
    input: state::InputView,
    files: Seq<file_picker_state::FileEntry>,
) -> state::InputView {
    match input.popup {
        Some(popup) => if popup.selected + 1 < row_count(input, files) {
            input.selecting(popup.selected + 1)
        } else {
            input
        },
        None => {
            let row = input.row_at(input.cursor);
            if row + 1 < input.lines().len() {
                input.at(input.in_row(row + 1))
            } else {
                input
            }
        },
    }
}

/// A step up or down in a popup selects one of its rows, where it has some.
pub proof fn lemma_selection_stays_on_a_row(
    input: state::InputView,
    files: Seq<file_picker_state::FileEntry>,
)
    requires
        input.popup matches Some(popup) && 0 <= popup.selected && (popup.trigger
            == AutocompleteTrigger::At || popup.selected < popup.matches.len()),
        row_count(input, files) > 0,
    ensures
        after_up(input, files).popup matches Some(popup) && 0 <= popup.selected < row_count(
            input,
            files,
        ),
        input.popup.unwrap().selected < row_count(input, files) ==> (after_down(
            input,
            files,
        ).popup matches Some(popup) && 0 <= popup.selected < row_count(input, files)),
{
}

/// The number of files that the popup shows.
fn at_visible_count(input: &ChatInputBoxState, picker: &FilePickerState) -> (count: usize)
    ensures
        count == file_picker_state::visible(picker.entries@, input@.filter()).len(),
{
    let filter = match input.autocomplete_filter() {
        Some(filter) => filter,
        None => String::new(),
    };
    let shown = picker.visible_entries(filter.as_str());
    assert(file_picker_state::visible(picker.entries@, input@.filter()).len() == shown@.len());
    shown.len()
}

/// Handles a step up.
pub fn handle_move_cursor_up(state: &mut AppState) -> (result: IntentResult)
    ensures
        handled(
            *old(state),
            *final(state),
            result.messages@,
            |i: state::InputView|
                editing::quiet(after_up(i, old(state).frontend.file_picker.entries@)),
        ),
{
    if let Some(input) = &mut state.session.active.input {
        match input.autocomplete_trigger() {
            Some(trigger) => if trigger == AutocompleteTrigger::At {
                let count: usize = at_visible_count(input, &state.frontend.file_picker);
                input.autocomplete_move_up_bounded(count);
            } else {
                input.autocomplete_move_up();
            },
            None => {
                input.move_cursor_up();
            },
        }
    }
    IntentResult::empty()
}

/// Handles a step down.
pub fn handle_move_cursor_down(state: &mut AppState) -> (result: IntentResult)
    ensures
        handled(
            *old(state),
            *final(state),
            result.messages@,
            |i: state::InputView|
                editing::quiet(after_down(i, old(state).frontend.file_picker.entries@)),
        ),
{
    if let Some(input) = &mut state.session.active.input {
        match input.autocomplete_trigger() {
            Some(trigger) => if trigger == AutocompleteTrigger::At {
                let count: usize = at_visible_count(input, &state.frontend.file_picker);
                input.autocomplete_move_down_bounded(count);
            } else {
                input.autocomplete_move_down();
            },
            None => {
                input.move_cursor_down();
            },
        }
    }
    IntentResult::empty()
}

/// Handles escape in normal mode: while the session is busy, the user is asked
/// whether to cancel. The selection stays.
pub fn handle_normal_escape(state: &mut AppState) -> (result: IntentResult)
    ensures
        result.messages@.len() == 0,
        *final(state) == (AppState {
            frontend: app_state::FrontendState {
                cancel_stream_prompt: old(state).frontend.cancel_stream_prompt || old(
                    state,
                ).session.active.busy || old(state).session.active.phase != PhaseKind::Idle,
                ..old(state).frontend
            },
            ..*old(state)
        }),
{
    validate_normal_escape(state);
    if state.session.active.busy || state.session.active.phase != PhaseKind::Idle {
        state.frontend.cancel_stream_prompt = true;
    }
    IntentResult::empty()
}

/// Handles the change to input mode: the cursor in the log goes back to where
/// it was before it jumped to a pin.
pub fn handle_enter_insert_mode(state: &mut AppState) -> (result: IntentResult)
    requires
        old(state).wf(),
    ensures
        final(state).wf(),
        result.messages@.len() == 0,
        final(state).frontend.overlays@ == old(state).frontend.overlays@.push(FocusScope::Input),
        final(state).session.active.log.cursor == (match old(
            state,
        ).session.active.saved_history_position {
            Some(id) => match chat_log::index_of_id(old(state).session.active.log.entries@, 0, id) {
                Some(i) => Some(i as usize),
                None => old(state).session.active.log.cursor,
            },
            None => old(state).session.active.log.cursor,
        }),
        *final(state) == (AppState {
            session: app_state::SessionStore {
                active: app_state::ChatSessionState {
                    log: chat_log::ChatLog {
                        cursor: final(state).session.active.log.cursor,
                        ..old(state).session.active.log
                    },
                    saved_history_position: None,
                    ..old(state).session.active
                },
                ..old(state).session
            },
            frontend: app_state::FrontendState {
                overlays: final(state).frontend.overlays,
                ..old(state).frontend
            },
            ..*old(state)
        }),
{
    if let Some(id) = state.session.active.saved_history_position {
        state.session.active.log.set_selected_cursor_id(id);
        state.session.active.saved_history_position = None;
    }
    state.frontend.scope_push(FocusScope::Input);
    IntentResult::empty()
}

/// Handles the change to normal mode where no picker brings its own close
/// hook.
pub fn handle_enter_normal_mode(state: &mut AppState) -> (result: IntentResult)
    ensures
        leaves(*old(state), *final(state), result.messages@, Seq::empty()),
{
    let pickers = PickerRegistry::new();
    assert(pickers.kinds@ =~= Seq::empty());
    handle_enter_normal_mode_with_pickers(state, &pickers)
}

/// Whether the state and messages are those after escape. The first of these
/// that applies happens: an open popup closes; a picker with its own close
/// hook runs it; the task list gives the keys back to the sidebar; everything
/// above the chat log is left and an abandoned session creation forgotten.
pub open spec fn leaves(
    before: AppState,
    after: AppState,
    messages: Seq<IntentMessage>,
    hooked: Seq<PickerKind>,
) -> bool {
    let picking = before.frontend.focus() == FocusScope::Picker;
    if !validator::no_popup(before.session.active) {
        &&& messages.len() == 0
        &&& only_input(before, after)
        &&& after.frontend.file_picker == before.frontend.file_picker
        &&& after.session.active.input matches Some(input) && input@
            == before.session.active.input.unwrap()@.closed_popup()
    } else if picking && (before.frontend.picker_kind matches Some(kind) && hooked.contains(kind)) {
        &&& after == before
        &&& messages == seq![
            IntentMessage::ClosePicker(ClosePicker { kind: before.frontend.picker_kind.unwrap() }),
        ]
    } else if picking && before.frontend.picker_kind == Some(PickerKind::TaskList) {
        &&& messages.len() == 0
        &&& after.frontend.overlays@ == app_state::popped(before.frontend.overlays@)
        &&& after == (AppState {
            frontend: app_state::FrontendState {
                overlays: after.frontend.overlays,
                ..before.frontend
            },
            ..before
        })
    } else {
        &&& messages.len() == 0
        &&& after.frontend.overlays@.len() == 0
        &&& after == (AppState {
            frontend: app_state::FrontendState {
                overlays: after.frontend.overlays,
                pending_creation: None,
                ..before.frontend
            },
            ..before
        })
    }
}

/// The first escape closes an open popup and leaves the keys where they are;
/// the second one, outside a picker, goes back to the chat log.
pub proof fn lemma_escape_twice(
    before: AppState,
    between: AppState,
    after: AppState,
    first: Seq<IntentMessage>,
    second: Seq<IntentMessage>,
    hooked: Seq<PickerKind>,
)
    requires
        !validator::no_popup(before.session.active),
        leaves(before, between, first, hooked),
        leaves(between, after, second, hooked),
    ensures
        first.len() == 0,
        validator::no_popup(between.session.active),
        between.frontend.focus() == before.frontend.focus(),
        before.frontend.focus() != FocusScope::Picker ==> second.len() == 0
            && after.frontend.focus() == FocusScope::Normal,
{
}

/// Handles the change to normal mode.
pub fn handle_enter_normal_mode_with_pickers(state: &mut AppState, pickers: &PickerRegistry) -> (
result: IntentResult)
    ensures
        leaves(*old(state), *final(state), result.messages@, pickers.kinds@),
{
    if let Some(input) = &mut state.session.active.input {
        if input.autocomplete().is_some() {
            input.deactivate_autocomplete();
            return IntentResult::empty();
        }
    }
    if state.frontend.is_picker() {
        if let Some(kind) = state.frontend.picker_kind {
            if pickers.contains(kind) {
                return IntentResult::new_message(IntentMessage::ClosePicker(ClosePicker { kind }));
            }
            if kind == PickerKind::TaskList {
                state.frontend.scope_pop();
                return IntentResult::empty();
            }
        }
    }
    state.frontend.pending_creation = None;
    state.frontend.scope_clear_overlays();
    IntentResult::empty()
}

/// What a key does to the rest of the client: it touches the active input box
/// and, where a listing is asked for, the file picker, which then awaits the
/// reply under a new id. Nothing else changes, and nothing at all without an
/// input box.
pub proof fn lemma_keys_touch_the_box_alone(
    before: AppState,
    after: AppState,
    messages: Seq<IntentMessage>,
    edit: spec_fn(state::InputView) -> editing::Edit,
)
    requires
        handled(before, after, messages, edit),
    ensures
        after.session.others == before.session.others,
        after.session.active.log == before.session.active.log,
        after.session.active.session_id == before.session.active.session_id,
        after.session.active.phase == before.session.active.phase,
        after.session.active.cwd == before.session.active.cwd,
        after.frontend.overlays == before.frontend.overlays,
        after.frontend.cancel_stream_prompt == before.frontend.cancel_stream_prompt,
        after.frontend.file_picker.entries == before.frontend.file_picker.entries,
        before.session.active.input is None ==> after == before && messages.len() == 0,
        before.session.active.input matches Some(input) ==> {
            let done = edit(input@);
            &&& after.session.active.input matches Some(now) && now@ == done.input
            &&& done.list is None ==> messages.len() == 0 && after.frontend.file_picker
                == before.frontend.file_picker
            &&& done.list matches Some(path) ==> {
                &&& messages.len() == 1
                &&& after.frontend.file_picker.loading
                &&& after.frontend.file_picker.expected_request_id
                    != before.frontend.file_picker.expected_request_id
                &&& messages[0] matches IntentMessage::ListDirectory(request)
                &&& request.session_id == before.session.active.session_id
                &&& request.request_id == after.frontend.file_picker.expected_request_id
                &&& request.path@ == file_picker_state::list_dir(
                    path,
                    before.session.active.cwd@,
                    before.frontend.home@,
                )
            }
        },
{
}

/// A submitted text that is no command goes into the running turn in steering
/// mode, and behind the waiting messages otherwise: in queue mode, and always
/// while the session is idle.
pub proof fn lemma_text_goes_where_the_mode_says(
    messages: Seq<IntentMessage>,
    session: app_state::ChatSessionState,
    mode: InputMode,
    text: Seq<char>,
)
    requires
        submits(messages, session, mode, text, None),
    ensures
        messages.len() == 2,
        messages[0] matches IntentMessage::MarkSessionInteracted(m) && m.session_id
            == session.session_id,
        mode == InputMode::Steer && session.phase != PhaseKind::Idle ==> (messages[1] matches
            IntentMessage::SubmitSteeringMessage(m) && m.session_id == session.session_id && m.text@
            == text),
        mode == InputMode::Queue || session.phase == PhaseKind::Idle ==> (messages[1] matches
            IntentMessage::EnqueueUserMessage(m) && m.session_id == session.session_id && (
        m.entry.kind matches ChatEntryKind::User { display, expanded, attachments } && display@
            == text && expanded@ == text && attachments@.len() == 0) && m.entry.pin_position is None
            && m.entry.context_override == crate::chat_entry::ContextOverride::Default),
{
}

/// A submitted command is executed for the session and its text is not sent.
pub proof fn lemma_commands_are_executed(
    messages: Seq<IntentMessage>,
    session: app_state::ChatSessionState,
    mode: InputMode,
    text: Seq<char>,
    command: SlashCommand,
)
    requires
        submits(messages, session, mode, text, Some(command)),
    ensures
        messages.len() == 2,
        messages[0] matches IntentMessage::MarkSessionInteracted(m) && m.session_id
            == session.session_id,
        command == SlashCommand::Compact ==> (messages[1] matches IntentMessage::TriggerCompaction(
            m,
        ) && m.session_id == session.session_id && !m.compact_all),
        command == SlashCommand::CompactAll ==> (messages[1] matches
            IntentMessage::TriggerCompaction(m) && m.session_id == session.session_id
            && m.compact_all),
        command == SlashCommand::New ==> (messages[1] matches IntentMessage::StartNewSession(m)
            && m.from == session.session_id),
{
}

/// A text is a command exactly if its first word behind a leading `/` is the
/// command's name.
pub proof fn lemma_command_is_the_first_word(
    gap: Seq<char>,
    word: Seq<char>,
    rest: Seq<char>,
)
    requires
        text::blank(gap),
        word.len() > 0,
        forall|i: int| 0 <= i < word.len() ==> !text::is_white_space(#[trigger] word[i]),
        rest.len() > 0 ==> text::is_white_space(rest[0]),
    ensures
        ({
            let text = "/"@ + (gap + word + rest);
            &&& command_in(text) == Some(SlashCommand::Compact) <==> word == "compact"@
            &&& command_in(text) == Some(SlashCommand::CompactAll) <==> word == "compact-all"@
            &&& command_in(text) == Some(SlashCommand::New) <==> word == "new"@
            &&& command_in(text) is None <==> word != "compact"@ && word != "compact-all"@ && word
                != "new"@
        }),
{
    reveal_strlit("/");
    let tail = gap + word + rest;
    let text = "/"@ + tail;
    assert(text.subrange(0, 1) =~= "/"@);
    assert(text.skip(1) =~= tail);
    text::lemma_first_word_is(gap, word, rest);
    slash_command::lemma_command_lookup(word);
}

/// A text that does not begin with `/` is never a command, and neither is what
/// is submitted from a template or file popup.
pub proof fn lemma_no_command_without_slash(input: state::InputView, text: Seq<char>)
    ensures
        text.len() == 0 || text[0] != '/' ==> command_in(text) is None,
        input.popup matches Some(popup) && (popup.trigger == AutocompleteTrigger::Hash
            || popup.trigger == AutocompleteTrigger::At) ==> submitted_command(input) is None,
        input.popup is None ==> submitted_command(input) == command_in(input.text),
{
    reveal_strlit("/");
    if "/"@.is_prefix_of(text) {
        assert(text.subrange(0, 1)[0] == text[0]);
    }
}

/// What is submitted is the text of the box; with an open popup, the name of
/// the selected row first takes the place of what was typed behind the trigger.
pub proof fn lemma_submitted_text(input: state::InputView)
    requires
        0 <= input.cursor <= input.clusters().len(),
        input.popup matches Some(popup) ==> 0 <= popup.token_start < input.cursor && 0
            <= popup.selected,
    ensures
        as_submitted(input).popup is None,
        input.popup is None ==> as_submitted(input).text == input.text,
        input.popup matches Some(popup) && popup.selected >= popup.matches.len() ==> as_submitted(
            input,
        ).text == input.text,
        input.popup matches Some(popup) && popup.selected < popup.matches.len() ==> as_submitted(
            input,
        ).text == editing::text_before(input, input.popup.unwrap().token_start + 1)
            + input.popup.unwrap().matches[input.popup.unwrap().selected].name + editing::text_from(
            input,
            input.cursor,
        ),
{
}

/// After a submission the box is empty, and its mode, width and lock stay.
pub proof fn lemma_submitting_empties_the_box(input: state::InputView)
    ensures
        cleared(as_submitted(input)).text.len() == 0,
        cleared(as_submitted(input)).cursor == 0,
        cleared(as_submitted(input)).popup is None,
        cleared(as_submitted(input)).scroll_offset == 0,
        cleared(as_submitted(input)).mode == input.mode,
        cleared(as_submitted(input)).disabled == input.disabled,
        cleared(as_submitted(input)).wrap_width == input.wrap_width,
{
}

/// With a popup, a step selects the row above or below and leaves text and
/// cursor alone; the first and last rows are kept. Without one it moves the
/// cursor by one line and leaves the text alone.
pub proof fn lemma_steps_up_and_down(
    input: state::InputView,
    files: Seq<file_picker_state::FileEntry>,
)
    requires
        input.popup matches Some(popup) ==> popup.trigger != AutocompleteTrigger::At && 0
            <= popup.selected < popup.matches.len(),
    ensures
        after_up(input, files).text == input.text,
        after_down(input, files).text == input.text,
        input.popup matches Some(popup) ==> {
            let up = after_up(input, files);
            let down = after_down(input, files);
            &&& up.cursor == input.cursor && down.cursor == input.cursor
            &&& up.popup matches Some(p) && p.matches == popup.matches && p.token_start
                == popup.token_start && p.selected == if popup.selected == 0 {
                0
            } else {
                popup.selected - 1
            }
            &&& down.popup matches Some(p) && p.matches == popup.matches && p.token_start
                == popup.token_start && p.selected == if popup.selected == popup.matches.len()
                - 1 {
                popup.selected
            } else {
                popup.selected + 1
            }
        },
        input.popup is None ==> after_up(input, files).popup is None && after_down(
            input,
            files,
        ).popup is None,
        input.popup is None && input.row_at(input.cursor) == 0 ==> after_up(input, files) == input,
        input.popup is None && input.row_at(input.cursor) > 0 ==> after_up(input, files).cursor
            == input.in_row(input.row_at(input.cursor) - 1),
        input.popup is None && input.row_at(input.cursor) + 1 < input.lines().len() ==> after_down(
            input,
            files,
        ).cursor == input.in_row(input.row_at(input.cursor) + 1),
        input.popup is None && input.row_at(input.cursor) + 1 >= input.lines().len() ==> after_down(
            input,
            files,
        ) == input,
{
}

/// In a file popup the steps go over the files that are shown.
pub proof fn lemma_steps_in_file_popup(
    input: state::InputView,
    files: Seq<file_picker_state::FileEntry>,
)
    requires
        input.popup matches Some(popup) && popup.trigger == AutocompleteTrigger::At && 0
            <= popup.selected < file_picker_state::visible(files, input.filter()).len(),
    ensures
        ({
            let popup = input.popup.unwrap();
            let shown = file_picker_state::visible(files, input.filter()).len() as int;
            &&& after_up(input, files).popup matches Some(p) && p.selected == if popup.selected
                == 0 {
                0
            } else {
                popup.selected - 1
            }
            &&& after_down(input, files).popup matches Some(p) && p.selected == if popup.selected
                == shown - 1 {
                popup.selected
            } else {
                popup.selected + 1
            }
        }),
{
}

/// What escape does: an open popup closes and the keys stay where they are; a
/// picker with a close hook is left to its hook; the task list gives the keys
/// back to the scope below; everything else ends in the chat log, and a session
/// creation that was begun is forgotten. The text of the box survives.
pub proof fn lemma_escape(
    before: AppState,
    after: AppState,
    messages: Seq<IntentMessage>,
    hooked: Seq<PickerKind>,
)
    requires
        leaves(before, after, messages, hooked),
    ensures
        ({
            let popup_open = before.session.active.input matches Some(input)
                && input@.popup is Some;
            let in_picker = before.frontend.overlays@.len() > 0 && before.frontend.overlays@.last()
                == FocusScope::Picker;
            let kind = before.frontend.picker_kind;
            &&& popup_open ==> {
                &&& messages.len() == 0
                &&& after.frontend.overlays == before.frontend.overlays
                &&& after.session.active.input matches Some(input) && input@.popup is None
                    && input@.text == before.session.active.input.unwrap()@.text && input@.cursor
                    == before.session.active.input.unwrap()@.cursor
            }
            &&& !popup_open && in_picker && kind is Some && hooked.contains(kind.unwrap()) ==> {
                &&& after == before
                &&& messages.len() == 1
                &&& messages[0] matches IntentMessage::ClosePicker(m) && Some(m.kind) == kind
            }
            &&& !popup_open && in_picker && kind == Some(PickerKind::TaskList)
                && !hooked.contains(PickerKind::TaskList) ==> {
                &&& messages.len() == 0
                &&& after.frontend.overlays@ == before.frontend.overlays@.drop_last()
                &&& after.frontend.pending_creation == before.frontend.pending_creation
            }
            &&& !popup_open && !(in_picker && kind is Some && (kind == Some(PickerKind::TaskList)
                || hooked.contains(kind.unwrap()))) ==> {
                &&& messages.len() == 0
                &&& after.frontend.overlays@.len() == 0
                &&& after.frontend.pending_creation is None
                &&& after.session == before.session
            }
        }),
{
}

/// The active box as it is.
pub open spec fn box_of(state: AppState) -> state::InputView {
    state.session.active.input.unwrap()@
}

/// Whether the box alone differs, besides what the file picker awaits. Without
/// a box nothing does.
pub open spec fn box_alone_differs(before: AppState, after: AppState) -> bool {
    &&& after.session.others == before.session.others
    &&& after.session.active.log == before.session.active.log
    &&& after.session.active.session_id == before.session.active.session_id
    &&& after.session.active.phase == before.session.active.phase
    &&& after.session.active.cwd == before.session.active.cwd
    &&& after.frontend.overlays == before.frontend.overlays
    &&& after.frontend.file_picker.entries == before.frontend.file_picker.entries
    &&& before.session.active.input is None ==> after == before
    &&& before.session.active.input is Some ==> after.session.active.input is Some
}

/// Whether the open popup of the box shows what fits the session's templates
/// and the commands.
pub open spec fn popup_fits(state: AppState) -> bool {
    editing::rows_up_to_date(box_of(state), state.session.active.prompt_templates.templates@)
}

proof fn lemma_handled_box(
    before: AppState,
    after: AppState,
    messages: Seq<IntentMessage>,
    edit: spec_fn(state::InputView) -> editing::Edit,
)
    requires
        handled(before, after, messages, edit),
    ensures
        box_alone_differs(before, after),
        before.session.active.input is None ==> messages.len() == 0,
        before.session.active.input matches Some(input) ==> box_of(after) == edit(input@).input
            && after.session.active.prompt_templates == before.session.active.prompt_templates && (
        edit(input@).list is None ==> messages.len() == 0) && 0 <= input@.cursor && (
        input@.popup matches Some(popup) ==> 0 <= popup.token_start && 0 <= popup.selected),
{
    lemma_keys_touch_the_box_alone(before, after, messages, edit);
    if let Some(input) = before.session.active.input {
        state::lemma_positions_count_from_zero(input);
    }
}

/// Whether a character was typed: it stands at the cursor, unless it closes a
/// `#` reference, and an open popup fits the text.
pub open spec fn key_types_the_character(
    before: AppState,
    after: AppState,
    messages: Seq<IntentMessage>,
    ch: char,
) -> bool {
    &&& box_alone_differs(before, after)
    &&& before.session.active.input is Some ==> {
        let (was, now) = (box_of(before), box_of(after));
        &&& was.cursor <= was.clusters().len() && !(ch == '#' && was.popup is Some
            && was.popup.unwrap().trigger == AutocompleteTrigger::Hash) ==> now.text
            == editing::text_before(was, was.cursor) + seq![ch] + editing::text_from(
            was,
            was.cursor,
        )
        &&& was.typed(ch).cursor >= 1 ==> popup_fits(after)
        &&& now.mode == was.mode
    }
}

/// A character key types the character into the box.
pub proof fn lemma_key_types_the_character(ch: char, result: IntentResult)
    ensures
        forall|state: &mut AppState|
            #[trigger] call_ensures(handle_insert_char, (ch, state), result)
                ==> key_types_the_character(
                *state,
                *final(state),
                result.messages@,
                ch,
            ),
{
    assert forall|state: &mut AppState|
        #[trigger] call_ensures(handle_insert_char, (ch, state), result)
            implies key_types_the_character(
        *state,
        *final(state),
        result.messages@,
        ch,
    ) by {
        let before = *state;
        let after = *final(state);
        let templates = before.session.active.prompt_templates.templates@;
        let files = before.frontend.file_picker.entries@;
        lemma_handled_box(
            before,
            after,
            result.messages@,
            |i: state::InputView| editing::after_char(i, (*state).templates(), ch),
        );
        if before.session.active.input is Some {
            let input = box_of(before);
            if input.typed(ch).cursor >= 1 {
                editing::lemma_rows_follow_the_text(input, templates, ch);
            }
            if input.cursor <= input.clusters().len() && !(ch == '#' && input.popup is Some
                && input.popup.unwrap().trigger == AutocompleteTrigger::Hash) {
                editing::lemma_typing_inserts(input, templates, ch);
            }
            lemma_mode_is_kept(input, templates, ch);
        }
    }
}

/// Whether the cluster before the cursor was deleted, and an open popup fits
/// the text.
pub open spec fn backspace_takes_the_cluster_before(
    before: AppState,
    after: AppState,
    messages: Seq<IntentMessage>,
) -> bool {
    &&& box_alone_differs(before, after)
    &&& before.session.active.input is Some ==> {
        let (was, now) = (box_of(before), box_of(after));
        &&& was.cursor <= was.clusters().len() ==> now.text == if was.cursor == 0 {
            was.text
        } else {
            editing::text_before(was, was.cursor - 1) + editing::text_from(was, was.cursor)
        }
        &&& popup_fits(after)
    }
}

/// The backspace key deletes the cluster before the cursor.
pub proof fn lemma_backspace_takes_the_cluster_before(result: IntentResult)
    ensures
        forall|state: &mut AppState|
            #[trigger] call_ensures(handle_delete_grapheme, (state,), result)
                ==> backspace_takes_the_cluster_before(
                *state,
                *final(state),
                result.messages@,
            ),
{
    assert forall|state: &mut AppState|
        #[trigger] call_ensures(handle_delete_grapheme, (state,), result)
            implies backspace_takes_the_cluster_before(
        *state,
        *final(state),
        result.messages@,
    ) by {
        let before = *state;
        let after = *final(state);
        let templates = before.session.active.prompt_templates.templates@;
        let files = before.frontend.file_picker.entries@;
        lemma_handled_box(
            before,
            after,
            result.messages@,
            |i: state::InputView| editing::after_backspace(i, (*state).templates()),
        );
        if before.session.active.input is Some {
            let input = box_of(before);
            editing::lemma_rows_after_deleting(input, templates);
            if input.cursor <= input.clusters().len() {
                editing::lemma_deleting_removes_one(input, templates);
            }
        }
    }
}

/// Whether the cluster behind the cursor was deleted, and an open popup fits
/// the text.
pub open spec fn delete_takes_the_cluster_behind(
    before: AppState,
    after: AppState,
    messages: Seq<IntentMessage>,
) -> bool {
    &&& box_alone_differs(before, after)
    &&& before.session.active.input is Some ==> {
        let (was, now) = (box_of(before), box_of(after));
        &&& was.cursor <= was.clusters().len() ==> now.text == if was.cursor
            == was.clusters().len() {
            was.text
        } else {
            editing::text_before(was, was.cursor) + editing::text_from(was, was.cursor + 1)
        }
        &&& popup_fits(after)
        &&& messages.len() == 0
    }
}

/// The delete key deletes the cluster behind the cursor.
pub proof fn lemma_delete_takes_the_cluster_behind(result: IntentResult)
    ensures
        forall|state: &mut AppState|
            #[trigger] call_ensures(handle_delete_grapheme_forward, (state,), result)
                ==> delete_takes_the_cluster_behind(
                *state,
                *final(state),
                result.messages@,
            ),
{
    assert forall|state: &mut AppState|
        #[trigger] call_ensures(handle_delete_grapheme_forward, (state,), result)
            implies delete_takes_the_cluster_behind(
        *state,
        *final(state),
        result.messages@,
    ) by {
        let before = *state;
        let after = *final(state);
        let templates = before.session.active.prompt_templates.templates@;
        let files = before.frontend.file_picker.entries@;
        lemma_handled_box(
            before,
            after,
            result.messages@,
            |i: state::InputView| editing::quiet(editing::after_delete(i, (*state).templates())),
        );
        if before.session.active.input is Some {
            let input = box_of(before);
            editing::lemma_rows_after_deleting(input, templates);
            if input.cursor <= input.clusters().len() {
                editing::lemma_deleting_removes_one(input, templates);
            }
        }
    }
}

/// Whether a text was put in at the cursor, and the popup closed.
pub open spec fn paste_puts_the_text_in(
    before: AppState,
    after: AppState,
    messages: Seq<IntentMessage>,
    piece: &str,
) -> bool {
    &&& box_alone_differs(before, after)
    &&& before.session.active.input is Some ==> {
        let (was, now) = (box_of(before), box_of(after));
        &&& was.cursor <= was.clusters().len() ==> now.text == editing::text_before(
            was,
            was.cursor,
        ) + piece@ + editing::text_from(was, was.cursor) && editing::cursor_stands(
            now,
            was.cursor + text::grapheme_clusters(piece@).len(),
        )
        &&& now.popup is None
        &&& messages.len() == 0
    }
}

/// A paste puts the text in at the cursor.
pub proof fn lemma_paste_puts_the_text_in(piece: &str, result: IntentResult)
    ensures
        forall|state: &mut AppState|
            #[trigger] call_ensures(handle_paste_text, (piece, state), result)
                ==> paste_puts_the_text_in(
                *state,
                *final(state),
                result.messages@,
                piece,
            ),
{
    assert forall|state: &mut AppState|
        #[trigger] call_ensures(handle_paste_text, (piece, state), result)
            implies paste_puts_the_text_in(
        *state,
        *final(state),
        result.messages@,
        piece,
    ) by {
        let before = *state;
        let after = *final(state);
        let templates = before.session.active.prompt_templates.templates@;
        let files = before.frontend.file_picker.entries@;
        lemma_handled_box(
            before,
            after,
            result.messages@,
            |i: state::InputView| editing::quiet(i.closed_popup().inserted(piece@)),
        );
        if before.session.active.input is Some {
            let input = box_of(before);
            assert(input.closed_popup().clusters() == input.clusters());
        }
    }
}

/// Whether the mode changed from queueing to steering or back, and nothing
/// else of the box.
pub open spec fn mode_key_toggles(
    before: AppState,
    after: AppState,
    messages: Seq<IntentMessage>,
) -> bool {
    &&& box_alone_differs(before, after)
    &&& before.session.active.input is Some ==> {
        let (was, now) = (box_of(before), box_of(after));
        &&& was.mode == InputMode::Queue ==> now.mode == InputMode::Steer
        &&& was.mode == InputMode::Steer ==> now.mode == InputMode::Queue
        &&& now.text == was.text && now.cursor == was.cursor && now.popup == was.popup
        &&& messages.len() == 0
    }
}

/// The mode key toggles the mode of the box.
pub proof fn lemma_mode_key_toggles(result: IntentResult)
    ensures
        forall|state: &mut AppState|
            #[trigger] call_ensures(handle_toggle_input_mode, (state,), result)
                ==> mode_key_toggles(
                *state,
                *final(state),
                result.messages@,
            ),
{
    assert forall|state: &mut AppState|
        #[trigger] call_ensures(handle_toggle_input_mode, (state,), result)
            implies mode_key_toggles(
        *state,
        *final(state),
        result.messages@,
    ) by {
        let before = *state;
        let after = *final(state);
        let templates = before.session.active.prompt_templates.templates@;
        let files = before.frontend.file_picker.entries@;
        lemma_handled_box(
            before,
            after,
            result.messages@,
            |i: state::InputView| editing::quiet(state::InputView { mode: state::other_mode(i.mode), ..i }),
        );
        if before.session.active.input is Some {
            let input = box_of(before);

        }
    }
}

/// Whether the cursor went one cluster to the left, but not past the start.
pub open spec fn left_key_steps_back(
    before: AppState,
    after: AppState,
    messages: Seq<IntentMessage>,
) -> bool {
    &&& box_alone_differs(before, after)
    &&& before.session.active.input is Some ==> {
        let (was, now) = (box_of(before), box_of(after));
        &&& now.text == was.text
        &&& was.cursor > 0 ==> now.cursor == was.cursor - 1
        &&& was.cursor == 0 ==> now.cursor == 0
    }
}

/// The left key moves the cursor one cluster to the left and keeps the text.
pub proof fn lemma_left_key_steps_back(result: IntentResult)
    ensures
        forall|state: &mut AppState|
            #[trigger] call_ensures(handle_move_cursor_left, (state,), result)
                ==> left_key_steps_back(
                *state,
                *final(state),
                result.messages@,
            ),
{
    assert forall|state: &mut AppState|
        #[trigger] call_ensures(handle_move_cursor_left, (state,), result)
            implies left_key_steps_back(
        *state,
        *final(state),
        result.messages@,
    ) by {
        let before = *state;
        let after = *final(state);
        let templates = before.session.active.prompt_templates.templates@;
        let files = before.frontend.file_picker.entries@;
        lemma_handled_box(
            before,
            after,
            result.messages@,
            |i: state::InputView|
                editing::after_move(
                    i.at(
                        if i.cursor > 0 {
                            i.cursor - 1
                        } else {
                            0
                        },
                    ),
                    (*state).templates(),
                ),
        );
        if before.session.active.input is Some {
            let input = box_of(before);
            let moved = input.at(
                if input.cursor > 0 {
                    input.cursor - 1
                } else {
                    0
                },
            );
            editing::lemma_reopening_keeps_text(moved, templates);
            assert(editing::after_move(moved, templates).input.closed_popup()
                == moved.closed_popup());
        }
    }
}

/// Whether the cursor went one cluster to the right, but not past the end.
pub open spec fn right_key_steps_on(
    before: AppState,
    after: AppState,
    messages: Seq<IntentMessage>,
) -> bool {
    &&& box_alone_differs(before, after)
    &&& before.session.active.input is Some ==> {
        let (was, now) = (box_of(before), box_of(after));
        &&& now.text == was.text
        &&& was.cursor < was.clusters().len() ==> now.cursor == was.cursor + 1
        &&& was.cursor == was.clusters().len() ==> now.cursor == was.cursor
    }
}

/// The right key moves the cursor one cluster to the right and keeps the text.
pub proof fn lemma_right_key_steps_on(result: IntentResult)
    ensures
        forall|state: &mut AppState|
            #[trigger] call_ensures(handle_move_cursor_right, (state,), result)
                ==> right_key_steps_on(
                *state,
                *final(state),
                result.messages@,
            ),
{
    assert forall|state: &mut AppState|
        #[trigger] call_ensures(handle_move_cursor_right, (state,), result)
            implies right_key_steps_on(
        *state,
        *final(state),
        result.messages@,
    ) by {
        let before = *state;
        let after = *final(state);
        let templates = before.session.active.prompt_templates.templates@;
        let files = before.frontend.file_picker.entries@;
        lemma_handled_box(
            before,
            after,
            result.messages@,
            |i: state::InputView|
                editing::after_move(
                    i.at(state::lesser(i.cursor + 1, i.clusters().len() as int)),
                    (*state).templates(),
                ),
        );
        if before.session.active.input is Some {
            let input = box_of(before);
            let moved = input.at(state::lesser(input.cursor + 1, input.clusters().len() as int));
            editing::lemma_reopening_keeps_text(moved, templates);
            assert(editing::after_move(moved, templates).input.closed_popup()
                == moved.closed_popup());
        }
    }
}

/// Whether the cursor stands at the start, and the popup is closed.
pub open spec fn home_key_goes_to_the_start(
    before: AppState,
    after: AppState,
    messages: Seq<IntentMessage>,
) -> bool {
    &&& box_alone_differs(before, after)
    &&& before.session.active.input is Some ==> {
        let (was, now) = (box_of(before), box_of(after));
        &&& now.text == was.text && now.cursor == 0 && now.popup is None
        &&& messages.len() == 0
    }
}

/// The home key moves the cursor to the start of the text.
pub proof fn lemma_home_key_goes_to_the_start(result: IntentResult)
    ensures
        forall|state: &mut AppState|
            #[trigger] call_ensures(handle_move_cursor_to_start, (state,), result)
                ==> home_key_goes_to_the_start(
                *state,
                *final(state),
                result.messages@,
            ),
{
    assert forall|state: &mut AppState|
        #[trigger] call_ensures(handle_move_cursor_to_start, (state,), result)
            implies home_key_goes_to_the_start(
        *state,
        *final(state),
        result.messages@,
    ) by {
        let before = *state;
        let after = *final(state);
        let templates = before.session.active.prompt_templates.templates@;
        let files = before.frontend.file_picker.entries@;
        lemma_handled_box(
            before,
            after,
            result.messages@,
            |i: state::InputView| editing::quiet(i.closed_popup().at(0)),
        );
        if before.session.active.input is Some {
            let input = box_of(before);

        }
    }
}

/// Whether the cursor stands at the end, and the popup is closed.
pub open spec fn end_key_goes_to_the_end(
    before: AppState,
    after: AppState,
    messages: Seq<IntentMessage>,
) -> bool {
    &&& box_alone_differs(before, after)
    &&& before.session.active.input is Some ==> {
        let (was, now) = (box_of(before), box_of(after));
        &&& now.text == was.text && now.cursor == was.clusters().len() && now.popup is None
        &&& messages.len() == 0
    }
}

/// The end key moves the cursor to the end of the text.
pub proof fn lemma_end_key_goes_to_the_end(result: IntentResult)
    ensures
        forall|state: &mut AppState|
            #[trigger] call_ensures(handle_move_cursor_to_end, (state,), result)
                ==> end_key_goes_to_the_end(
                *state,
                *final(state),
                result.messages@,
            ),
{
    assert forall|state: &mut AppState|
        #[trigger] call_ensures(handle_move_cursor_to_end, (state,), result)
            implies end_key_goes_to_the_end(
        *state,
        *final(state),
        result.messages@,
    ) by {
        let before = *state;
        let after = *final(state);
        let templates = before.session.active.prompt_templates.templates@;
        let files = before.frontend.file_picker.entries@;
        lemma_handled_box(
            before,
            after,
            result.messages@,
            |i: state::InputView| editing::quiet(i.closed_popup().at(i.clusters().len() as int)),
        );
        if before.session.active.input is Some {
            let input = box_of(before);

        }
    }
}

/// Whether the cursor went to the left over white space and then over one word.
pub open spec fn word_left_goes_to_a_word_start(
    before: AppState,
    after: AppState,
    messages: Seq<IntentMessage>,
) -> bool {
    &&& box_alone_differs(before, after)
    &&& before.session.active.input is Some ==> {
        let (was, now) = (box_of(before), box_of(after));
        &&& now.text == was.text && now.popup is None && messages.len() == 0
        &&& was.cursor <= was.clusters().len() ==> {
            &&& 0 <= now.cursor <= was.cursor
            &&& now.cursor > 0 ==> text::blank(was.clusters()[now.cursor - 1])
                && now.cursor < was.cursor && !text::blank(was.clusters()[now.cursor])
            &&& forall|j: int, k: int|
                now.cursor <= j < k < was.cursor && text::blank(#[trigger] was.clusters()[j])
                    ==> text::blank(#[trigger] was.clusters()[k])
        }
    }
}

/// The word-left key moves the cursor to the start of the word before it.
pub proof fn lemma_word_left_goes_to_a_word_start(result: IntentResult)
    ensures
        forall|state: &mut AppState|
            #[trigger] call_ensures(handle_move_cursor_word_left, (state,), result)
                ==> word_left_goes_to_a_word_start(
                *state,
                *final(state),
                result.messages@,
            ),
{
    assert forall|state: &mut AppState|
        #[trigger] call_ensures(handle_move_cursor_word_left, (state,), result)
            implies word_left_goes_to_a_word_start(
        *state,
        *final(state),
        result.messages@,
    ) by {
        let before = *state;
        let after = *final(state);
        let templates = before.session.active.prompt_templates.templates@;
        let files = before.frontend.file_picker.entries@;
        lemma_handled_box(
            before,
            after,
            result.messages@,
            |i: state::InputView|
                editing::quiet(
                    i.closed_popup().at(
                        state::skip_back(
                            i.clusters(),
                            state::skip_back(i.clusters(), i.cursor, true),
                            false,
                        ),
                    ),
                ),
        );
        if before.session.active.input is Some {
            let input = box_of(before);
            if input.cursor <= input.clusters().len() {
                let word_end = state::lemma_word_to_the_left(input.clusters(), input.cursor);
            }
        }
    }
}

/// Whether the cursor went to the right over white space and then over one
/// word.
pub open spec fn word_right_goes_behind_a_word(
    before: AppState,
    after: AppState,
    messages: Seq<IntentMessage>,
) -> bool {
    &&& box_alone_differs(before, after)
    &&& before.session.active.input is Some ==> {
        let (was, now) = (box_of(before), box_of(after));
        &&& now.text == was.text && now.popup is None && messages.len() == 0
        &&& was.cursor <= was.clusters().len() ==> {
            &&& was.cursor <= now.cursor <= was.clusters().len()
            &&& now.cursor < was.clusters().len() ==> text::blank(was.clusters()[now.cursor])
                && was.cursor < now.cursor && !text::blank(was.clusters()[now.cursor - 1])
            &&& forall|j: int, k: int|
                was.cursor <= j < k < now.cursor && text::blank(#[trigger] was.clusters()[k])
                    ==> text::blank(#[trigger] was.clusters()[j])
        }
    }
}

/// The word-right key moves the cursor behind the word after it.
pub proof fn lemma_word_right_goes_behind_a_word(result: IntentResult)
    ensures
        forall|state: &mut AppState|
            #[trigger] call_ensures(handle_move_cursor_word_right, (state,), result)
                ==> word_right_goes_behind_a_word(
                *state,
                *final(state),
                result.messages@,
            ),
{
    assert forall|state: &mut AppState|
        #[trigger] call_ensures(handle_move_cursor_word_right, (state,), result)
            implies word_right_goes_behind_a_word(
        *state,
        *final(state),
        result.messages@,
    ) by {
        let before = *state;
        let after = *final(state);
        let templates = before.session.active.prompt_templates.templates@;
        let files = before.frontend.file_picker.entries@;
        lemma_handled_box(
            before,
            after,
            result.messages@,
            |i: state::InputView|
                editing::quiet(
                    i.closed_popup().at(
                        state::skip_ahead(
                            i.clusters(),
                            state::skip_ahead(i.clusters(), i.cursor, true),
                            false,
                        ),
                    ),
                ),
        );
        if before.session.active.input is Some {
            let input = box_of(before);
            if input.cursor <= input.clusters().len() {
                let word_start = state::lemma_word_to_the_right(input.clusters(), input.cursor);
            }
        }
    }
}

/// Whether the selection or the cursor went one row up, but not past the first
/// one.
pub open spec fn up_key_steps_up(
    before: AppState,
    after: AppState,
    messages: Seq<IntentMessage>,
) -> bool {
    &&& box_alone_differs(before, after)
    &&& before.session.active.input is Some ==> {
        let (was, now) = (box_of(before), box_of(after));
        let listed = was.popup matches Some(popup) && popup.trigger != AutocompleteTrigger::At
            && popup.selected < popup.matches.len();
        &&& messages.len() == 0
        &&& listed ==> now.text == was.text && now.cursor == was.cursor && now.popup is Some
            && now.popup.unwrap().selected == if was.popup.unwrap().selected == 0 {
            0
        } else {
            was.popup.unwrap().selected - 1
        }
        &&& was.popup is None ==> now.text == was.text && now.popup is None && now.cursor
            == if was.row_at(was.cursor) == 0 {
            was.cursor
        } else {
            was.in_row(was.row_at(was.cursor) - 1)
        }
    }
}

/// The up key moves the selection of a popup, or else the cursor, one row up.
pub proof fn lemma_up_key_steps_up(result: IntentResult)
    ensures
        forall|state: &mut AppState|
            #[trigger] call_ensures(handle_move_cursor_up, (state,), result) ==> up_key_steps_up(
                *state,
                *final(state),
                result.messages@,
            ),
{
    assert forall|state: &mut AppState|
        #[trigger] call_ensures(handle_move_cursor_up, (state,), result) implies up_key_steps_up(
        *state,
        *final(state),
        result.messages@,
    ) by {
        let before = *state;
        let after = *final(state);
        let templates = before.session.active.prompt_templates.templates@;
        let files = before.frontend.file_picker.entries@;
        lemma_handled_box(
            before,
            after,
            result.messages@,
            |i: state::InputView|
                editing::quiet(after_up(i, (*state).frontend.file_picker.entries@)),
        );
        if before.session.active.input is Some {
            let input = box_of(before);
            if input.popup is None || input.popup.unwrap().trigger != AutocompleteTrigger::At
                && input.popup.unwrap().selected < input.popup.unwrap().matches.len() {
                lemma_steps_up_and_down(input, files);
                state::lemma_row_at_counts_from_zero(input, input.cursor);
            }
        }
    }
}

/// Whether the selection or the cursor went one row down, but not past the
/// last one.
pub open spec fn down_key_steps_down(
    before: AppState,
    after: AppState,
    messages: Seq<IntentMessage>,
) -> bool {
    &&& box_alone_differs(before, after)
    &&& before.session.active.input is Some ==> {
        let (was, now) = (box_of(before), box_of(after));
        let listed = was.popup matches Some(popup) && popup.trigger != AutocompleteTrigger::At
            && popup.selected < popup.matches.len();
        &&& messages.len() == 0
        &&& listed ==> now.text == was.text && now.cursor == was.cursor && now.popup is Some
            && now.popup.unwrap().selected == if was.popup.unwrap().selected
            == was.popup.unwrap().matches.len() - 1 {
            was.popup.unwrap().selected
        } else {
            was.popup.unwrap().selected + 1
        }
        &&& was.popup is None ==> now.text == was.text && now.popup is None && now.cursor
            == if was.row_at(was.cursor) + 1 >= was.lines().len() {
            was.cursor
        } else {
            was.in_row(was.row_at(was.cursor) + 1)
        }
    }
}

/// The down key moves the selection of a popup, or else the cursor, one row
/// down.
pub proof fn lemma_down_key_steps_down(result: IntentResult)
    ensures
        forall|state: &mut AppState|
            #[trigger] call_ensures(handle_move_cursor_down, (state,), result)
                ==> down_key_steps_down(
                *state,
                *final(state),
                result.messages@,
            ),
{
    assert forall|state: &mut AppState|
        #[trigger] call_ensures(handle_move_cursor_down, (state,), result)
            implies down_key_steps_down(
        *state,
        *final(state),
        result.messages@,
    ) by {
        let before = *state;
        let after = *final(state);
        let templates = before.session.active.prompt_templates.templates@;
        let files = before.frontend.file_picker.entries@;
        lemma_handled_box(
            before,
            after,
            result.messages@,
            |i: state::InputView|
                editing::quiet(after_down(i, (*state).frontend.file_picker.entries@)),
        );
        if before.session.active.input is Some {
            let input = box_of(before);
            if input.popup is None || input.popup.unwrap().trigger != AutocompleteTrigger::At
                && input.popup.unwrap().selected < input.popup.unwrap().matches.len() {
                lemma_steps_up_and_down(input, files);
            }
        }
    }
}

/// Whether the selected row of a `/` or `#` popup was put behind its trigger,
/// and the popup fits the text.
pub open spec fn confirm_key_takes_the_row(
    before: AppState,
    after: AppState,
    messages: Seq<IntentMessage>,
) -> bool {
    &&& box_alone_differs(before, after)
    &&& before.session.active.input is Some ==> {
        let (was, now) = (box_of(before), box_of(after));
        let listed = was.popup matches Some(popup) && popup.trigger != AutocompleteTrigger::At;
        &&& was.popup is None ==> now == was && messages.len() == 0
        &&& listed ==> {
            let popup = was.popup.unwrap();
            &&& messages.len() == 0
            &&& popup.selected >= popup.matches.len() ==> now == was
            &&& popup.selected < popup.matches.len() ==> popup_fits(after)
            &&& popup.selected < popup.matches.len() && popup.token_start < was.cursor
                <= was.clusters().len() ==> now.text == editing::text_before(
                was,
                popup.token_start + 1,
            ) + popup.matches[popup.selected].name + editing::text_from(was, was.cursor)
        }
    }
}

/// The confirm key puts the selected row of a popup into the text.
pub proof fn lemma_confirm_key_takes_the_row(result: IntentResult)
    ensures
        forall|state: &mut AppState|
            #[trigger] call_ensures(handle_autocomplete_confirm, (state,), result)
                ==> confirm_key_takes_the_row(
                *state,
                *final(state),
                result.messages@,
            ),
{
    assert forall|state: &mut AppState|
        #[trigger] call_ensures(handle_autocomplete_confirm, (state,), result)
            implies confirm_key_takes_the_row(
        *state,
        *final(state),
        result.messages@,
    ) by {
        let before = *state;
        let after = *final(state);
        let templates = before.session.active.prompt_templates.templates@;
        let files = before.frontend.file_picker.entries@;
        lemma_handled_box(
            before,
            after,
            result.messages@,
            |i: state::InputView|
                editing::after_confirm(
                    i,
                    (*state).templates(),
                    (*state).frontend.file_picker.entries@,
                ),
        );
        if before.session.active.input is Some {
            let input = box_of(before);
            if input.popup is Some && input.popup.unwrap().trigger != AutocompleteTrigger::At {
                let popup = input.popup.unwrap();
                editing::lemma_rows_follow_the_confirmed_row(input, templates, files);
                if popup.selected < popup.matches.len() && popup.token_start < input.cursor
                    <= input.clusters().len() {
                    editing::lemma_confirming_puts_the_name(input, templates, files);
                }
            }
        }
    }
}

proof fn lemma_mode_is_kept(
    input: state::InputView,
    templates: Seq<crate::context::prompt_template::PromptTemplate>,
    ch: char,
)
    ensures
        editing::after_char(input, templates, ch).input.mode == input.mode,
{
}

/// Whether the text of the box was submitted: the session is marked as worked
/// in, and the text is executed as a command, sent to a running turn, or
/// queued. The box is empty then. A box without text submits nothing.
pub open spec fn box_was_submitted(
    before: AppState,
    after: AppState,
    messages: Seq<IntentMessage>,
) -> bool {
    &&& box_alone_differs(before, after)
    &&& after.frontend.file_picker == before.frontend.file_picker
    &&& before.session.active.input is None ==> messages.len() == 0
    &&& before.session.active.input is Some ==> {
        let (was, now) = (box_of(before), box_of(after));
        let session = before.session.active;
        &&& now.popup is None
        &&& now.mode == was.mode
        &&& was.popup is None && was.text.len() == 0 ==> messages.len() == 0 && now.text.len() == 0
        &&& was.popup is None && was.text.len() > 0 ==> {
            &&& now.text.len() == 0 && now.cursor == 0
            &&& messages.len() == 2
            &&& messages[0] matches IntentMessage::MarkSessionInteracted(m) && m.session_id
                == session.session_id
            &&& command_in(was.text) is None && was.mode == InputMode::Steer && session.phase
                != PhaseKind::Idle ==> (messages[1] matches IntentMessage::SubmitSteeringMessage(m)
                && m.session_id == session.session_id && m.text@ == was.text)
            &&& command_in(was.text) is None && (was.mode == InputMode::Queue || session.phase
                == PhaseKind::Idle) ==> (messages[1] matches IntentMessage::EnqueueUserMessage(m)
                && m.session_id == session.session_id && (m.entry.kind matches
                ChatEntryKind::User { display, expanded, .. } && display@ == was.text && expanded@
                == was.text))
            &&& command_in(was.text) == Some(SlashCommand::Compact) ==> (messages[1] matches
                IntentMessage::TriggerCompaction(m) && m.session_id == session.session_id
                && !m.compact_all)
            &&& command_in(was.text) == Some(SlashCommand::CompactAll) ==> (messages[1] matches
                IntentMessage::TriggerCompaction(m) && m.session_id == session.session_id
                && m.compact_all)
            &&& command_in(was.text) == Some(SlashCommand::New) ==> (messages[1] matches
                IntentMessage::StartNewSession(m) && m.from == session.session_id)
        }
    }
}

/// The submit key submits the text of the box.
pub proof fn lemma_submit_key_submits(result: IntentResult)
    ensures
        forall|state: &mut AppState|
            #[trigger] call_ensures(handle_submit_message, (state,), result) ==> box_was_submitted(
                *state,
                *final(state),
                result.messages@,
            ),
{
    assert forall|state: &mut AppState|
        #[trigger] call_ensures(handle_submit_message, (state,), result) implies box_was_submitted(
        *state,
        *final(state),
        result.messages@,
    ) by {
        let before = *state;
        let after = *final(state);
        if before.session.active.input is Some {
            let was = box_of(before);
            let session = before.session.active;
            lemma_no_command_without_slash(was, was.text);
            lemma_submitting_empties_the_box(was);
            if was.popup is None {
                assert(as_submitted(was).text == was.text);
                if was.text.len() > 0 {
                    if let Some(c) = command_in(was.text) {
                        lemma_commands_are_executed(
                            result.messages@,
                            session,
                            was.mode,
                            was.text,
                            c,
                        );
                    } else {
                        lemma_text_goes_where_the_mode_says(
                            result.messages@,
                            session,
                            was.mode,
                            was.text,
                        );
                    }
                }
            }
        } else {
            assert(after == before);
        }
    }
}

/// Escape closes an open popup and nothing else; otherwise it gives the keys
/// back, by the close hook of a picker that has one, to the sidebar from the
/// task list, and to the chat log from everything else.
pub proof fn lemma_escape_key_leaves(pickers: &PickerRegistry, result: IntentResult)
    ensures
        forall|state: &mut AppState|
            #[trigger] call_ensures(
                handle_enter_normal_mode_with_pickers,
                (state, pickers),
                result,
            ) ==> {
                let before = *state;
                let after = *final(state);
                let popup_open = before.session.active.input is Some && box_of(before).popup is Some;
                let in_picker = before.frontend.overlays@.len() > 0
                    && before.frontend.overlays@.last() == FocusScope::Picker;
                let kind = before.frontend.picker_kind;
                let hooked = kind is Some && pickers.kinds@.contains(kind.unwrap());
                &&& popup_open ==> {
                    &&& result.messages@.len() == 0
                    &&& after.frontend.overlays == before.frontend.overlays
                    &&& after.session.active.input is Some && box_of(after).popup is None && box_of(
                        after,
                    ).text == box_of(before).text
                }
                &&& !popup_open && in_picker && hooked ==> {
                    &&& after == before
                    &&& result.messages@.len() == 1
                    &&& result.messages@[0] matches IntentMessage::ClosePicker(m) && Some(m.kind)
                        == kind
                }
                &&& !popup_open && in_picker && !hooked && kind == Some(PickerKind::TaskList) ==> {
                    &&& result.messages@.len() == 0
                    &&& after.frontend.overlays@ == before.frontend.overlays@.drop_last()
                }
                &&& !popup_open && !(in_picker && (hooked || kind == Some(PickerKind::TaskList)))
                    ==> {
                    &&& result.messages@.len() == 0
                    &&& after.frontend.overlays@.len() == 0
                    &&& after.frontend.pending_creation is None
                    &&& after.session == before.session
                }
            },
{
    assert forall|state: &mut AppState|
        #[trigger] call_ensures(
            handle_enter_normal_mode_with_pickers,
            (state, pickers),
            result,
        ) implies leaves(*state, *final(state), result.messages@, pickers.kinds@) by {
    }
    assert forall|state: &mut AppState|
        #[trigger] call_ensures(
            handle_enter_normal_mode_with_pickers,
            (state, pickers),
            result,
        ) implies ({
        let before = *state;
        let after = *final(state);
        let popup_open = before.session.active.input is Some && box_of(before).popup is Some;
        let in_picker = before.frontend.overlays@.len() > 0 && before.frontend.overlays@.last()
            == FocusScope::Picker;
        let kind = before.frontend.picker_kind;
        let hooked = kind is Some && pickers.kinds@.contains(kind.unwrap());
        &&& popup_open ==> {
            &&& result.messages@.len() == 0
            &&& after.frontend.overlays == before.frontend.overlays
            &&& after.session.active.input is Some && box_of(after).popup is None && box_of(
                after,
            ).text == box_of(before).text
        }
        &&& !popup_open && in_picker && hooked ==> {
            &&& after == before
            &&& result.messages@.len() == 1
            &&& result.messages@[0] matches IntentMessage::ClosePicker(m) && Some(m.kind) == kind
        }
        &&& !popup_open && in_picker && !hooked && kind == Some(PickerKind::TaskList) ==> {
            &&& result.messages@.len() == 0
            &&& after.frontend.overlays@ == before.frontend.overlays@.drop_last()
        }
        &&& !popup_open && !(in_picker && (hooked || kind == Some(PickerKind::TaskList))) ==> {
            &&& result.messages@.len() == 0
            &&& after.frontend.overlays@.len() == 0
            &&& after.frontend.pending_creation is None
            &&& after.session == before.session
        }
    }) by {
        lemma_escape(*state, *final(state), result.messages@, pickers.kinds@);
    }
}

/// In the chat log, escape asks whether to cancel an answer that is under way,
/// and never takes the question back.
pub proof fn lemma_escape_in_the_log_asks(result: IntentResult)
    ensures
        forall|state: &mut AppState|
            #[trigger] call_ensures(handle_normal_escape, (state,), result) ==> {
                let before = *state;
                let after = *final(state);
                &&& result.messages@.len() == 0
                &&& after.session == before.session
                &&& after.frontend.overlays == before.frontend.overlays
                &&& after.frontend.cancel_stream_prompt <==> before.frontend.cancel_stream_prompt
                    || before.session.active.busy || before.session.active.phase
                    != PhaseKind::Idle
            },
{
}

/// The insert key gives the keys to the box, and puts the cursor of the log
/// back to where it was before it jumped to a pin.
pub proof fn lemma_insert_key_enters_the_box(result: IntentResult)
    ensures
        forall|state: &mut AppState|
            #[trigger] call_ensures(handle_enter_insert_mode, (state,), result) ==> {
                let before = *state;
                let after = *final(state);
                &&& result.messages@.len() == 0
                &&& after.frontend.overlays@ == before.frontend.overlays@.push(FocusScope::Input)
                &&& after.session.active.saved_history_position is None
                &&& after.session.active.log.entries == before.session.active.log.entries
                &&& after.session.active.input == before.session.active.input
                &&& before.session.active.saved_history_position is None
                    ==> after.session.active.log.cursor == before.session.active.log.cursor
            },
{
}

/// Whether at most one listing was asked for: then it is that of the directory
/// which the path behind the `@` names, for the active session, under a new id
/// that the picker awaits from then on.
pub open spec fn lists_the_typed_directory(
    before: AppState,
    after: AppState,
    messages: Seq<IntentMessage>,
) -> bool {
    ||| messages.len() == 0 && after.frontend.file_picker == before.frontend.file_picker
    ||| {
        &&& messages.len() == 1
        &&& box_of(after).popup is Some
        &&& box_of(after).popup.unwrap().trigger == AutocompleteTrigger::At
        &&& after.frontend.file_picker.loading
        &&& after.frontend.file_picker.expected_request_id
            != before.frontend.file_picker.expected_request_id
        &&& before.frontend.file_picker.expected_request_id < u64::MAX
            ==> after.frontend.file_picker.expected_request_id
            == before.frontend.file_picker.expected_request_id + 1
        &&& messages[0] matches IntentMessage::ListDirectory(request) && request.session_id
            == before.session.active.session_id && request.request_id
            == after.frontend.file_picker.expected_request_id && request.path@
            == file_picker_state::list_dir(
            editing::behind_trigger(box_of(after)),
            before.session.active.cwd@,
            before.frontend.home@,
        )
    }
}

/// The keys that edit the text ask for the listing of the directory that is
/// typed behind an `@`, and for nothing else.
pub proof fn lemma_editing_keys_list_what_is_typed(ch: char, result: IntentResult)
    ensures
        forall|state: &mut AppState|
            #[trigger] call_ensures(handle_insert_char, (ch, state), result)
                && (*state).session.active.input is Some ==> lists_the_typed_directory(
                *state,
                *final(state),
                result.messages@,
            ),
        forall|state: &mut AppState|
            #[trigger] call_ensures(handle_delete_grapheme, (state,), result)
                && (*state).session.active.input is Some ==> lists_the_typed_directory(
                *state,
                *final(state),
                result.messages@,
            ),
        forall|state: &mut AppState|
            #[trigger] call_ensures(handle_autocomplete_confirm, (state,), result)
                && (*state).session.active.input is Some ==> lists_the_typed_directory(
                *state,
                *final(state),
                result.messages@,
            ),
{
    assert forall|state: &mut AppState|
        #[trigger] call_ensures(handle_insert_char, (ch, state), result)
            && (*state).session.active.input is Some implies lists_the_typed_directory(
        *state,
        *final(state),
        result.messages@,
    ) by {
        lemma_listing_keys(*state, *final(state), result.messages@);
    }
    assert forall|state: &mut AppState|
        #[trigger] call_ensures(handle_delete_grapheme, (state,), result)
            && (*state).session.active.input is Some implies lists_the_typed_directory(
        *state,
        *final(state),
        result.messages@,
    ) by {
        lemma_listing_keys(*state, *final(state), result.messages@);
    }
    assert forall|state: &mut AppState|
        #[trigger] call_ensures(handle_autocomplete_confirm, (state,), result)
            && (*state).session.active.input is Some implies lists_the_typed_directory(
        *state,
        *final(state),
        result.messages@,
    ) by {
        lemma_listing_keys(*state, *final(state), result.messages@);
    }
}

proof fn lemma_listing_keys(before: AppState, after: AppState, messages: Seq<IntentMessage>)
    requires
        before.session.active.input is Some,
        after.session.active.input is Some,
        exists|edit: spec_fn(state::InputView) -> editing::Edit| #[trigger]
            handled(before, after, messages, edit) && editing::lists_typed_path(
                edit(box_of(before)),
            ),
    ensures
        lists_the_typed_directory(before, after, messages),
{
    let edit = choose|edit: spec_fn(state::InputView) -> editing::Edit| #[trigger]
        handled(before, after, messages, edit) && editing::lists_typed_path(edit(box_of(before)));
    lemma_keys_touch_the_box_alone(before, after, messages, edit);
    state::lemma_positions_count_from_zero(after.session.active.input.unwrap());
    editing::lemma_filter_is_behind_trigger(box_of(after));
}

/// Where no picker brings its own close hook, escape closes an open popup, and
/// otherwise gives the keys back; it never says anything to the rest.
pub proof fn lemma_plain_escape_key_leaves(result: IntentResult)
    ensures
        forall|state: &mut AppState|
            #[trigger] call_ensures(handle_enter_normal_mode, (state,), result) ==> {
                let (before, after) = (*state, *final(state));
                let popup_open = before.session.active.input is Some && box_of(before).popup is Some;
                let task_list = before.frontend.overlays@.len() > 0
                    && before.frontend.overlays@.last() == FocusScope::Picker
                    && before.frontend.picker_kind == Some(PickerKind::TaskList);
                &&& result.messages@.len() == 0
                &&& popup_open ==> after.frontend.overlays == before.frontend.overlays && box_of(
                    after,
                ).popup is None && box_of(after).text == box_of(before).text
                &&& !popup_open && task_list ==> after.frontend.overlays@
                    == before.frontend.overlays@.drop_last()
                &&& !popup_open && !task_list ==> after.frontend.overlays@.len() == 0
            },
{
    assert forall|state: &mut AppState|
        #[trigger] call_ensures(handle_enter_normal_mode, (state,), result) implies ({
        let (before, after) = (*state, *final(state));
        let popup_open = before.session.active.input is Some && box_of(before).popup is Some;
        let task_list = before.frontend.overlays@.len() > 0 && before.frontend.overlays@.last()
            == FocusScope::Picker && before.frontend.picker_kind == Some(PickerKind::TaskList);
        &&& result.messages@.len() == 0
        &&& popup_open ==> after.frontend.overlays == before.frontend.overlays && box_of(
            after,
        ).popup is None && box_of(after).text == box_of(before).text
        &&& !popup_open && task_list ==> after.frontend.overlays@
            == before.frontend.overlays@.drop_last()
        &&& !popup_open && !task_list ==> after.frontend.overlays@.len() == 0
    }) by {
        lemma_escape(*state, *final(state), result.messages@, Seq::empty());
    }
}

/// The insert key puts the cursor of the log back on the entry that it was on
/// before it jumped to a pin.
pub proof fn lemma_insert_key_restores_the_cursor(result: IntentResult, i: int)
    ensures
        forall|state: &mut AppState|
            #[trigger] call_ensures(handle_enter_insert_mode, (state,), result) && {
                let log = (*state).session.active.log;
                &&& crate::history::distinct_ids(log.entries@)
                &&& 0 <= i < log.entries@.len()
                &&& (*state).session.active.saved_history_position == Some(log.entries@[i].id)
            } ==> (*final(state)).session.active.log.cursor == Some(i as usize),
{
    assert forall|state: &mut AppState|
        #[trigger] call_ensures(handle_enter_insert_mode, (state,), result) && {
            let log = (*state).session.active.log;
            &&& crate::history::distinct_ids(log.entries@)
            &&& 0 <= i < log.entries@.len()
            &&& (*state).session.active.saved_history_position == Some(log.entries@[i].id)
        } implies (*final(state)).session.active.log.cursor == Some(i as usize) by {
        let entries = (*state).session.active.log.entries@;
        chat_log::lemma_index_of_id(entries, 0, entries[i].id);
        let found = chat_log::index_of_id(entries, 0, entries[i].id).unwrap();
        assert(entries[found].id == entries[i].id);
        assert(found == i);
    }
}

} // verus!
