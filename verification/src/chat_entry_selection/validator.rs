//! When the intents on the selected entry can proceed.

use crate::app_state::AppState;
use crate::chat_entry::{ChatEntry, ChatEntryKind};
use vstd::prelude::*;

verus! {

/// The selected entry of the active session.
pub open spec fn selected(state: AppState) -> Option<ChatEntry> {
    match state.session.active.log.selected() {
        Some(i) => Some(state.session.active.log.entries@[i]),
        None => None,
    }
}

/// Whether the active session has no entries.
pub open spec fn no_history(state: AppState) -> bool {
    state.session.active.log.entries@.len() == 0
}

/// The next entry can always be selected.
pub fn validate_chat_entry_select_next(_state: &AppState) {
}

/// The previous entry can always be selected.
pub fn validate_chat_entry_select_prev(_state: &AppState) {
}

/// Why the selected entry cannot be copied out.
#[derive(Clone, Copy, Debug, PartialEq, Eq, Structural)]
pub enum YankSelectedError {
    /// No entry is selected.
    NoSelection,
}

/// An entry can be copied out if one is selected.
pub fn validate_yank_selected(state: &AppState) -> (verdict: Result<(), YankSelectedError>)
    requires
        state.wf(),
    ensures
        verdict == (if selected(*state) is None {
            Err::<(), YankSelectedError>(YankSelectedError::NoSelection)
        } else {
            Ok(())
        }),
{
    match state.session.active.log.selected_entry() {
        Some(_) => Ok(()),
        None => Err(YankSelectedError::NoSelection),
    }
}

/// Why the selected entry cannot be expanded.
#[derive(Clone, Copy, Debug, PartialEq, Eq, Structural)]
pub enum ExpandEntryError {
    /// No entry is selected.
    NoSelection,
    /// The entry has nothing to expand.
    NotExpandable,
}

/// Whether entries of the kind can be expanded: tool traffic, compaction
/// summaries and annotations.
pub open spec fn expandable(kind: ChatEntryKind) -> bool {
    kind is ToolCall || kind is ToolResult || kind is Compaction || kind is Annotation
}

/// An entry can be expanded if one is selected and it is of such a kind.
pub fn validate_expand_tool_entry(state: &AppState) -> (verdict: Result<(), ExpandEntryError>)
    requires
        state.wf(),
    ensures
        verdict == (match selected(*state) {
            None => Err::<(), ExpandEntryError>(ExpandEntryError::NoSelection),
            Some(entry) => if expandable(entry.kind) {
                Ok(())
            } else {
                Err(ExpandEntryError::NotExpandable)
            },
        }),
{
    match state.session.active.log.selected_entry() {
        Some(entry) => match &entry.kind {
            ChatEntryKind::ToolCall { .. }
            | ChatEntryKind::ToolResult { .. }
            | ChatEntryKind::Compaction { .. }
            | ChatEntryKind::Annotation { .. } => Ok(()),
            _ => Err(ExpandEntryError::NotExpandable),
        },
        None => Err(ExpandEntryError::NoSelection),
    }
}

/// Why a session cannot be forked at the selected entry.
#[derive(Clone, Copy, Debug, PartialEq, Eq, Structural)]
pub enum ForkFromEntryError {
    /// No entry is selected.
    NoSelection,
    /// There are no entries.
    EmptyHistory,
}

/// A session can be forked at any selected entry.
pub fn validate_fork_from_entry(state: &AppState) -> (verdict: Result<(), ForkFromEntryError>)
    requires
        state.wf(),
    ensures
        verdict == (if no_history(*state) {
            Err::<(), ForkFromEntryError>(ForkFromEntryError::EmptyHistory)
        } else if selected(*state) is None {
            Err(ForkFromEntryError::NoSelection)
        } else {
            Ok(())
        }),
{
    if state.session.active.log.entries.len() == 0 {
        return Err(ForkFromEntryError::EmptyHistory);
    }
    match state.session.active.log.selected_entry() {
        Some(_) => Ok(()),
        None => Err(ForkFromEntryError::NoSelection),
    }
}

/// Why no session can be started from the selected entry.
#[derive(Clone, Copy, Debug, PartialEq, Eq, Structural)]
pub enum NewSessionFromEntryError {
    /// No entry is selected.
    NoSelection,
    /// There are no entries.
    EmptyHistory,
    /// The entry is no user or assistant message.
    InvalidKind,
}

/// A session can be started from a selected user or assistant message: other
/// kinds are no use as the only entry of a prompt.
pub fn validate_new_session_from_entry(state: &AppState) -> (verdict: Result<
    (),
    NewSessionFromEntryError,
>)
    requires
        state.wf(),
    ensures
        verdict == (if no_history(*state) {
            Err::<(), NewSessionFromEntryError>(NewSessionFromEntryError::EmptyHistory)
        } else {
            match selected(*state) {
                None => Err(NewSessionFromEntryError::NoSelection),
                Some(entry) => if entry.kind is User || entry.kind is Assistant {
                    Ok(())
                } else {
                    Err(NewSessionFromEntryError::InvalidKind)
                },
            }
        }),
{
    if state.session.active.log.entries.len() == 0 {
        return Err(NewSessionFromEntryError::EmptyHistory);
    }
    match state.session.active.log.selected_entry() {
        Some(entry) => match &entry.kind {
            ChatEntryKind::User { .. } | ChatEntryKind::Assistant(_) => Ok(()),
            _ => Err(NewSessionFromEntryError::InvalidKind),
        },
        None => Err(NewSessionFromEntryError::NoSelection),
    }
}

/// Why the selected entry cannot be pinned.
#[derive(Clone, Copy, Debug, PartialEq, Eq, Structural)]
pub enum ChatEntryPinSelectedError {
    /// No entry is selected.
    NoSelection,
    /// There are no entries.
    EmptyHistory,
}

/// Any selected entry can be pinned.
pub fn validate_chat_entry_pin_selected(state: &AppState) -> (verdict: Result<
    (),
    ChatEntryPinSelectedError,
>)
    requires
        state.wf(),
    ensures
        verdict == (if no_history(*state) {
            Err::<(), ChatEntryPinSelectedError>(ChatEntryPinSelectedError::EmptyHistory)
        } else if selected(*state) is None {
            Err(ChatEntryPinSelectedError::NoSelection)
        } else {
            Ok(())
        }),
{
    if state.session.active.log.entries.len() == 0 {
        return Err(ChatEntryPinSelectedError::EmptyHistory);
    }
    match state.session.active.log.selected_entry() {
        Some(_) => Ok(()),
        None => Err(ChatEntryPinSelectedError::NoSelection),
    }
}

/// Why the selected entry cannot be excluded or brought back.
#[derive(Clone, Copy, Debug, PartialEq, Eq, Structural)]
pub enum ChatEntryIgnoreSelectedError {
    /// No entry is selected.
    NoSelection,
    /// There are no entries.
    EmptyHistory,
    /// The entry is pinned.
    IsPinned,
}

/// A selected entry can be excluded or brought back unless it is pinned.
pub fn validate_chat_entry_ignore_selected(state: &AppState) -> (verdict: Result<
    (),
    ChatEntryIgnoreSelectedError,
>)
    requires
        state.wf(),
    ensures
        verdict == (if no_history(*state) {
            Err::<(), ChatEntryIgnoreSelectedError>(ChatEntryIgnoreSelectedError::EmptyHistory)
        } else {
            match selected(*state) {
                None => Err(ChatEntryIgnoreSelectedError::NoSelection),
                Some(entry) => if entry.pinned() {
                    Err(ChatEntryIgnoreSelectedError::IsPinned)
                } else {
                    Ok(())
                },
            }
        }),
{
    if state.session.active.log.entries.len() == 0 {
        return Err(ChatEntryIgnoreSelectedError::EmptyHistory);
    }
    match state.session.active.log.selected_entry() {
        Some(entry) => if entry.is_pinned() {
            Err(ChatEntryIgnoreSelectedError::IsPinned)
        } else {
            Ok(())
        },
        None => Err(ChatEntryIgnoreSelectedError::NoSelection),
    }
}

/// Why the selected entry cannot be reset.
#[derive(Clone, Copy, Debug, PartialEq, Eq, Structural)]
pub enum ChatEntryResetSelectedError {
    /// No entry is selected.
    NoSelection,
    /// There are no entries.
    EmptyHistory,
    /// The entry is pinned.
    IsPinned,
}

/// A selected entry can be reset to its default unless it is pinned, where that
/// would show no effect.
pub fn validate_chat_entry_reset_selected(state: &AppState) -> (verdict: Result<
    (),
    ChatEntryResetSelectedError,
>)
    requires
        state.wf(),
    ensures
        verdict == (if no_history(*state) {
            Err::<(), ChatEntryResetSelectedError>(ChatEntryResetSelectedError::EmptyHistory)
        } else {
            match selected(*state) {
                None => Err(ChatEntryResetSelectedError::NoSelection),
                Some(entry) => if entry.pinned() {
                    Err(ChatEntryResetSelectedError::IsPinned)
                } else {
                    Ok(())
                },
            }
        }),
{
    if state.session.active.log.entries.len() == 0 {
        return Err(ChatEntryResetSelectedError::EmptyHistory);
    }
    match state.session.active.log.selected_entry() {
        Some(entry) => if entry.is_pinned() {
            Err(ChatEntryResetSelectedError::IsPinned)
        } else {
            Ok(())
        },
        None => Err(ChatEntryResetSelectedError::NoSelection),
    }
}

/// Why the selected entry cannot be isolated.
#[derive(Clone, Copy, Debug, PartialEq, Eq, Structural)]
pub enum ChatEntryIsolateSelectedError {
    /// No entry is selected.
    NoSelection,
    /// There are no entries.
    EmptyHistory,
    /// The entry is pinned.
    IsPinned,
}

/// A selected entry can be isolated unless it is pinned, which keeps it in the
/// prompt already.
pub fn validate_chat_entry_isolate_selected(state: &AppState) -> (verdict: Result<
    (),
    ChatEntryIsolateSelectedError,
>)
    requires
        state.wf(),
    ensures
        verdict == (if no_history(*state) {
            Err::<(), ChatEntryIsolateSelectedError>(ChatEntryIsolateSelectedError::EmptyHistory)
        } else {
            match selected(*state) {
                None => Err(ChatEntryIsolateSelectedError::NoSelection),
                Some(entry) => if entry.pinned() {
                    Err(ChatEntryIsolateSelectedError::IsPinned)
                } else {
                    Ok(())
                },
            }
        }),
{
    if state.session.active.log.entries.len() == 0 {
        return Err(ChatEntryIsolateSelectedError::EmptyHistory);
    }
    match state.session.active.log.selected_entry() {
        Some(entry) => if entry.is_pinned() {
            Err(ChatEntryIsolateSelectedError::IsPinned)
        } else {
            Ok(())
        },
        None => Err(ChatEntryIsolateSelectedError::NoSelection),
    }
}

/// Entries that can be expanded are tool calls and results, summaries and
/// citations; messages and notices are not.
pub proof fn lemma_expandable_kinds(kind: ChatEntryKind)
    ensures
        expandable(kind) == match kind {
            ChatEntryKind::ToolCall { .. }
            | ChatEntryKind::ToolResult { .. }
            | ChatEntryKind::Compaction { .. }
            | ChatEntryKind::Annotation { .. } => true,
            ChatEntryKind::User { .. }
            | ChatEntryKind::Assistant(_)
            | ChatEntryKind::System(_)
            | ChatEntryKind::Error(_)
            | ChatEntryKind::Thinking(_)
            | ChatEntryKind::Transient(_)
            | ChatEntryKind::Actor { .. } => false,
        },
{
}

/// The selected entry is the one under the cursor of the active log, unless it
/// is hidden; an empty log has none.
pub proof fn lemma_selected_entry(state: AppState)
    requires
        state.wf(),
    ensures
        ({
            let log = state.session.active.log;
            &&& log.entries@ == Seq::<ChatEntry>::empty() ==> no_history(state) && selected(
                state,
            ) is None
            &&& log.cursor is Some && !crate::session::chat_log::collapsed(
                log.entries@,
                log.shown_blocks@,
                log.cursor.unwrap() as int,
            ) ==> selected(state) == Some(log.entries@[log.cursor.unwrap() as int])
            &&& log.cursor is None ==> selected(state) is None
            &&& no_history(state) ==> log.entries@ == Seq::<ChatEntry>::empty()
        }),
{
    let log = state.session.active.log;
    if log.entries@.len() == 0 {
        assert(log.entries@ =~= Seq::empty());
    }
}

/// With the cursor on an entry that is not folded away, that entry decides:
/// any can be copied, forked from and pinned; only tool traffic, summaries and
/// citations can be expanded; a session can be started from what the user or
/// the assistant said; and what is pinned cannot be ignored, reset or isolated.
pub proof fn lemma_verdicts_on_the_selected_entry(
    state: &AppState,
    yank: Result<(), YankSelectedError>,
    expand: Result<(), ExpandEntryError>,
    fork: Result<(), ForkFromEntryError>,
    start: Result<(), NewSessionFromEntryError>,
    pin: Result<(), ChatEntryPinSelectedError>,
    ignore: Result<(), ChatEntryIgnoreSelectedError>,
    reset: Result<(), ChatEntryResetSelectedError>,
    isolate: Result<(), ChatEntryIsolateSelectedError>,
)
    requires
        state.wf(),
        call_ensures(validate_yank_selected, (state,), yank),
        call_ensures(validate_expand_tool_entry, (state,), expand),
        call_ensures(validate_fork_from_entry, (state,), fork),
        call_ensures(validate_new_session_from_entry, (state,), start),
        call_ensures(validate_chat_entry_pin_selected, (state,), pin),
        call_ensures(validate_chat_entry_ignore_selected, (state,), ignore),
        call_ensures(validate_chat_entry_reset_selected, (state,), reset),
        call_ensures(validate_chat_entry_isolate_selected, (state,), isolate),
        state.session.active.log.cursor is Some,
        !crate::session::chat_log::collapsed(
            state.session.active.log.entries@,
            state.session.active.log.shown_blocks@,
            state.session.active.log.cursor.unwrap() as int,
        ),
    ensures
        ({
            let log = state.session.active.log;
            let entry = log.entries@[log.cursor.unwrap() as int];
            let pinned = entry.pin_position is Some;
            &&& yank is Ok && fork is Ok && pin is Ok
            &&& expand == match entry.kind {
                ChatEntryKind::ToolCall { .. }
                | ChatEntryKind::ToolResult { .. }
                | ChatEntryKind::Compaction { .. }
                | ChatEntryKind::Annotation { .. } => Ok::<(), ExpandEntryError>(()),
                _ => Err(ExpandEntryError::NotExpandable),
            }
            &&& start == match entry.kind {
                ChatEntryKind::User { .. } | ChatEntryKind::Assistant(_) => Ok::<
                    (),
                    NewSessionFromEntryError,
                >(()),
                _ => Err(NewSessionFromEntryError::InvalidKind),
            }
            &&& pinned ==> ignore == Err::<(), ChatEntryIgnoreSelectedError>(
                ChatEntryIgnoreSelectedError::IsPinned,
            ) && reset == Err::<(), ChatEntryResetSelectedError>(
                ChatEntryResetSelectedError::IsPinned,
            ) && isolate == Err::<(), ChatEntryIsolateSelectedError>(
                ChatEntryIsolateSelectedError::IsPinned,
            )
            &&& !pinned ==> ignore is Ok && reset is Ok && isolate is Ok
        }),
{
    lemma_selected_entry(*state);
}

/// In an empty log nothing can be done, and the verdict says that it is empty;
/// without a selected entry it says that none is selected.
pub proof fn lemma_verdicts_without_an_entry(
    state: &AppState,
    yank: Result<(), YankSelectedError>,
    expand: Result<(), ExpandEntryError>,
    fork: Result<(), ForkFromEntryError>,
    start: Result<(), NewSessionFromEntryError>,
    pin: Result<(), ChatEntryPinSelectedError>,
    ignore: Result<(), ChatEntryIgnoreSelectedError>,
    reset: Result<(), ChatEntryResetSelectedError>,
    isolate: Result<(), ChatEntryIsolateSelectedError>,
)
    requires
        state.wf(),
        call_ensures(validate_yank_selected, (state,), yank),
        call_ensures(validate_expand_tool_entry, (state,), expand),
        call_ensures(validate_fork_from_entry, (state,), fork),
        call_ensures(validate_new_session_from_entry, (state,), start),
        call_ensures(validate_chat_entry_pin_selected, (state,), pin),
        call_ensures(validate_chat_entry_ignore_selected, (state,), ignore),
        call_ensures(validate_chat_entry_reset_selected, (state,), reset),
        call_ensures(validate_chat_entry_isolate_selected, (state,), isolate),
        state.session.active.log.cursor is None,
    ensures
        yank == Err::<(), YankSelectedError>(YankSelectedError::NoSelection),
        expand == Err::<(), ExpandEntryError>(ExpandEntryError::NoSelection),
        state.session.active.log.entries@.len() == 0 ==> {
            &&& fork == Err::<(), ForkFromEntryError>(ForkFromEntryError::EmptyHistory)
            &&& start == Err::<(), NewSessionFromEntryError>(NewSessionFromEntryError::EmptyHistory)
            &&& pin == Err::<(), ChatEntryPinSelectedError>(ChatEntryPinSelectedError::EmptyHistory)
            &&& ignore == Err::<(), ChatEntryIgnoreSelectedError>(
                ChatEntryIgnoreSelectedError::EmptyHistory,
            )
            &&& reset == Err::<(), ChatEntryResetSelectedError>(
                ChatEntryResetSelectedError::EmptyHistory,
            )
            &&& isolate == Err::<(), ChatEntryIsolateSelectedError>(
                ChatEntryIsolateSelectedError::EmptyHistory,
            )
        },
        state.session.active.log.entries@.len() > 0 ==> {
            &&& fork == Err::<(), ForkFromEntryError>(ForkFromEntryError::NoSelection)
            &&& start == Err::<(), NewSessionFromEntryError>(NewSessionFromEntryError::NoSelection)
            &&& pin == Err::<(), ChatEntryPinSelectedError>(ChatEntryPinSelectedError::NoSelection)
            &&& ignore == Err::<(), ChatEntryIgnoreSelectedError>(
                ChatEntryIgnoreSelectedError::NoSelection,
            )
            &&& reset == Err::<(), ChatEntryResetSelectedError>(
                ChatEntryResetSelectedError::NoSelection,
            )
            &&& isolate == Err::<(), ChatEntryIsolateSelectedError>(
                ChatEntryIsolateSelectedError::NoSelection,
            )
        },
{
    lemma_selected_entry(*state);
}

} // verus!
