//! The intents of the working-directory popup.

use crate::app_state;
use crate::app_state::AppState;
use crate::cwd_input::resolve;
use crate::cwd_input::resolve::{resolve_candidate, shorten_path, CwdResolution};
use crate::cwd_input::CwdInputState;
use crate::focus::FocusScope;
use crate::intent_result::{IntentMessage, IntentResult, SetSessionCwd};
use crate::line_input;
use crate::line_input::LineInput;
use crate::text;
use vstd::prelude::*;

verus! {

/// Whether nothing but the popup's text changed.
pub open spec fn only_text(before: AppState, after: AppState) -> bool {
    after == (AppState {
        frontend: app_state::FrontendState {
            cwd_input: after.frontend.cwd_input,
            ..before.frontend
        },
        ..before
    })
}

/// Whether nothing but the popup's text and the focus changed.
pub open spec fn only_popup(before: AppState, after: AppState) -> bool {
    after == (AppState {
        frontend: app_state::FrontendState {
            cwd_input: after.frontend.cwd_input,
            overlays: after.frontend.overlays,
            ..before.frontend
        },
        ..before
    })
}

/// Whether the popup was closed and its text dropped.
pub open spec fn closed(before: AppState, after: AppState) -> bool {
    &&& only_popup(before, after)
    &&& after.frontend.overlays@ == app_state::popped(before.frontend.overlays@)
    &&& after.frontend.cwd_input.text@ == (line_input::LineView { text: Seq::empty(), cursor: 0 })
}

/// Opens the popup on the active session's working directory, with the home
/// directory written as `~` and the cursor at the end.
pub fn handle_cwd_input_enter(state: &mut AppState) -> (result: IntentResult)
    ensures
        result.messages@.len() == 0,
        only_popup(*old(state), *final(state)),
        final(state).frontend.overlays@ == old(state).frontend.overlays@.push(FocusScope::CwdInput),
        final(state).frontend.cwd_input.text@.text == resolve::shortened(
            old(state).session.active.cwd@,
            old(state).frontend.home@,
        ),
        final(state).frontend.cwd_input.text@.cursor == final(state).frontend.cwd_input.text@.len(),
{
    let mut text = LineInput::new();
    let shown = shorten_path(
        state.session.active.cwd.as_str(),
        state.frontend.home.as_str(),
    );
    text.set(shown.as_str());
    state.frontend.cwd_input = CwdInputState { text };
    state.frontend.scope_push(FocusScope::CwdInput);
    IntentResult::empty()
}

/// The directory that the typed path names, to be looked up before it is
/// confirmed. `None` if nothing is typed.
pub fn cwd_input_candidate(state: &AppState) -> (path: Option<String>)
    ensures
        match path {
            Some(p) => resolve::candidate(
                state.frontend.cwd_input.text@.text,
                state.session.active.cwd@,
                state.frontend.home@,
            ) == Some(p@),
            None => resolve::candidate(
                state.frontend.cwd_input.text@.text,
                state.session.active.cwd@,
                state.frontend.home@,
            ) is None,
        },
{
    resolve_candidate(
        state.frontend.cwd_input.text.input(),
        state.session.active.cwd.as_str(),
        state.frontend.home.as_str(),
    )
}

/// Confirms the typed path. A directory becomes the session's working
/// directory and the popup closes; otherwise the popup stays as it is.
pub fn handle_cwd_input_confirm(state: &mut AppState, resolution: CwdResolution) -> (result:
    IntentResult)
    ensures
        match resolution {
            CwdResolution::Directory(path) => {
                &&& closed(*old(state), *final(state))
                &&& result.messages@ == seq![
                    IntentMessage::SetSessionCwd(
                        SetSessionCwd {
                            session_id: old(state).session.active.session_id,
                            cwd: path,
                        },
                    ),
                ]
            },
            _ => *final(state) == *old(state) && result.messages@.len() == 0,
        },
{
    match resolution {
        CwdResolution::Directory(path) => {
            let session_id = state.session.active.session_id;
            state.frontend.scope_pop();
            state.frontend.cwd_input = CwdInputState::new();
            IntentResult::new_message(
                IntentMessage::SetSessionCwd(SetSessionCwd { session_id, cwd: path }),
            )
        },
        _ => IntentResult::empty(),
    }
}

/// Leaves the popup and drops its text.
pub fn handle_cwd_input_leave(state: &mut AppState) -> (result: IntentResult)
    ensures
        result.messages@.len() == 0,
        closed(*old(state), *final(state)),
{
    state.frontend.scope_pop();
    state.frontend.cwd_input = CwdInputState::new();
    IntentResult::empty()
}

/// Inserts a character at the cursor.
pub fn handle_insert_char(state: &mut AppState, ch: char) -> (result: IntentResult)
    ensures
        result.messages@.len() == 0,
        only_text(*old(state), *final(state)),
        final(state).frontend.cwd_input.text@ == ({
            let line = old(state).frontend.cwd_input.text@;
            line.spliced(line.cursor, line.cursor, seq![ch], 1)
        }),
{
    state.frontend.cwd_input.text.insert_char(ch);
    IntentResult::empty()
}

/// Deletes the cluster before the cursor.
pub fn handle_delete(state: &mut AppState) -> (result: IntentResult)
    ensures
        result.messages@.len() == 0,
        only_text(*old(state), *final(state)),
        final(state).frontend.cwd_input.text@ == ({
            let line = old(state).frontend.cwd_input.text@;
            if line.cursor == 0 {
                line
            } else {
                line.spliced(line.cursor - 1, line.cursor, Seq::empty(), 0)
            }
        }),
{
    state.frontend.cwd_input.text.delete();
    IntentResult::empty()
}

/// Deletes the cluster behind the cursor.
pub fn handle_delete_forward(state: &mut AppState) -> (result: IntentResult)
    ensures
        result.messages@.len() == 0,
        only_text(*old(state), *final(state)),
        final(state).frontend.cwd_input.text@ == ({
            let line = old(state).frontend.cwd_input.text@;
            if line.cursor >= line.len() {
                line
            } else {
                line.spliced(line.cursor, line.cursor + 1, Seq::empty(), 0)
            }
        }),
{
    state.frontend.cwd_input.text.delete_forward();
    IntentResult::empty()
}

/// Moves the cursor one cluster left.
pub fn handle_cursor_left(state: &mut AppState) -> (result: IntentResult)
    ensures
        result.messages@.len() == 0,
        only_text(*old(state), *final(state)),
        final(state).frontend.cwd_input.text@ == ({
            let line = old(state).frontend.cwd_input.text@;
            line_input::LineView {
                cursor: (if line.cursor > 0 {
                    line.cursor - 1
                } else {
                    0
                }),
                ..line
            }
        }),
{
    state.frontend.cwd_input.text.cursor_left();
    IntentResult::empty()
}

/// Moves the cursor one cluster right.
pub fn handle_cursor_right(state: &mut AppState) -> (result: IntentResult)
    ensures
        result.messages@.len() == 0,
        only_text(*old(state), *final(state)),
        final(state).frontend.cwd_input.text@ == ({
            let line = old(state).frontend.cwd_input.text@;
            line_input::LineView { cursor: text::clamped(line.text, line.cursor + 1), ..line }
        }),
{
    state.frontend.cwd_input.text.cursor_right();
    IntentResult::empty()
}

/// Inserts pasted text at the cursor.
pub fn handle_paste(state: &mut AppState, text: &str) -> (result: IntentResult)
    ensures
        result.messages@.len() == 0,
        only_text(*old(state), *final(state)),
        final(state).frontend.cwd_input.text@ == ({
            let line = old(state).frontend.cwd_input.text@;
            line.spliced(
                line.cursor,
                line.cursor,
                text@,
                text::grapheme_clusters(text@).len() as int,
            )
        }),
{
    state.frontend.cwd_input.text.paste(text);
    IntentResult::empty()
}

/// Closing the popup gives the keys back to the scope below, forgets what was
/// typed, and leaves the sessions alone.
pub proof fn lemma_closing_forgets(before: AppState, after: AppState)
    requires
        closed(before, after),
        before.frontend.overlays@.len() > 0,
    ensures
        after.frontend.overlays@ == before.frontend.overlays@.drop_last(),
        after.frontend.cwd_input.text@.text.len() == 0,
        after.frontend.cwd_input.text@.cursor == 0,
        after.session == before.session,
        after.frontend.file_picker == before.frontend.file_picker,
        after.frontend.home == before.frontend.home,
{
}

/// Typing in the popup changes its text alone.
pub proof fn lemma_typing_changes_the_text_alone(before: AppState, after: AppState)
    requires
        only_text(before, after),
    ensures
        after.session == before.session,
        after.frontend.overlays == before.frontend.overlays,
        after.frontend.file_picker == before.frontend.file_picker,
        after.frontend.home == before.frontend.home,
{
}

/// The popup opens with the working directory in short, and takes the keys.
pub proof fn lemma_popup_opens_with_the_directory(result: IntentResult)
    ensures
        forall|state: &mut AppState|
            #[trigger] call_ensures(handle_cwd_input_enter, (state,), result) ==> {
                let (before, after) = (*state, *final(state));
                &&& result.messages@.len() == 0
                &&& after.session == before.session
                &&& after.frontend.overlays@ == before.frontend.overlays@.push(FocusScope::CwdInput)
                &&& after.frontend.cwd_input.text@.text == resolve::shortened(
                    before.session.active.cwd@,
                    before.frontend.home@,
                )
                &&& after.frontend.cwd_input.text@.cursor == text::grapheme_clusters(
                    after.frontend.cwd_input.text@.text,
                ).len()
            },
{
}

/// A directory that was found becomes the one of the session, and the popup
/// closes; anything else keeps the popup as it is.
pub proof fn lemma_confirmed_directory_is_set(resolution: CwdResolution, result: IntentResult)
    ensures
        forall|state: &mut AppState|
            #[trigger] call_ensures(handle_cwd_input_confirm, (state, resolution), result) ==> {
                let (before, after) = (*state, *final(state));
                &&& resolution is Directory ==> {
                    &&& result.messages@.len() == 1
                    &&& result.messages@[0] matches IntentMessage::SetSessionCwd(m) && m.session_id
                        == before.session.active.session_id && m.cwd == resolution->Directory_0
                    &&& after.session == before.session
                    &&& after.frontend.cwd_input.text@.text.len() == 0
                    &&& before.frontend.overlays@.len() > 0 ==> after.frontend.overlays@
                        == before.frontend.overlays@.drop_last()
                }
                &&& !(resolution is Directory) ==> after == before && result.messages@.len() == 0
            },
{
    assert forall|state: &mut AppState|
        #[trigger] call_ensures(handle_cwd_input_confirm, (state, resolution), result)
            && resolution is Directory implies ({
        let (before, after) = (*state, *final(state));
        &&& after.session == before.session
        &&& after.frontend.cwd_input.text@.text.len() == 0
        &&& before.frontend.overlays@.len() > 0 ==> after.frontend.overlays@
            == before.frontend.overlays@.drop_last()
    }) by {
        if (*state).frontend.overlays@.len() > 0 {
            lemma_closing_forgets(*state, *final(state));
        }
    }
}

/// A typed character stands at the cursor of the popup's text.
pub proof fn lemma_popup_types_the_character(ch: char, result: IntentResult)
    ensures
        forall|state: &mut AppState|
            #[trigger] call_ensures(handle_insert_char, (state, ch), result) ==> {
                let (before, after) = (*state, *final(state));
                let was = before.frontend.cwd_input.text@;
                let clusters = text::grapheme_clusters(was.text);
                &&& result.messages@.len() == 0
                &&& after.session == before.session
                &&& after.frontend.overlays == before.frontend.overlays
                &&& 0 <= was.cursor <= clusters.len() ==> after.frontend.cwd_input.text@.text
                    == clusters.take(was.cursor).flatten() + seq![ch] + clusters.skip(
                    was.cursor,
                ).flatten()
            },
{
    assert forall|state: &mut AppState|
        #[trigger] call_ensures(handle_insert_char, (state, ch), result) implies ({
        let (before, after) = (*state, *final(state));
        let was = before.frontend.cwd_input.text@;
        let clusters = text::grapheme_clusters(was.text);
        &&& after.session == before.session
        &&& after.frontend.overlays == before.frontend.overlays
        &&& 0 <= was.cursor <= clusters.len() ==> after.frontend.cwd_input.text@.text
            == clusters.take(was.cursor).flatten() + seq![ch] + clusters.skip(was.cursor).flatten()
    }) by {
        let was = (*state).frontend.cwd_input.text@;
        lemma_typing_changes_the_text_alone(*state, *final(state));
        if 0 <= was.cursor <= was.len() {
            line_input::lemma_piece_is_put_in(was, seq![ch], 1);
        }
    }
}

/// A deletion takes out the cluster before or behind the cursor of the popup's
/// text.
pub proof fn lemma_popup_deletes_one_cluster(result: IntentResult)
    ensures
        forall|state: &mut AppState|
            #[trigger] call_ensures(handle_delete, (state,), result) ==> {
                let was = (*state).frontend.cwd_input.text@;
                let clusters = text::grapheme_clusters(was.text);
                &&& result.messages@.len() == 0
                &&& was.cursor == 0 ==> (*final(state)).frontend.cwd_input.text@ == was
                &&& 0 < was.cursor <= clusters.len() ==> (*final(
                    state)).frontend.cwd_input.text@.text == clusters.take(
                    was.cursor - 1,
                ).flatten() + clusters.skip(was.cursor).flatten()
            },
        forall|state: &mut AppState|
            #[trigger] call_ensures(handle_delete_forward, (state,), result) ==> {
                let was = (*state).frontend.cwd_input.text@;
                let clusters = text::grapheme_clusters(was.text);
                &&& result.messages@.len() == 0
                &&& was.cursor >= clusters.len() ==> (*final(state)).frontend.cwd_input.text@ == was
                &&& 0 <= was.cursor < clusters.len() ==> (*final(
                    state)).frontend.cwd_input.text@.text == clusters.take(was.cursor).flatten()
                    + clusters.skip(was.cursor + 1).flatten()
            },
{
    assert forall|state: &mut AppState|
        #[trigger] call_ensures(handle_delete, (state,), result) && 0
            < (*state).frontend.cwd_input.text@.cursor
            <= (*state).frontend.cwd_input.text@.len() implies ({
        let was = (*state).frontend.cwd_input.text@;
        let clusters = text::grapheme_clusters(was.text);
        (*final(state)).frontend.cwd_input.text@.text == clusters.take(was.cursor - 1).flatten()
            + clusters.skip(was.cursor).flatten()
    }) by {
        let was = (*state).frontend.cwd_input.text@;
        line_input::lemma_cluster_is_taken_out(was, was.cursor - 1);
    }
    assert forall|state: &mut AppState|
        #[trigger] call_ensures(handle_delete_forward, (state,), result) && 0
            <= (*state).frontend.cwd_input.text@.cursor
            < (*state).frontend.cwd_input.text@.len() implies ({
        let was = (*state).frontend.cwd_input.text@;
        let clusters = text::grapheme_clusters(was.text);
        (*final(state)).frontend.cwd_input.text@.text == clusters.take(was.cursor).flatten()
            + clusters.skip(was.cursor + 1).flatten()
    }) by {
        let was = (*state).frontend.cwd_input.text@;
        line_input::lemma_cluster_is_taken_out(was, was.cursor);
    }
}

} // verus!
