//! When the intents of the input box can proceed.

use crate::app_state;
use crate::app_state::AppState;
use vstd::prelude::*;

verus! {

/// Why a message cannot be submitted.
#[derive(Clone, Copy, Debug, PartialEq, Eq, Structural)]
pub enum SubmitMessageError {
    /// There is nothing to submit.
    EmptyBuffer,
    /// A popup is open; its row is to be settled first.
    AutocompleteActive,
}

/// Why a popup's row cannot be confirmed.
#[derive(Clone, Copy, Debug, PartialEq, Eq, Structural)]
pub enum AutocompleteConfirmError {
    /// No popup is open.
    NotActive,
}

/// Whether the session has nothing typed in its input box.
pub open spec fn nothing_typed(session: app_state::ChatSessionState) -> bool {
    match session.input {
        Some(input) => input@.text.len() == 0,
        None => true,
    }
}

/// Whether the session has no popup open.
pub open spec fn no_popup(session: app_state::ChatSessionState) -> bool {
    match session.input {
        Some(input) => input@.popup is None,
        None => true,
    }
}

/// A message can be submitted unless the buffer is empty or a popup is open.
pub fn validate_submit_message(state: &AppState) -> (verdict: Result<(), SubmitMessageError>)
    ensures
        verdict == (if nothing_typed(state.session.active) {
            Err::<(), SubmitMessageError>(SubmitMessageError::EmptyBuffer)
        } else if !no_popup(state.session.active) {
            Err(SubmitMessageError::AutocompleteActive)
        } else {
            Ok(())
        }),
{
    match &state.session.active.input {
        Some(input) => if input.is_empty() {
            Err(SubmitMessageError::EmptyBuffer)
        } else if input.autocomplete().is_some() {
            Err(SubmitMessageError::AutocompleteActive)
        } else {
            Ok(())
        },
        None => Err(SubmitMessageError::EmptyBuffer),
    }
}

/// A popup's row can be confirmed while a popup is open.
pub fn validate_autocomplete_confirm(state: &AppState) -> (verdict: Result<
    (),
    AutocompleteConfirmError,
>)
    ensures
        verdict == (if no_popup(state.session.active) {
            Err::<(), AutocompleteConfirmError>(AutocompleteConfirmError::NotActive)
        } else {
            Ok(())
        }),
{
    let closed = match &state.session.active.input {
        Some(input) => input.autocomplete().is_none(),
        None => true,
    };
    if closed {
        Err(AutocompleteConfirmError::NotActive)
    } else {
        Ok(())
    }
}

/// Escape in normal mode can always proceed.
pub fn validate_normal_escape(_state: &AppState) {
}

/// Nothing is typed exactly if there is no box or its text is empty, and a
/// popup is open only in a box.
pub proof fn lemma_box_conditions(session: app_state::ChatSessionState)
    ensures
        session.input is None ==> nothing_typed(session) && no_popup(session),
        session.input matches Some(input) ==> (nothing_typed(session) <==> input@.text
            == Seq::<char>::empty()) && (no_popup(session) <==> input@.popup is None),
{
    if let Some(input) = session.input {
        if input@.text.len() == 0 {
            assert(input@.text =~= Seq::empty());
        }
    }
}

/// A message can be submitted where something is typed and no popup is open,
/// and a row confirmed where one is.
pub proof fn lemma_verdicts_on_the_box(
    state: &AppState,
    submit: Result<(), SubmitMessageError>,
    confirm: Result<(), AutocompleteConfirmError>,
)
    requires
        call_ensures(validate_submit_message, (state,), submit),
        call_ensures(validate_autocomplete_confirm, (state,), confirm),
    ensures
        state.session.active.input is None ==> submit == Err::<(), SubmitMessageError>(
            SubmitMessageError::EmptyBuffer,
        ) && confirm is Err,
        state.session.active.input matches Some(input) ==> {
            &&& confirm is Ok <==> input@.popup is Some
            &&& submit is Ok <==> input@.text.len() > 0 && input@.popup is None
            &&& submit == Err::<(), SubmitMessageError>(SubmitMessageError::EmptyBuffer)
                <==> input@.text.len() == 0
        },
{
    lemma_box_conditions(state.session.active);
    if let Some(input) = state.session.active.input {
        if input@.text.len() == 0 {
            assert(input@.text =~= Seq::<char>::empty());
        }
    }
}

} // verus!
