use jinn_domain::app_state::AppState;
use jinn_domain::chat_entry::SessionId;
use jinn_domain::chat_input::validator::{
    validate_autocomplete_confirm, validate_normal_escape, validate_submit_message,
    AutocompleteConfirmError, SubmitMessageError,
};
use jinn_domain::chat_input::{AutocompleteTrigger, ChatInputBoxState};

fn new_state() -> AppState {
    AppState::new(SessionId::new(), "/home/u".to_owned())
}

fn input(state: &mut AppState) -> &mut ChatInputBoxState {
    state.session.active.input.as_mut().expect("input box")
}

#[test]
fn submit_message_succeeds_with_non_empty_buffer() {
    // Given a state with text in the input buffer.
    let mut state = new_state();
    input(&mut state).insert_grapheme_at_cursor('h');

    // When validating submit message.
    let result = validate_submit_message(&state);

    // Then it succeeds.
    assert!(result.is_ok());
}

#[test]
fn submit_message_fails_with_empty_buffer() {
    // Given a state with an empty input buffer.
    let state = new_state();

    // When validating submit message.
    let result = validate_submit_message(&state);

    // Then it returns EmptyBuffer error.
    assert!(matches!(result, Err(SubmitMessageError::EmptyBuffer)));
}

#[test]
fn autocomplete_confirm_succeeds_when_active() {
    // Given a state with autocomplete active.
    let mut state = new_state();
    input(&mut state).activate_autocomplete(
            0,
            AutocompleteTrigger::Hash,
            vec![],
        );

    // When validating autocomplete confirm.
    let result = validate_autocomplete_confirm(&state);

    // Then it succeeds.
    assert!(result.is_ok());
}

#[test]
fn autocomplete_confirm_fails_when_not_active() {
    // Given a state with no autocomplete.
    let state = new_state();

    // When validating autocomplete confirm.
    let result = validate_autocomplete_confirm(&state);

    // Then it returns NotActive error.
    assert!(matches!(result, Err(AutocompleteConfirmError::NotActive)));
}

#[test]
fn a_session_without_an_input_box_submits_nothing() {
    let mut state = new_state();
    state.session.active.input = None;
    assert!(matches!(
        validate_submit_message(&state),
        Err(SubmitMessageError::EmptyBuffer)
    ));
    assert!(matches!(
        validate_autocomplete_confirm(&state),
        Err(AutocompleteConfirmError::NotActive)
    ));
    validate_normal_escape(&state);
}

#[test]
fn submit_message_fails_while_a_popup_is_open() {
    // Given a state with text in the input buffer and a popup open.
    let mut state = new_state();
    input(&mut state).insert_grapheme_at_cursor('#');
    input(&mut state).activate_autocomplete(0, AutocompleteTrigger::Hash, vec![]);

    // When validating submit message.
    let result = validate_submit_message(&state);

    // Then it is refused, until the popup is closed.
    assert_eq!(result, Err(SubmitMessageError::AutocompleteActive));
    input(&mut state).deactivate_autocomplete();
    assert_eq!(validate_submit_message(&state), Ok(()));
}
