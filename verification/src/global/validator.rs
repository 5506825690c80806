//! When the global intents can proceed.

use crate::app_state::{AppState, PhaseKind};
use crate::chat_input::validator;
use vstd::prelude::*;

verus! {

/// The client can always be quit.
pub fn validate_quit(_state: &AppState) {
}

/// The key help can always be shown or hidden.
pub fn validate_toggle_whichkey(_state: &AppState) {
}

/// Why there is nothing to interrupt.
#[derive(Clone, Copy, Debug, PartialEq, Eq, Structural)]
pub enum InterruptError {
    /// Nothing is typed and the session is idle.
    NothingToInterrupt,
}

/// There is something to interrupt unless nothing is typed and the session is
/// idle.
pub fn validate_interrupt(state: &AppState) -> (verdict: Result<(), InterruptError>)
    ensures
        verdict == (if validator::nothing_typed(state.session.active)
            && state.session.active.phase == PhaseKind::Idle {
            Err::<(), InterruptError>(InterruptError::NothingToInterrupt)
        } else {
            Ok(())
        }),
{
    let empty = match &state.session.active.input {
        Some(input) => input.is_empty(),
        None => true,
    };
    if empty && state.session.active.phase == PhaseKind::Idle {
        Err(InterruptError::NothingToInterrupt)
    } else {
        Ok(())
    }
}

/// There is something to interrupt where something is typed or the session is
/// at work.
pub proof fn lemma_interrupt_verdict(state: &AppState, verdict: Result<(), InterruptError>)
    requires
        call_ensures(validate_interrupt, (state,), verdict),
    ensures
        state.session.active.phase != PhaseKind::Idle ==> verdict is Ok,
        state.session.active.phase == PhaseKind::Idle ==> (verdict is Ok <==> (
        state.session.active.input matches Some(input) && input@.text.len() > 0)),
{
    validator::lemma_box_conditions(state.session.active);
    if let Some(input) = state.session.active.input {
        if input@.text.len() == 0 {
            assert(input@.text =~= Seq::<char>::empty());
        }
    }
}

} // verus!
