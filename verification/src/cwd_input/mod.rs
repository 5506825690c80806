//! The popup that changes a session's working directory.

pub mod intent;
pub mod resolve;

use crate::line_input;
use crate::line_input::LineInput;
use vstd::prelude::*;

verus! {

/// The state of the popup.
pub struct CwdInputState {
    pub text: LineInput,
}

impl CwdInputState {
    /// A popup with nothing typed.
    pub fn new() -> (popup: CwdInputState)
        ensures
            popup.text@ == (line_input::LineView { text: Seq::empty(), cursor: 0 }),
    {
        CwdInputState { text: LineInput::new() }
    }
}

} // verus!
