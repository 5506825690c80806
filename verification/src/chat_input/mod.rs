//! The chat input box: its buffer and autocomplete, what the keys do to them,
//! and what is drawn.

pub mod autocomplete_render;
pub mod editing;
pub mod element;
pub mod intent;
pub mod protocol;
pub mod slash_command;
pub mod state;
pub mod token;
pub mod validator;
pub mod wrap;

pub use crate::chat_input::element::{register, AppUiRegistry, ChatInputBoxElement};
pub use crate::chat_input::state::{
    AutocompleteMatch, AutocompleteState, AutocompleteTrigger, ChatInputBoxState, InputMode,
};
