//! What can be done with the selected entry of the chat log.

pub mod ignore_sweep;
pub mod isolate;
pub mod validator;
