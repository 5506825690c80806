//! Intents that do not depend on what has the keys.

pub mod validator;
