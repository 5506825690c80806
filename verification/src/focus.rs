//! Which part of the screen takes the keys.

use vstd::prelude::*;

verus! {

/// How keys are read.
#[derive(Clone, Copy, Debug, PartialEq, Eq, Structural)]
pub enum Mode {
    Normal,
    Input,
}

/// A part of the screen that can take the keys.
#[derive(Clone, Copy, Debug, PartialEq, Eq, Structural)]
pub enum FocusScope {
    /// The chat log; below all others.
    Normal,
    /// The chat input box.
    Input,
    /// The working-directory popup.
    CwdInput,
    /// A picker.
    Picker,
    /// A section of the sidebar.
    Sidebar,
}

impl FocusScope {
    /// How keys are read in the scope.
    pub open spec fn key_mode(self) -> Mode {
        match self {
            FocusScope::Input => Mode::Input,
            _ => Mode::Normal,
        }
    }

    /// How keys are read in the scope.
    pub fn mode(self) -> (mode: Mode)
        ensures
            mode == self.key_mode(),
    {
        match self {
            FocusScope::Input => Mode::Input,
            _ => Mode::Normal,
        }
    }
}

/// The pickers.
#[derive(Clone, Copy, Debug, PartialEq, Eq, Structural)]
pub enum PickerKind {
    /// The task list of the sidebar, for reading only.
    TaskList,
    Endpoint,
    Persona,
    Project,
    Session,
}

/// The pickers that bring their own close hook.
#[derive(Debug, PartialEq, Eq)]
pub struct PickerRegistry {
    pub kinds: Vec<PickerKind>,
}

impl PickerRegistry {
    /// No pickers.
    pub fn new() -> (registry: PickerRegistry)
        ensures
            registry.kinds@.len() == 0,
    {
        PickerRegistry { kinds: Vec::new() }
    }

    /// Whether the picker brings its own close hook.
    pub fn contains(&self, kind: PickerKind) -> (found: bool)
        ensures
            found == self.kinds@.contains(kind),
    {
        let mut i: usize = 0;
        while i < self.kinds.len()
            invariant
                forall|j: int| 0 <= j < i ==> self.kinds@[j] != kind,
            decreases self.kinds@.len() - i,
        {
            if self.kinds[i] == kind {
                assert(self.kinds@[i as int] == kind);
                return true;
            }
            i += 1;
        }
        false
    }
}

/// Characters are typed in the chat input box alone; every other scope takes
/// keys as commands.
pub proof fn lemma_only_the_box_is_typed_in(scope: FocusScope)
    ensures
        scope.key_mode() == Mode::Input <==> scope == FocusScope::Input,
        scope.key_mode() == Mode::Normal <==> scope != FocusScope::Input,
{
}

/// Characters are typed where the chat input box has the keys, and nowhere
/// else.
pub proof fn lemma_asked_mode(scope: FocusScope, mode: Mode)
    requires
        call_ensures(FocusScope::mode, (scope,), mode),
    ensures
        mode == Mode::Input <==> scope == FocusScope::Input,
{
}

} // verus!
