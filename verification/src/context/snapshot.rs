//! The snapshot of a session that its prompt is assembled from.

use crate::app_state;
use crate::app_state::AppState;
use crate::chat_entry;
use crate::chat_entry::{copy_entries, SessionId};
use crate::context::inputs;
use crate::context::inputs::{AssemblyInputs, Skill};
use crate::context::protocol::{ContextFile, Persona};
use crate::text::{copy_strings, text_eq};
use vstd::prelude::*;

verus! {

/// The persona of a session that names none that is known.
pub const DEFAULT_PERSONA_NAME: &'static str = "default";

/// The index of the first persona at or after `from` with this name.
pub open spec fn persona_index(personas: Seq<Persona>, from: int, name: Seq<char>) -> Option<int>
    decreases personas.len() - from,
{
    if from < 0 || from >= personas.len() {
        None
    } else if personas[from].name@ == name {
        Some(from)
    } else {
        persona_index(personas, from + 1, name)
    }
}

/// The persona of this name, or else the default one.
pub open spec fn persona_for(personas: Seq<Persona>, name: Seq<char>) -> Option<Persona> {
    match persona_index(personas, 0, name) {
        Some(i) => Some(personas[i]),
        None => match persona_index(personas, 0, DEFAULT_PERSONA_NAME@) {
            Some(i) => Some(personas[i]),
            None => None,
        },
    }
}

/// The first persona of this name.
fn find_persona(personas: &Vec<Persona>, name: &str) -> (found: Option<usize>)
    ensures
        match found {
            Some(i) => i < personas@.len() && persona_index(personas@, 0, name@) == Some(i as int),
            None => persona_index(personas@, 0, name@) is None,
        },
{
    let mut i: usize = 0;
    while i < personas.len()
        invariant
            persona_index(personas@, 0, name@) == persona_index(personas@, i as int, name@),
        decreases personas@.len() - i,
    {
        if text_eq(personas[i].name.as_str(), name) {
            return Some(i);
        }
        i += 1;
    }
    None
}

/// The persona of this name, or else the default one.
pub fn resolve_persona(personas: &Vec<Persona>, name: &str) -> (persona: Option<Persona>)
    ensures
        persona == persona_for(personas@, name@),
{
    match find_persona(personas, name) {
        Some(i) => Some(personas[i].copy()),
        None => match find_persona(personas, DEFAULT_PERSONA_NAME) {
            Some(i) => Some(personas[i].copy()),
            None => None,
        },
    }
}

/// An equal copy of the skills.
fn copy_skills(skills: &Vec<Skill>) -> (copy: Vec<Skill>)
    ensures
        copy@ == skills@,
{
    let mut copy: Vec<Skill> = Vec::new();
    let mut i: usize = 0;
    while i < skills.len()
        invariant
            i <= skills@.len(),
            copy@ == skills@.take(i as int),
        decreases skills@.len() - i,
    {
        copy.push(skills[i].copy());
        assert(skills@.take(i + 1) =~= skills@.take(i as int).push(skills@[i as int]));
        i += 1;
    }
    assert(skills@.take(i as int) =~= skills@);
    copy
}

/// An equal copy of the files.
pub(crate) fn copy_files(files: &Vec<ContextFile>) -> (copy: Vec<ContextFile>)
    ensures
        copy@ == files@,
{
    let mut copy: Vec<ContextFile> = Vec::new();
    let mut i: usize = 0;
    while i < files.len()
        invariant
            i <= files@.len(),
            copy@ == files@.take(i as int),
        decreases files@.len() - i,
    {
        copy.push(files[i].copy());
        assert(files@.take(i + 1) =~= files@.take(i as int).push(files@[i as int]));
        i += 1;
    }
    assert(files@.take(i as int) =~= files@);
    copy
}

/// Whether the inputs are those of the session in this state.
pub open spec fn snapshot_of(
    taken: AssemblyInputs,
    state: AppState,
    session: app_state::ChatSessionState,
) -> bool {
    &&& taken.session_id == session.session_id
    &&& taken.cwd == session.cwd
    &&& taken.persona == match state.personas {
        Some(personas) => persona_for(personas@, session.persona_name@),
        None => None,
    }
    &&& chat_entry::entry_views(taken.history@) == chat_entry::entry_views(session.log.entries@)
    &&& inputs::tool_views(taken.tools@) == match state.tool_registry {
        Some(registry) => registry.merged(session.session_id),
        None => Seq::empty(),
    }
    &&& taken.disabled_tools@ == session.disabled_tools@
    &&& taken.provider_name == session.provider_name
    &&& taken.skills@ == session.skills@
    &&& taken.disabled_skills@ == session.disabled_skills@
    &&& taken.loaded_skills@ == session.loaded_skills@
    &&& taken.context_files@ == session.context_files@
}

/// Takes the snapshot of a session. What is not loaded yet is left empty.
pub fn build_assembly_inputs(state: &AppState, session_id: &SessionId) -> (taken: AssemblyInputs)
    requires
        state.session.lookup(*session_id) is Some,
    ensures
        taken.session_id == *session_id,
        snapshot_of(taken, *state, state.session.lookup(*session_id).unwrap()),
{
    let session = match state.session.get(session_id) {
        Some(session) => session,
        None => &state.session.active,
    };
    let persona = match &state.personas {
        Some(personas) => resolve_persona(personas, session.persona_name.as_str()),
        None => None,
    };
    let tools = match &state.tool_registry {
        Some(registry) => registry.tools_for_session(session_id),
        None => Vec::new(),
    };
    proof {
        app_state::lemma_lookup(state.session, *session_id);
        if state.tool_registry is None {
            assert(inputs::tool_views(tools@) =~= Seq::empty());
        }
    }
    AssemblyInputs {
        session_id: *session_id,
        cwd: session.cwd.clone(),
        persona,
        history: copy_entries(session.log.entries.as_slice()),
        tools,
        disabled_tools: copy_strings(&session.disabled_tools),
        provider_name: session.provider_name.clone(),
        skills: copy_skills(&session.skills),
        disabled_skills: copy_strings(&session.disabled_skills),
        loaded_skills: copy_strings(&session.loaded_skills),
        context_files: copy_files(&session.context_files),
    }
}

proof fn lemma_persona_index(personas: Seq<Persona>, from: int, name: Seq<char>)
    requires
        0 <= from,
    ensures
        persona_index(personas, from, name) matches Some(i) ==> from <= i < personas.len()
            && personas[i].name@ == name && forall|j: int|
            from <= j < i ==> (#[trigger] personas[j]).name@ != name,
        persona_index(personas, from, name) is None ==> forall|j: int|
            from <= j < personas.len() ==> (#[trigger] personas[j]).name@ != name,
    decreases personas.len() - from,
{
    if from < personas.len() && personas[from].name@ != name {
        lemma_persona_index(personas, from + 1, name);
    }
}

/// A session has the first persona of the name that it asks for. Where there
/// is none, it has the first one called `default`, and where there is none of
/// that name either, it has none.
pub proof fn lemma_persona_goes_by_name(personas: Seq<Persona>, name: Seq<char>)
    ensures
        match persona_for(personas, name) {
            Some(persona) => exists|i: int|
                0 <= i < personas.len() && #[trigger] personas[i] == persona && {
                    ||| persona.name@ == name && forall|j: int|
                        0 <= j < i ==> (#[trigger] personas[j]).name@ != name
                    ||| {
                        &&& persona.name@ == "default"@
                        &&& forall|j: int|
                            0 <= j < personas.len() ==> (#[trigger] personas[j]).name@ != name
                        &&& forall|j: int|
                            0 <= j < i ==> (#[trigger] personas[j]).name@ != "default"@
                    }
                },
            None => forall|j: int|
                0 <= j < personas.len() ==> (#[trigger] personas[j]).name@ != name
                    && personas[j].name@ != "default"@,
        },
{
    lemma_persona_index(personas, 0, name);
    lemma_persona_index(personas, 0, "default"@);
    match persona_index(personas, 0, name) {
        Some(i) => {
            assert(personas[i].name@ == name);
        },
        None => {
            if let Some(i) = persona_index(personas, 0, "default"@) {
                assert(personas[i].name@ == "default"@);
            }
        },
    }
}

/// A snapshot holds what the session itself holds: its history with every
/// entry in place, its working directory and provider, its own skills and
/// files, and which tools and skills it has disabled or loaded. What is not
/// loaded yet is empty.
pub proof fn lemma_snapshot_holds_the_session(
    taken: AssemblyInputs,
    state: AppState,
    session: app_state::ChatSessionState,
)
    requires
        snapshot_of(taken, state, session),
    ensures
        taken.session_id == session.session_id,
        taken.cwd == session.cwd,
        taken.provider_name == session.provider_name,
        taken.history@.len() == session.log.entries@.len(),
        forall|i: int|
            #![trigger taken.history@[i]]
            #![trigger session.log.entries@[i]]
            0 <= i < taken.history@.len() ==> taken.history@[i]@ == session.log.entries@[i]@,
        taken.skills@ == session.skills@,
        taken.context_files@ == session.context_files@,
        taken.disabled_tools@ == session.disabled_tools@,
        taken.disabled_skills@ == session.disabled_skills@,
        taken.loaded_skills@ == session.loaded_skills@,
        state.personas is None ==> taken.persona is None,
        state.tool_registry is None ==> taken.tools@.len() == 0,
{
    let copied = chat_entry::entry_views(taken.history@);
    let held = chat_entry::entry_views(session.log.entries@);
    assert(copied.len() == taken.history@.len());
    assert(held.len() == session.log.entries@.len());
    assert forall|i: int| 0 <= i < taken.history@.len() implies #[trigger] taken.history@[i]@
        == session.log.entries@[i]@ by {
        assert(copied[i] == held[i]);
    }
    assert(inputs::tool_views(taken.tools@).len() == taken.tools@.len());
}

/// The snapshot of a session holds what that session holds, whichever session
/// is on screen.
pub proof fn lemma_taken_snapshot(state: &AppState, session_id: &SessionId, taken: AssemblyInputs)
    requires
        state.session.lookup(*session_id) is Some,
        call_ensures(build_assembly_inputs, (state, session_id), taken),
    ensures
        ({
            let session = state.session.lookup(*session_id).unwrap();
            &&& taken.session_id == *session_id
            &&& session.session_id == *session_id
            &&& taken.cwd == session.cwd
            &&& taken.provider_name == session.provider_name
            &&& taken.history@.len() == session.log.entries@.len()
            &&& forall|i: int|
                #![trigger taken.history@[i]]
                0 <= i < taken.history@.len() ==> taken.history@[i]@ == session.log.entries@[i]@
            &&& taken.skills@ == session.skills@
            &&& taken.context_files@ == session.context_files@
            &&& taken.disabled_tools@ == session.disabled_tools@
            &&& taken.disabled_skills@ == session.disabled_skills@
            &&& taken.loaded_skills@ == session.loaded_skills@
            &&& state.personas is None ==> taken.persona is None
            &&& state.tool_registry is None ==> taken.tools@.len() == 0
        }),
{
    app_state::lemma_lookup(state.session, *session_id);
    lemma_snapshot_holds_the_session(
        taken,
        *state,
        state.session.lookup(*session_id).unwrap(),
    );
}

/// The persona that is resolved has the name that was asked for, or else the
/// name `default`; it is missing only where no persona has either.
pub proof fn lemma_resolved_persona(
    personas: &Vec<Persona>,
    name: &str,
    persona: Option<Persona>,
    i: int,
)
    requires
        call_ensures(resolve_persona, (personas, name), persona),
        0 <= i < personas@.len(),
    ensures
        personas@[i].name@ == name@ ==> persona is Some && persona.unwrap().name@ == name@,
        personas@[i].name@ == "default"@ ==> persona is Some,
        persona is Some ==> personas@.contains(persona.unwrap()) && (persona.unwrap().name@
            == name@ || persona.unwrap().name@ == "default"@),
{
    lemma_persona_goes_by_name(personas@, name@);
}

} // verus!
