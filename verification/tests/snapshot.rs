use jinn_domain::app_state::{AppState, ChatSessionState};
use jinn_domain::chat_entry::{
    Attachment, ChangeSource, ChatEntry, ChatEntryKind, ContextOverride, PinPosition, SessionId,
    ToolResultStatus, UrlCitation,
};
use jinn_domain::context::inputs::{SessionTools, Skill, ToolRegistry};
use jinn_domain::context::protocol::{ContextFile, Persona};
use jinn_domain::context::snapshot::{build_assembly_inputs, resolve_persona};
use jinn_domain::context::tool_prompt::ToolDefinition;

fn tool(name: &str, description: &str) -> ToolDefinition {
    ToolDefinition {
        name: name.to_owned(),
        description: description.to_owned(),
        parameters: "{}".to_owned(),
        prompt_snippet: Some("snippet".to_owned()),
        prompt_guidelines: vec!["point".to_owned()],
        server_tool_type: None,
    }
}

fn persona(name: &str) -> Persona {
    Persona {
        name: name.to_owned(),
        body: format!("You are {name}."),
    }
}

#[test]
fn the_snapshot_holds_the_session() {
    let mut state = AppState::new(SessionId::new(), "/home/u".to_owned());
    let mut entry = ChatEntry::user("hello");
    entry.apply_context_override(ContextOverride::ForcedInclude, ChangeSource::User);
    if let ChatEntryKind::User { attachments, .. } = &mut entry.kind {
        attachments.push(Attachment::image("image/png", vec![1, 2]));
    }
    let entries = vec![
        entry,
        ChatEntry::assistant("hi").with_pin(PinPosition::Top),
        ChatEntry::tool_call("c", "bash", "{}"),
        ChatEntry::tool_result("c", "bash", "ok", ToolResultStatus::Success),
        ChatEntry::annotation(vec![UrlCitation {
            url: "https://example.com/a".to_owned(),
            title: "A".to_owned(),
            content: Some("text".to_owned()),
            start_index: Some(1),
            end_index: None,
        }]),
    ];
    for entry in &entries {
        state.session.active.log.push_entry(entry.copy());
    }
    state.session.active.set_cwd("/proj".to_owned());
    state.session.active.provider_name = "openrouter".to_owned();
    state.session.active.disabled_tools = vec!["write".to_owned()];
    state.session.active.disabled_skills = vec!["s2".to_owned()];
    state.session.active.loaded_skills = vec!["s1".to_owned()];
    state.session.active.skills = vec![Skill {
        name: "s1".to_owned(),
        description: "d".to_owned(),
        body: "b".to_owned(),
    }];
    state.session.active.context_files = vec![ContextFile {
        path: "/proj/AGENTS.md".to_owned(),
        content: "rules".to_owned(),
    }];
    let id = state.session.active.session_id;
    let inputs = build_assembly_inputs(&state, &id);
    assert_eq!(inputs.session_id, id);
    assert_eq!(inputs.cwd, "/proj");
    assert_eq!(inputs.history, entries);
    assert_eq!(inputs.provider_name, "openrouter");
    assert_eq!(inputs.disabled_tools, vec!["write".to_owned()]);
    assert_eq!(inputs.disabled_skills, vec!["s2".to_owned()]);
    assert_eq!(inputs.loaded_skills, vec!["s1".to_owned()]);
    assert_eq!(inputs.skills, state.session.active.skills);
    assert_eq!(inputs.context_files, state.session.active.context_files);
    // What is not loaded yet is left empty.
    assert_eq!(inputs.persona, None);
    assert!(inputs.tools.is_empty());
}

#[test]
fn a_background_session_is_found_by_its_id() {
    let mut state = AppState::new(SessionId::new(), "/home/u".to_owned());
    let mut other = ChatSessionState::new(SessionId::new());
    other.persona_name = "coder".to_owned();
    let id = other.session_id;
    state.session.others.push(other);
    state.personas = Some(vec![persona("default"), persona("coder")]);
    state.tool_registry = Some(ToolRegistry {
        global: vec![tool("bash", "global"), tool("read", "global")],
        sessions: vec![SessionTools {
            session_id: id,
            tools: vec![tool("read", "own"), tool("todo", "own")],
        }],
    });
    let inputs = build_assembly_inputs(&state, &id);
    assert_eq!(inputs.session_id, id);
    assert_eq!(inputs.persona, Some(persona("coder")));
    assert_eq!(
        inputs.tools,
        vec![
            tool("bash", "global"),
            tool("read", "own"),
            tool("todo", "own")
        ]
    );
    let active = state.session.active.session_id;
    let inputs = build_assembly_inputs(&state, &active);
    assert_eq!(inputs.persona, Some(persona("default")));
    assert_eq!(
        inputs.tools,
        vec![tool("bash", "global"), tool("read", "global")]
    );
}

#[test]
fn an_unknown_persona_falls_back_to_the_default_one() {
    let personas = vec![persona("coder"), persona("default")];
    assert_eq!(resolve_persona(&personas, "coder"), Some(persona("coder")));
    assert_eq!(resolve_persona(&personas, "gone"), Some(persona("default")));
    assert_eq!(resolve_persona(&vec![persona("coder")], "gone"), None);
}
