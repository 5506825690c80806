//! What the prompt of a turn is assembled from.

use crate::chat_entry::{ChatEntry, SessionId};
use crate::context::protocol::{ContextFile, Persona};
use crate::context::tool_prompt;
use crate::context::tool_prompt::ToolDefinition;
use crate::text::text_eq;
use vstd::prelude::*;

verus! {

/// A skill that the model can load.
#[derive(Debug, PartialEq, Eq)]
pub struct Skill {
    pub name: String,
    pub description: String,
    pub body: String,
}

impl Skill {
    /// An equal copy.
    pub fn copy(&self) -> (copy: Skill)
        ensures
            copy == *self,
    {
        Skill {
            name: self.name.clone(),
            description: self.description.clone(),
            body: self.body.clone(),
        }
    }
}

/// Everything that a prompt is assembled from, as the caller sees it.
#[derive(Debug, PartialEq, Eq)]
pub struct AssemblyInputs {
    pub session_id: SessionId,
    pub cwd: String,
    /// The persona, if there is one.
    pub persona: Option<Persona>,
    /// The whole history, pinned entries among it.
    pub history: Vec<ChatEntry>,
    /// The tools, disabled ones among them.
    pub tools: Vec<ToolDefinition>,
    pub disabled_tools: Vec<String>,
    pub provider_name: String,
    /// The skills, disabled ones among them.
    pub skills: Vec<Skill>,
    pub disabled_skills: Vec<String>,
    pub loaded_skills: Vec<String>,
    pub context_files: Vec<ContextFile>,
}

/// Asks for the prompt that is assembled from the inputs.
#[derive(Debug, PartialEq, Eq)]
pub struct AssembleContext {
    pub inputs: AssemblyInputs,
}

/// An assembled prompt.
#[derive(Debug, PartialEq, Eq)]
pub struct AssembledPrompt {
    pub session_id: SessionId,
    pub system_prompt: String,
    pub messages: Vec<ChatEntry>,
}

/// The reply with the assembled prompt.
#[derive(Debug, PartialEq, Eq)]
pub struct AssembledResponse {
    pub session_id: SessionId,
    pub prompt: AssembledPrompt,
}

/// The tools of one session.
#[derive(Debug, PartialEq, Eq)]
pub struct SessionTools {
    pub session_id: SessionId,
    pub tools: Vec<ToolDefinition>,
}

/// The registered tools.
#[derive(Debug, PartialEq, Eq)]
pub struct ToolRegistry {
    /// The tools of every session.
    pub global: Vec<ToolDefinition>,
    /// The tools that single sessions have instead or in addition.
    pub sessions: Vec<SessionTools>,
}

/// Whether one of the tools has this name.
pub open spec fn has_tool(tools: Seq<ToolDefinition>, name: Seq<char>) -> bool {
    exists|i: int| 0 <= i < tools.len() && (#[trigger] tools[i]).name@ == name
}

/// The values of a sequence of tools.
pub open spec fn tool_views(tools: Seq<ToolDefinition>) -> Seq<tool_prompt::ToolView> {
    tools.map_values(|t: ToolDefinition| t@)
}

/// The values of the tools that no tool of `own` stands in for.
pub open spec fn not_replaced(
    tools: Seq<ToolDefinition>,
    own: Seq<ToolDefinition>,
) -> Seq<tool_prompt::ToolView>
    decreases tools.len(),
{
    if tools.len() == 0 {
        Seq::empty()
    } else {
        let before = not_replaced(tools.drop_last(), own);
        if has_tool(own, tools.last().name@) {
            before
        } else {
            before.push(tools.last()@)
        }
    }
}

/// The index of the first set of tools at or after `from` for this session.
pub open spec fn tools_index(sessions: Seq<SessionTools>, from: int, id: SessionId) -> Option<int>
    decreases sessions.len() - from,
{
    if from < 0 || from >= sessions.len() {
        None
    } else if sessions[from].session_id == id {
        Some(from)
    } else {
        tools_index(sessions, from + 1, id)
    }
}

impl ToolRegistry {
    /// The session's own tools.
    pub open spec fn own_tools(self, id: SessionId) -> Seq<ToolDefinition> {
        match tools_index(self.sessions@, 0, id) {
            Some(i) => self.sessions@[i].tools@,
            None => Seq::empty(),
        }
    }

    /// The values of the session's tools: those of every session that it does
    /// not replace, and its own.
    pub open spec fn merged(self, id: SessionId) -> Seq<tool_prompt::ToolView> {
        not_replaced(self.global@, self.own_tools(id)) + tool_views(self.own_tools(id))
    }

    /// The session's tools.
    pub fn tools_for_session(&self, session_id: &SessionId) -> (tools: Vec<ToolDefinition>)
        ensures
            tool_views(tools@) == self.merged(*session_id),
    {
        let mut found: Option<usize> = None;
        let mut i: usize = 0;
        while i < self.sessions.len() && found.is_none()
            invariant
                i <= self.sessions@.len(),
                found is None ==> tools_index(self.sessions@, 0, *session_id) == tools_index(
                    self.sessions@,
                    i as int,
                    *session_id,
                ),
                found matches Some(f) ==> f < self.sessions@.len() && tools_index(
                    self.sessions@,
                    0,
                    *session_id,
                ) == Some(f as int),
            decreases
                    self.sessions@.len() - i + if found is None {
                        1int
                    } else {
                        0int
                    },
        {
            if self.sessions[i].session_id == *session_id {
                found = Some(i);
            } else {
                i += 1;
            }
        }
        let nothing: Vec<ToolDefinition> = Vec::new();
        let own: &Vec<ToolDefinition> = match found {
            Some(f) => &self.sessions[f].tools,
            None => &nothing,
        };
        assert(own@ =~= self.own_tools(*session_id));
        let mut tools: Vec<ToolDefinition> = Vec::new();
        assert(tool_views(tools@) =~= Seq::empty());
        let mut k: usize = 0;
        while k < self.global.len()
            invariant
                k <= self.global@.len(),
                tool_views(tools@) == not_replaced(self.global@.take(k as int), own@),
            decreases self.global@.len() - k,
        {
            let ghost before = tool_views(tools@);
            let tool = &self.global[k];
            assert(self.global@.take(k + 1).drop_last() =~= self.global@.take(k as int));
            if !contains_tool(own, tool.name.as_str()) {
                tools.push(tool.copy());
                assert(tool_views(tools@) =~= before.push(tool@));
            }
            k += 1;
        }
        assert(self.global@.take(k as int) =~= self.global@);
        let ghost global = tool_views(tools@);
        let mut m: usize = 0;
        assert(tool_views(own@).take(0) =~= Seq::empty());
        assert(tool_views(tools@) =~= global + tool_views(own@).take(0));
        while m < own.len()
            invariant
                m <= own@.len(),
                tool_views(tools@) == global + tool_views(own@).take(m as int),
            decreases own@.len() - m,
        {
            let ghost before = tool_views(tools@);
            let ghost all = tool_views(own@);
            tools.push(own[m].copy());
            assert(tool_views(tools@) =~= before.push(all[m as int]));
            assert(all.take(m + 1) =~= all.take(m as int).push(all[m as int]));
            assert(tool_views(tools@) =~= global + all.take(m + 1));
            m += 1;
        }
        assert(tool_views(own@).take(m as int) =~= tool_views(own@));
        tools
    }
}

/// Whether one of the tools has this name.
fn contains_tool(tools: &Vec<ToolDefinition>, name: &str) -> (found: bool)
    ensures
        found == has_tool(tools@, name@),
{
    let mut i: usize = 0;
    while i < tools.len()
        invariant
            forall|k: int| 0 <= k < i ==> (#[trigger] tools@[k]).name@ != name@,
        decreases tools@.len() - i,
    {
        if text_eq(tools[i].name.as_str(), name) {
            assert(tools@[i as int].name@ == name@);
            return true;
        }
        i += 1;
    }
    false
}

proof fn lemma_tools_index(sessions: Seq<SessionTools>, from: int, id: SessionId)
    requires
        0 <= from,
    ensures
        tools_index(sessions, from, id) matches Some(i) ==> from <= i < sessions.len()
            && sessions[i].session_id == id && forall|j: int|
            from <= j < i ==> (#[trigger] sessions[j]).session_id != id,
        tools_index(sessions, from, id) is None ==> forall|j: int|
            from <= j < sessions.len() ==> (#[trigger] sessions[j]).session_id != id,
    decreases sessions.len() - from,
{
    if from < sessions.len() && sessions[from].session_id != id {
        lemma_tools_index(sessions, from + 1, id);
    }
}

proof fn lemma_not_replaced_is_filtered(tools: Seq<ToolDefinition>, own: Seq<ToolDefinition>)
    ensures
        not_replaced(tools, own) == tools.filter(
            |t: ToolDefinition|
                forall|i: int| 0 <= i < own.len() ==> (#[trigger] own[i]).name@ != t.name@,
        ).map_values(|t: ToolDefinition| t@),
    decreases tools.len(),
{
    reveal(Seq::filter);
    let kept = |t: ToolDefinition|
        forall|i: int| 0 <= i < own.len() ==> (#[trigger] own[i]).name@ != t.name@;
    let view = |t: ToolDefinition| t@;
    if tools.len() > 0 {
        let init = tools.drop_last();
        let tool = tools.last();
        lemma_not_replaced_is_filtered(init, own);
        assert(has_tool(own, tool.name@) <==> !kept(tool));
        if kept(tool) {
            assert(tools.filter(kept) =~= init.filter(kept).push(tool));
            assert(tools.filter(kept).map_values(view) =~= init.filter(kept).map_values(view).push(
                tool@,
            ));
        }
    }
}

/// A session has the tools of every session, in their order, but for those
/// whose name one of its own tools has, and behind them its own. A session
/// without tools of its own has those of every session.
pub proof fn lemma_own_tools_replace_common_ones(registry: ToolRegistry, id: SessionId)
    ensures
        (forall|j: int|
            0 <= j < registry.sessions@.len() ==> (#[trigger] registry.sessions@[j]).session_id
                != id) ==> registry.merged(id) == registry.global@.map_values(
            |t: ToolDefinition| t@,
        ),
        forall|j: int|
            #![trigger registry.sessions@[j]]
            0 <= j < registry.sessions@.len() && registry.sessions@[j].session_id == id && (forall|
                k: int,
            |
                0 <= k < j ==> (#[trigger] registry.sessions@[k]).session_id != id) ==> {
                let own = registry.sessions@[j].tools@;
                registry.merged(id) == registry.global@.filter(
                    |t: ToolDefinition|
                        forall|i: int| 0 <= i < own.len() ==> (#[trigger] own[i]).name@ != t.name@,
                ).map_values(|t: ToolDefinition| t@) + own.map_values(|t: ToolDefinition| t@)
            },
{
    lemma_tools_index(registry.sessions@, 0, id);
    let own = registry.own_tools(id);
    lemma_not_replaced_is_filtered(registry.global@, own);
    if tools_index(registry.sessions@, 0, id) is None {
        let kept = |t: ToolDefinition|
            forall|i: int| 0 <= i < own.len() ==> (#[trigger] own[i]).name@ != t.name@;
        lemma_all_kept(registry.global@, kept);
        assert(registry.merged(id) =~= registry.global@.map_values(|t: ToolDefinition| t@));
    }
}

proof fn lemma_all_kept(tools: Seq<ToolDefinition>, kept: spec_fn(ToolDefinition) -> bool)
    requires
        forall|t: ToolDefinition| #[trigger] kept(t),
    ensures
        tools.filter(kept) == tools,
    decreases tools.len(),
{
    reveal(Seq::filter);
    if tools.len() > 0 {
        lemma_all_kept(tools.drop_last(), kept);
        assert(kept(tools.last()));
        assert(tools.filter(kept) =~= tools);
    } else {
        assert(tools.filter(kept) =~= tools);
    }
}

/// The tools of a session are those of every session but for those that its
/// own replace, and behind them its own.
pub proof fn lemma_session_tools(
    registry: &ToolRegistry,
    id: &SessionId,
    tools: Vec<ToolDefinition>,
    j: int,
)
    requires
        call_ensures(ToolRegistry::tools_for_session, (registry, id), tools),
        0 <= j < registry.sessions@.len(),
        registry.sessions@[j].session_id == *id,
        forall|k: int| 0 <= k < j ==> (#[trigger] registry.sessions@[k]).session_id != *id,
    ensures
        ({
            let own = registry.sessions@[j].tools@;
            tools@.map_values(|t: ToolDefinition| t@) == registry.global@.filter(
                |t: ToolDefinition|
                    forall|i: int| 0 <= i < own.len() ==> (#[trigger] own[i]).name@ != t.name@,
            ).map_values(|t: ToolDefinition| t@) + own.map_values(|t: ToolDefinition| t@)
        }),
{
    lemma_own_tools_replace_common_ones(*registry, *id);
    assert(tools@.map_values(|t: ToolDefinition| t@) =~= tool_views(tools@));
}

} // verus!
