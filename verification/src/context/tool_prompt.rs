//! The part of the system prompt that tells the model about its tools.

use crate::text;
use crate::text::{copy_option, copy_strings, text_eq, text_le};
use vstd::prelude::*;

verus! {

/// A tool that the model can call.
#[derive(Debug, PartialEq, Eq)]
pub struct ToolDefinition {
    pub name: String,
    pub description: String,
    /// The JSON text of the parameters' schema.
    pub parameters: String,
    /// One line on what the tool is for.
    pub prompt_snippet: Option<String>,
    /// How to use the tool, one point each.
    pub prompt_guidelines: Vec<String>,
    /// The provider's own type of the tool, for a tool that it runs itself.
    pub server_tool_type: Option<String>,
}

/// The value of a [`ToolDefinition`].
pub ghost struct ToolView {
    pub name: String,
    pub description: String,
    pub parameters: String,
    pub prompt_snippet: Option<String>,
    pub prompt_guidelines: Seq<String>,
    pub server_tool_type: Option<String>,
}

impl View for ToolDefinition {
    type V = ToolView;

    open spec fn view(&self) -> ToolView {
        ToolView {
            name: self.name,
            description: self.description,
            parameters: self.parameters,
            prompt_snippet: self.prompt_snippet,
            prompt_guidelines: self.prompt_guidelines@,
            server_tool_type: self.server_tool_type,
        }
    }
}

impl ToolDefinition {
    /// An equal copy.
    pub fn copy(&self) -> (copy: ToolDefinition)
        ensures
            copy@ == self@,
    {
        ToolDefinition {
            name: self.name.clone(),
            description: self.description.clone(),
            parameters: self.parameters.clone(),
            prompt_snippet: copy_option(&self.prompt_snippet),
            prompt_guidelines: copy_strings(&self.prompt_guidelines),
            server_tool_type: copy_option(&self.server_tool_type),
        }
    }
}

/// A tool under its key.
#[derive(Debug, PartialEq, Eq)]
pub struct ToolEntry {
    pub key: String,
    pub tool: ToolDefinition,
}

/// A tool under the text of its key.
pub type KeyedTool = (Seq<char>, ToolDefinition);

/// The tools under the texts of their keys.
pub open spec fn keyed(entries: Seq<ToolEntry>) -> Seq<KeyedTool> {
    entries.map_values(|e: ToolEntry| (e.key@, e.tool))
}

/// Whether the keys ascend, with none twice.
pub open spec fn ascending(tools: Seq<KeyedTool>) -> bool {
    forall|i: int, j: int|
        0 <= i < j < tools.len() ==> text::le((#[trigger] tools[i]).0, (#[trigger] tools[j]).0)
            && tools[i].0 != tools[j].0
}

/// The tool of each key.
pub open spec fn by_key(tools: Seq<KeyedTool>) -> Map<Seq<char>, ToolDefinition>
    decreases tools.len(),
{
    if tools.len() == 0 {
        Map::empty()
    } else {
        by_key(tools.drop_last()).insert(tools.last().0, tools.last().1)
    }
}

/// The tools of a session by key, in the order of the keys.
pub struct ToolCatalog {
    entries: Vec<ToolEntry>,
}

impl View for ToolCatalog {
    type V = Seq<KeyedTool>;

    closed spec fn view(&self) -> Seq<KeyedTool> {
        keyed(self.entries@)
    }
}

proof fn lemma_by_key(tools: Seq<KeyedTool>, i: int)
    requires
        ascending(tools),
        0 <= i < tools.len(),
    ensures
        by_key(tools).contains_key(tools[i].0),
        by_key(tools)[tools[i].0] == tools[i].1,
    decreases tools.len(),
{
    let init = tools.drop_last();
    if i < init.len() {
        assert(ascending(init)) by {
            assert forall|a: int, b: int| 0 <= a < b < init.len() implies text::le(
                (#[trigger] init[a]).0,
                (#[trigger] init[b]).0,
            ) && init[a].0 != init[b].0 by {
                assert(init[a] == tools[a] && init[b] == tools[b]);
            }
        }
        lemma_by_key(init, i);
        assert(init[i] == tools[i]);
        assert(tools[i].0 != tools[tools.len() - 1].0);
    }
}

proof fn lemma_has_key(tools: Seq<KeyedTool>, key: Seq<char>) -> (i: int)
    requires
        by_key(tools).contains_key(key),
    ensures
        0 <= i < tools.len(),
        tools[i].0 == key,
    decreases tools.len(),
{
    if tools.last().0 == key {
        tools.len() - 1
    } else {
        lemma_has_key(tools.drop_last(), key)
    }
}

/// Two catalogs that give every key the same tool list the tools in the same
/// order, whatever order they were filled in.
pub proof fn lemma_catalog_order(a: Seq<KeyedTool>, b: Seq<KeyedTool>)
    requires
        ascending(a),
        ascending(b),
        by_key(a) == by_key(b),
    ensures
        a == b,
{
    lemma_shared_prefix(a, b, a.len() as int);
    lemma_shared_prefix(b, a, b.len() as int);
    assert(a =~= b);
}

proof fn lemma_shared_prefix(a: Seq<KeyedTool>, b: Seq<KeyedTool>, n: int)
    requires
        ascending(a),
        ascending(b),
        by_key(a) == by_key(b),
        0 <= n <= a.len(),
    ensures
        n <= b.len(),
        forall|i: int| 0 <= i < n ==> #[trigger] a[i] == b[i],
    decreases n,
{
    if n > 0 {
        lemma_shared_prefix(a, b, n - 1);
        let i = n - 1;
        lemma_by_key(a, i);
        let j = lemma_has_key(b, a[i].0);
        lemma_by_key(b, j);
        if j < i {
            assert(a[j] == b[j]);
            assert(a[j].0 != a[i].0);
        } else if j > i {
            lemma_by_key(b, i);
            let k = lemma_has_key(a, b[i].0);
            if k < i {
                assert(a[k] == b[k]);
                assert(b[k].0 != b[i].0);
            } else {
                assert(text::le(b[i].0, b[j].0) && b[i].0 != b[j].0);
                if k > i {
                    assert(text::le(a[i].0, a[k].0));
                }
                text::lemma_le_antisymmetric(a[i].0, b[i].0);
            }
        }
        assert(a[i] == b[i]);
    }
}

impl ToolCatalog {
    #[verifier::type_invariant]
    spec fn in_order(self) -> bool {
        ascending(keyed(self.entries@))
    }

    /// An empty catalog.
    pub fn new() -> (catalog: ToolCatalog)
        ensures
            catalog@.len() == 0,
            ascending(catalog@),
    {
        ToolCatalog { entries: Vec::new() }
    }

    /// Puts a tool under a key; it replaces the one that was there.
    pub fn insert(&mut self, key: String, tool: ToolDefinition)
        ensures
            ascending(final(self)@),
            by_key(final(self)@) == by_key(old(self)@).insert(key@, tool),
    {
        proof {
            use_type_invariant(&*self);
        }
        let ghost before = keyed(self.entries@);
        let mut at: usize = 0;
        while at < self.entries.len() && !text_le(key.as_str(), self.entries[at].key.as_str())
            invariant
                at <= self.entries@.len(),
                before == keyed(self.entries@),
                forall|i: int| 0 <= i < at ==> !text::le(key@, (#[trigger] before[i]).0),
            decreases self.entries@.len() - at,
        {
            assert(before[at as int].0 == self.entries@[at as int].key@);
            at += 1;
        }
        let mut entries: Vec<ToolEntry> = Vec::new();
        std::mem::swap(&mut entries, &mut self.entries);
        let replaces = at < entries.len() && text_eq(entries[at].key.as_str(), key.as_str());
        proof {
            assert(keyed(entries@) == before);
            if at < before.len() {
                assert(before[at as int].0 == entries@[at as int].key@);
            }
            lemma_insert(before, at as int, key@, tool, replaces);
        }
        if replaces {
            entries.set(at, ToolEntry { key, tool });
            assert(keyed(entries@) =~= before.update(at as int, (key@, tool)));
        } else {
            entries.insert(at, ToolEntry { key, tool });
            assert(keyed(entries@) =~= before.insert(at as int, (key@, tool)));
        }
        self.entries = entries;
    }

    /// The number of tools.
    pub fn len(&self) -> (n: usize)
        ensures
            n == self@.len(),
    {
        assert(keyed(self.entries@).len() == self.entries@.len());
        self.entries.len()
    }
}

proof fn lemma_insert(
    tools: Seq<KeyedTool>,
    at: int,
    key: Seq<char>,
    tool: ToolDefinition,
    replaces: bool,
)
    requires
        ascending(tools),
        0 <= at <= tools.len(),
        forall|i: int| 0 <= i < at ==> !text::le(key, (#[trigger] tools[i]).0),
        at < tools.len() ==> text::le(key, tools[at].0),
        replaces == (at < tools.len() && tools[at].0 == key),
    ensures
        ({
            let after = if replaces {
                tools.update(at, (key, tool))
            } else {
                tools.insert(at, (key, tool))
            };
            ascending(after) && by_key(after) == by_key(tools).insert(key, tool)
        }),
{
    let after = if replaces {
        tools.update(at, (key, tool))
    } else {
        tools.insert(at, (key, tool))
    };
    let shift: int = if replaces {
        0
    } else {
        1
    };
    assert forall|i: int| 0 <= i < at implies text::le((#[trigger] tools[i]).0, key) && tools[i].0
        != key by {
        text::lemma_le_total(tools[i].0, key);
        text::lemma_le_total(key, key);
    }
    assert forall|i: int| at <= i < tools.len() && !(replaces && i == at) implies text::le(
        key,
        (#[trigger] tools[i]).0,
    ) && tools[i].0 != key by {
        if i > at {
            assert(text::le(tools[at].0, tools[i].0));
            text::lemma_le_transitive(key, tools[at].0, tools[i].0);
            if tools[i].0 == key {
                text::lemma_le_antisymmetric(key, tools[at].0);
                assert(tools[at].0 != tools[i].0);
            }
        }
    }
    assert forall|i: int, j: int| 0 <= i < j < after.len() implies text::le(
        (#[trigger] after[i]).0,
        (#[trigger] after[j]).0,
    ) && after[i].0 != after[j].0 by {
        if j < at {
            assert(after[i] == tools[i] && after[j] == tools[j]);
        } else if j == at {
            assert(after[i] == tools[i]);
        } else {
            assert(after[j] == tools[j - shift]);
            if i < at {
                assert(after[i] == tools[i]);
                assert(text::le(tools[i].0, tools[j - shift].0));
            } else if i > at {
                assert(after[i] == tools[i - shift]);
            }
        }
    }
    let expected = by_key(tools).insert(key, tool);
    assert forall|k: Seq<char>| #[trigger]
        by_key(after).contains_key(k) == expected.contains_key(k) && (expected.contains_key(k)
            ==> by_key(after)[k] == expected[k]) by {
        lemma_by_key(after, at);
        if expected.contains_key(k) && k != key {
            let i = lemma_has_key(tools, k);
            lemma_by_key(tools, i);
            let m = if i < at {
                i
            } else {
                i + shift
            };
            assert(after[m] == tools[i]);
            lemma_by_key(after, m);
        }
        if by_key(after).contains_key(k) && k != key {
            let m = lemma_has_key(after, k);
            let i = if m < at {
                m
            } else {
                m - shift
            };
            assert(after[m] == tools[i]);
            lemma_by_key(tools, i);
        }
    }
    assert(by_key(after) =~= expected);
}

/// A tool's name and its snippet.
pub type Snippet = (Seq<char>, Seq<char>);

/// Whether a snippet comes before another or is equal to it: by name, then by
/// text.
pub open spec fn snippet_le(a: Snippet, b: Snippet) -> bool {
    if a.0 == b.0 {
        text::le(a.1, b.1)
    } else {
        text::le(a.0, b.0)
    }
}

/// The ordered snippets with one more put behind those that are not greater.
pub open spec fn with_snippet(snippets: Seq<Snippet>, snippet: Snippet) -> Seq<Snippet>
    decreases snippets.len(),
{
    if snippets.len() == 0 || snippet_le(snippets.last(), snippet) {
        snippets.push(snippet)
    } else {
        with_snippet(snippets.drop_last(), snippet).push(snippets.last())
    }
}

/// The snippets of the tools that have one, in order.
pub open spec fn snippets_of(tools: Seq<KeyedTool>) -> Seq<Snippet>
    decreases tools.len(),
{
    if tools.len() == 0 {
        Seq::empty()
    } else {
        let before = snippets_of(tools.drop_last());
        let tool = tools.last().1;
        match tool.prompt_snippet {
            Some(snippet) => with_snippet(before, (tool.name@, snippet@)),
            None => before,
        }
    }
}

/// The guidelines of the tools, tool by tool.
pub open spec fn guidelines_of(tools: Seq<KeyedTool>) -> Seq<Seq<char>>
    decreases tools.len(),
{
    if tools.len() == 0 {
        Seq::empty()
    } else {
        guidelines_of(tools.drop_last()) + text::texts(tools.last().1.prompt_guidelines@)
    }
}

/// Whether the snippets are in order.
pub open spec fn snippets_in_order(snippets: Seq<Snippet>) -> bool {
    forall|i: int, j: int|
        0 <= i < j < snippets.len() ==> snippet_le(#[trigger] snippets[i], #[trigger] snippets[j])
}

proof fn lemma_snippet_le(a: Snippet, b: Snippet, c: Snippet)
    ensures
        snippet_le(a, b) || snippet_le(b, a),
        snippet_le(a, b) && snippet_le(b, c) ==> snippet_le(a, c),
{
    text::lemma_le_total(a.0, b.0);
    text::lemma_le_total(a.1, b.1);
    if snippet_le(a, b) && snippet_le(b, c) {
        if a.0 == b.0 && b.0 == c.0 {
            text::lemma_le_transitive(a.1, b.1, c.1);
        } else if a.0 != b.0 && b.0 != c.0 {
            text::lemma_le_transitive(a.0, b.0, c.0);
            if a.0 == c.0 {
                text::lemma_le_antisymmetric(a.0, b.0);
            }
        }
    }
}

proof fn lemma_with_snippet(snippets: Seq<Snippet>, snippet: Snippet)
    requires
        snippets_in_order(snippets),
    ensures
        snippets_in_order(with_snippet(snippets, snippet)),
        forall|bound: Snippet|
            snippet_le(snippet, bound) && (forall|k: int|
                0 <= k < snippets.len() ==> snippet_le(#[trigger] snippets[k], bound)) ==> (forall|
                k: int,
            |
                0 <= k < with_snippet(snippets, snippet).len() ==> #[trigger] snippet_le(
                    with_snippet(snippets, snippet)[k],
                    bound,
                )),
    decreases snippets.len(),
{
    let after = with_snippet(snippets, snippet);
    if snippets.len() > 0 {
        let init = snippets.drop_last();
        let last = snippets.last();
        assert(last == snippets[snippets.len() - 1]);
        if snippet_le(last, snippet) {
            assert forall|i: int, j: int| 0 <= i < j < after.len() implies snippet_le(
                #[trigger] after[i],
                #[trigger] after[j],
            ) by {
                if j == snippets.len() && i < snippets.len() - 1 {
                    assert(snippet_le(snippets[i], last));
                    lemma_snippet_le(snippets[i], last, snippet);
                }
            }
        } else {
            lemma_snippet_le(last, snippet, last);
            assert forall|i: int, j: int| 0 <= i < j < init.len() implies snippet_le(
                #[trigger] init[i],
                #[trigger] init[j],
            ) by {
                assert(init[i] == snippets[i] && init[j] == snippets[j]);
            }
            lemma_with_snippet(init, snippet);
            let part = with_snippet(init, snippet);
            assert forall|k: int| 0 <= k < init.len() implies snippet_le(
                #[trigger] init[k],
                last,
            ) by {
                assert(init[k] == snippets[k]);
            }
            assert forall|i: int, j: int| 0 <= i < j < after.len() implies snippet_le(
                #[trigger] after[i],
                #[trigger] after[j],
            ) by {
                if j == part.len() {
                    assert(snippet_le(part[i], last));
                }
            }
            assert forall|bound: Snippet|
                snippet_le(snippet, bound) && (forall|k: int|
                    0 <= k < snippets.len() ==> snippet_le(
                        #[trigger] snippets[k],
                        bound,
                    )) implies (forall|k: int|
                0 <= k < after.len() ==> #[trigger] snippet_le(after[k], bound)) by {
                assert forall|k: int| 0 <= k < init.len() implies snippet_le(
                    #[trigger] init[k],
                    bound,
                ) by {
                    assert(init[k] == snippets[k]);
                }
                assert forall|k: int| 0 <= k < after.len() implies #[trigger] snippet_le(
                    after[k],
                    bound,
                ) by {
                    if k < part.len() {
                        assert(snippet_le(part[k], bound));
                    }
                }
            }
        }
    }
}

/// The snippets are listed by name.
pub proof fn lemma_snippets_in_order(tools: Seq<KeyedTool>)
    ensures
        snippets_in_order(snippets_of(tools)),
    decreases tools.len(),
{
    if tools.len() > 0 {
        lemma_snippets_in_order(tools.drop_last());
        let tool = tools.last().1;
        if let Some(snippet) = tool.prompt_snippet {
            lemma_with_snippet(snippets_of(tools.drop_last()), (tool.name@, snippet@));
        }
    }
}

/// One line for each snippet.
pub open spec fn snippet_lines(snippets: Seq<Snippet>) -> Seq<char>
    decreases snippets.len(),
{
    if snippets.len() == 0 {
        Seq::empty()
    } else {
        snippet_lines(snippets.drop_last()) + "- "@ + snippets.last().0 + ": "@ + snippets.last().1
            + "\n"@
    }
}

/// One line for each guideline.
pub open spec fn guideline_lines(guidelines: Seq<Seq<char>>) -> Seq<char>
    decreases guidelines.len(),
{
    if guidelines.len() == 0 {
        Seq::empty()
    } else {
        guideline_lines(guidelines.drop_last()) + "- "@ + guidelines.last() + "\n"@
    }
}

/// The block that tells of the tools: the snippets, the guidelines, and an
/// empty line between the two. `None` if there is nothing to tell.
pub open spec fn tool_block(tools: Seq<KeyedTool>) -> Option<Seq<char>> {
    let snippets = snippets_of(tools);
    let guidelines = guidelines_of(tools);
    let told = "Available tools:\n"@ + snippet_lines(snippets);
    let advised = "Tool guidelines:\n"@ + guideline_lines(guidelines);
    if snippets.len() == 0 && guidelines.len() == 0 {
        None
    } else if guidelines.len() == 0 {
        Some(told)
    } else if snippets.len() == 0 {
        Some(advised)
    } else {
        Some(told + "\n"@ + advised)
    }
}

/// The block depends on the tool of each key alone: the order in which a
/// catalog was filled does not show.
pub proof fn lemma_block_ignores_order(a: Seq<KeyedTool>, b: Seq<KeyedTool>)
    requires
        ascending(a),
        ascending(b),
        by_key(a) == by_key(b),
    ensures
        tool_block(a) == tool_block(b),
{
    lemma_catalog_order(a, b);
}

/// A snippet as it is collected.
struct SnippetText {
    name: String,
    snippet: String,
}

/// The values of the collected snippets.
spec fn snippet_views(snippets: Seq<SnippetText>) -> Seq<Snippet> {
    snippets.map_values(|s: SnippetText| (s.name@, s.snippet@))
}

proof fn lemma_snippet_position(snippets: Seq<Snippet>, snippet: Snippet, at: int)
    requires
        0 <= at <= snippets.len(),
        at > 0 ==> snippet_le(snippets[at - 1], snippet),
        forall|j: int| at <= j < snippets.len() ==> !snippet_le(#[trigger] snippets[j], snippet),
    ensures
        with_snippet(snippets, snippet) == snippets.insert(at, snippet),
    decreases snippets.len(),
{
    if at == snippets.len() {
        assert(snippets.insert(at, snippet) =~= snippets.push(snippet));
    } else {
        let init = snippets.drop_last();
        let last = snippets.last();
        assert(last == snippets[snippets.len() - 1]);
        assert forall|j: int| at <= j < init.len() implies !snippet_le(
            #[trigger] init[j],
            snippet,
        ) by {
            assert(init[j] == snippets[j]);
        }
        lemma_snippet_position(init, snippet, at);
        assert(snippets.insert(at, snippet) =~= init.insert(at, snippet).push(last));
    }
}

/// Whether a snippet comes before another or is equal to it.
fn is_snippet_le(a: &SnippetText, name: &str, snippet: &str) -> (yes: bool)
    ensures
        yes == snippet_le((a.name@, a.snippet@), (name@, snippet@)),
{
    if text_eq(a.name.as_str(), name) {
        text_le(a.snippet.as_str(), snippet)
    } else {
        text_le(a.name.as_str(), name)
    }
}

/// Puts a snippet behind those that are not greater.
fn insert_snippet(snippets: &mut Vec<SnippetText>, name: &str, snippet: &str)
    ensures
        snippet_views(final(snippets)@) == with_snippet(
            snippet_views(old(snippets)@),
            (name@, snippet@),
        ),
{
    let ghost before = snippet_views(snippets@);
    let mut at: usize = snippets.len();
    while at > 0 && !is_snippet_le(&snippets[at - 1], name, snippet)
        invariant
            at <= snippets@.len(),
            before == snippet_views(snippets@),
            forall|j: int|
                at <= j < before.len() ==> !snippet_le(#[trigger] before[j], (name@, snippet@)),
        decreases at,
    {
        assert(before[at - 1] == (snippets@[at - 1].name@, snippets@[at - 1].snippet@));
        at -= 1;
    }
    proof {
        if at > 0 {
            assert(before[at - 1] == (snippets@[at - 1].name@, snippets@[at - 1].snippet@));
        }
        lemma_snippet_position(before, (name@, snippet@), at as int);
    }
    snippets.insert(at, SnippetText { name: name.to_owned(), snippet: snippet.to_owned() });
    assert(snippet_views(snippets@) =~= before.insert(at as int, (name@, snippet@)));
}

/// Builds the block that tells of the tools. `None` if no tool has a snippet
/// or a guideline.
pub fn build_tool_context_block(tools: &ToolCatalog) -> (block: Option<String>)
    ensures
        match block {
            Some(b) => tool_block(tools@) == Some(b@),
            None => tool_block(tools@) is None,
        },
{
    let ghost all = keyed(tools.entries@);
    let mut snippets: Vec<SnippetText> = Vec::new();
    let mut guidelines: Vec<String> = Vec::new();
    assert(snippet_views(snippets@) =~= Seq::empty());
    assert(text::texts(guidelines@) =~= Seq::empty());
    let mut i: usize = 0;
    while i < tools.entries.len()
        invariant
            i <= tools.entries@.len(),
            all == keyed(tools.entries@),
            snippet_views(snippets@) == snippets_of(all.take(i as int)),
            text::texts(guidelines@) == guidelines_of(all.take(i as int)),
        decreases tools.entries@.len() - i,
    {
        let tool = &tools.entries[i].tool;
        proof {
            assert(all.take(i + 1).drop_last() =~= all.take(i as int));
            assert(all.take(i + 1).last() == all[i as int]);
            assert(all[i as int].1 == *tool);
        }
        if let Some(snippet) = &tool.prompt_snippet {
            insert_snippet(&mut snippets, tool.name.as_str(), snippet.as_str());
        }
        let ghost before = text::texts(guidelines@);
        let mut k: usize = 0;
        assert(text::texts(guidelines@) =~= before + text::texts(tool.prompt_guidelines@).take(0));
        while k < tool.prompt_guidelines.len()
            invariant
                k <= tool.prompt_guidelines@.len(),
                text::texts(guidelines@) == before + text::texts(tool.prompt_guidelines@).take(
                    k as int,
                ),
            decreases tool.prompt_guidelines@.len() - k,
        {
            let ghost collected = text::texts(guidelines@);
            let ghost told = text::texts(tool.prompt_guidelines@);
            guidelines.push(tool.prompt_guidelines[k].clone());
            assert(text::texts(guidelines@) =~= collected.push(told[k as int]));
            assert(told.take(k + 1) =~= told.take(k as int).push(told[k as int]));
            assert(text::texts(guidelines@) =~= before + told.take(k + 1));
            k += 1;
        }
        assert(text::texts(tool.prompt_guidelines@).take(k as int) =~= text::texts(
            tool.prompt_guidelines@,
        ));
        i += 1;
    }
    assert(all.take(i as int) =~= all);
    assert(snippet_views(snippets@).len() == snippets@.len());
    assert(text::texts(guidelines@).len() == guidelines@.len());
    if snippets.len() == 0 && guidelines.len() == 0 {
        return None;
    }
    let told = tell_snippets(&snippets);
    let advised = tell_guidelines(&guidelines);
    if guidelines.len() == 0 {
        return Some(told);
    }
    if snippets.len() == 0 {
        return Some(advised);
    }
    let mut block = told;
    block.append("\n");
    block.append(advised.as_str());
    Some(block)
}

/// The heading of the snippets and one line for each.
fn tell_snippets(snippets: &Vec<SnippetText>) -> (section: String)
    ensures
        section@ == "Available tools:\n"@ + snippet_lines(snippet_views(snippets@)),
{
    let ghost all = snippet_views(snippets@);
    let ghost head = "Available tools:\n"@;
    let mut section = "Available tools:\n".to_owned();
    assert(all.take(0) =~= Seq::empty());
    assert(section@ =~= head + snippet_lines(all.take(0)));
    let mut i: usize = 0;
    while i < snippets.len()
        invariant
            i <= snippets@.len(),
            all == snippet_views(snippets@),
            section@ == head + snippet_lines(all.take(i as int)),
        decreases snippets@.len() - i,
    {
        let ghost before = section@;
        proof {
            assert(all.take(i + 1).drop_last() =~= all.take(i as int));
            assert(all.take(i + 1).last() == (snippets@[i as int].name@, snippets@[i as int].snippet@));
        }
        section.append("- ");
        section.append(snippets[i].name.as_str());
        section.append(": ");
        section.append(snippets[i].snippet.as_str());
        section.append("\n");
        assert(section@ =~= head + snippet_lines(all.take(i + 1)));
        i += 1;
    }
    assert(all.take(i as int) =~= all);
    section
}

/// The heading of the guidelines and one line for each.
fn tell_guidelines(guidelines: &Vec<String>) -> (section: String)
    ensures
        section@ == "Tool guidelines:\n"@ + guideline_lines(text::texts(guidelines@)),
{
    let ghost all = text::texts(guidelines@);
    let ghost head = "Tool guidelines:\n"@;
    let mut section = "Tool guidelines:\n".to_owned();
    assert(all.take(0) =~= Seq::empty());
    assert(section@ =~= head + guideline_lines(all.take(0)));
    let mut i: usize = 0;
    while i < guidelines.len()
        invariant
            i <= guidelines@.len(),
            all == text::texts(guidelines@),
            section@ == head + guideline_lines(all.take(i as int)),
        decreases guidelines@.len() - i,
    {
        proof {
            assert(all.take(i + 1).drop_last() =~= all.take(i as int));
            assert(all.take(i + 1).last() == guidelines@[i as int]@);
        }
        section.append("- ");
        section.append(guidelines[i].as_str());
        section.append("\n");
        assert(section@ =~= head + guideline_lines(all.take(i + 1)));
        i += 1;
    }
    assert(all.take(i as int) =~= all);
    section
}

/// In a catalog each tool is found under its key, and nothing else is.
pub proof fn lemma_catalog_holds_its_tools(tools: Seq<KeyedTool>, key: Seq<char>)
    requires
        ascending(tools),
    ensures
        forall|i: int|
            0 <= i < tools.len() ==> by_key(tools).contains_key((#[trigger] tools[i]).0) && by_key(
                tools,
            )[tools[i].0] == tools[i].1,
        by_key(tools).contains_key(key) ==> exists|i: int|
            0 <= i < tools.len() && (#[trigger] tools[i]).0 == key,
{
    assert forall|i: int| 0 <= i < tools.len() implies by_key(tools).contains_key(
        (#[trigger] tools[i]).0,
    ) && by_key(tools)[tools[i].0] == tools[i].1 by {
        lemma_by_key(tools, i);
    }
    if by_key(tools).contains_key(key) {
        let i = lemma_has_key(tools, key);
        assert(tools[i].0 == key);
    }
}

proof fn lemma_with_snippet_adds_one(snippets: Seq<Snippet>, snippet: Snippet)
    ensures
        with_snippet(snippets, snippet).to_multiset() == snippets.to_multiset().insert(snippet),
    decreases snippets.len(),
{
    broadcast use vstd::seq_lib::group_to_multiset_ensures;

    if snippets.len() > 0 && !snippet_le(snippets.last(), snippet) {
        let init = snippets.drop_last();
        lemma_with_snippet_adds_one(init, snippet);
        assert(init.push(snippets.last()) =~= snippets);
        assert(with_snippet(snippets, snippet).to_multiset() =~= snippets.to_multiset().insert(
            snippet,
        ));
    }
}

/// The snippets that are listed are those of the tools that have one: each
/// under the name of its tool, none left out and none twice, by ascending
/// name.
pub proof fn lemma_snippets_are_those_of_the_tools(tools: Seq<KeyedTool>)
    ensures
        snippets_of(tools).to_multiset() == tools.filter(
            |t: KeyedTool| t.1.prompt_snippet is Some,
        ).map_values(
            |t: KeyedTool| (t.1.name@, t.1.prompt_snippet.unwrap()@),
        ).to_multiset(),
        forall|i: int, j: int|
            0 <= i < j < snippets_of(tools).len() ==> text::le(
                (#[trigger] snippets_of(tools)[i]).0,
                (#[trigger] snippets_of(tools)[j]).0,
            ),
    decreases tools.len(),
{
    broadcast use vstd::seq_lib::group_to_multiset_ensures;

    reveal(Seq::filter);
    let told = |t: KeyedTool| t.1.prompt_snippet is Some;
    let line = |t: KeyedTool| (t.1.name@, t.1.prompt_snippet.unwrap()@);
    if tools.len() > 0 {
        let init = tools.drop_last();
        let tool = tools.last();
        lemma_snippets_are_those_of_the_tools(init);
        if let Some(snippet) = tool.1.prompt_snippet {
            lemma_with_snippet_adds_one(snippets_of(init), (tool.1.name@, snippet@));
            assert(tools.filter(told) =~= init.filter(told).push(tool));
            assert(tools.filter(told).map_values(line) =~= init.filter(told).map_values(line).push(
                line(tool),
            ));
        } else {
            assert(tools.filter(told) =~= init.filter(told));
        }
    }
    lemma_snippets_in_order(tools);
    let all = snippets_of(tools);
    assert forall|i: int, j: int| 0 <= i < j < all.len() implies text::le(
        (#[trigger] all[i]).0,
        (#[trigger] all[j]).0,
    ) by {
        assert(snippet_le(all[i], all[j]));
        text::lemma_le_total(all[i].0, all[i].0);
    }
}

/// The guidelines that are listed are those of the tools, in the order of the
/// tools and of each tool's own list.
pub proof fn lemma_guidelines_are_those_of_the_tools(tools: Seq<KeyedTool>)
    ensures
        guidelines_of(tools) == tools.map_values(
            |t: KeyedTool| t.1.prompt_guidelines@.map_values(|g: String| g@),
        ).flatten(),
    decreases tools.len(),
{
    let listed = |t: KeyedTool| t.1.prompt_guidelines@.map_values(|g: String| g@);
    if tools.len() > 0 {
        let init = tools.drop_last();
        lemma_guidelines_are_those_of_the_tools(init);
        assert(tools.map_values(listed) =~= init.map_values(listed).push(listed(tools.last())));
        init.map_values(listed).lemma_flatten_push(listed(tools.last()));
        assert(text::texts(tools.last().1.prompt_guidelines@) =~= listed(tools.last()));
    }
}

proof fn lemma_lines_are_flat(snippets: Seq<Snippet>, guidelines: Seq<Seq<char>>)
    ensures
        snippet_lines(snippets) == snippets.map_values(
            |s: Snippet| "- "@ + s.0 + ": "@ + s.1 + "\n"@,
        ).flatten(),
        guideline_lines(guidelines) == guidelines.map_values(
            |g: Seq<char>| "- "@ + g + "\n"@,
        ).flatten(),
    decreases snippets.len() + guidelines.len(),
{
    let told = |s: Snippet| "- "@ + s.0 + ": "@ + s.1 + "\n"@;
    let advised = |g: Seq<char>| "- "@ + g + "\n"@;
    if snippets.len() > 0 {
        let init = snippets.drop_last();
        lemma_lines_are_flat(init, guidelines);
        assert(snippets.map_values(told) =~= init.map_values(told).push(told(snippets.last())));
        init.map_values(told).lemma_flatten_push(told(snippets.last()));
        assert(snippet_lines(snippets) =~= snippet_lines(init) + told(snippets.last()));
    } else if guidelines.len() > 0 {
        let init = guidelines.drop_last();
        lemma_lines_are_flat(snippets, init);
        assert(guidelines.map_values(advised) =~= init.map_values(advised).push(
            advised(guidelines.last()),
        ));
        init.map_values(advised).lemma_flatten_push(advised(guidelines.last()));
        assert(guideline_lines(guidelines) =~= guideline_lines(init) + advised(guidelines.last()));
    }
}

/// There is a block exactly where a tool has a snippet or a guideline. It
/// lists the snippets, one line each with the tool's name, then the
/// guidelines, one line each; a part with nothing to list is left out with its
/// heading, and an empty line parts the two.
pub proof fn lemma_block_text(tools: Seq<KeyedTool>)
    ensures
        ({
            let snippets = snippets_of(tools);
            let guidelines = guidelines_of(tools);
            let told = snippets.map_values(
                |s: Snippet| "- "@ + s.0 + ": "@ + s.1 + "\n"@,
            ).flatten();
            let advised = guidelines.map_values(|g: Seq<char>| "- "@ + g + "\n"@).flatten();
            &&& tool_block(tools) is None <==> snippets.len() == 0 && guidelines.len() == 0
            &&& snippets.len() > 0 && guidelines.len() == 0 ==> tool_block(tools) == Some(
                "Available tools:\n"@ + told,
            )
            &&& snippets.len() == 0 && guidelines.len() > 0 ==> tool_block(tools) == Some(
                "Tool guidelines:\n"@ + advised,
            )
            &&& snippets.len() > 0 && guidelines.len() > 0 ==> tool_block(tools) == Some(
                "Available tools:\n"@ + told + "\n"@ + ("Tool guidelines:\n"@ + advised),
            )
        }),
{
    lemma_lines_are_flat(snippets_of(tools), guidelines_of(tools));
}

/// A tool that is put under a key is found there, in place of the one before;
/// under every other key the catalog holds what it held.
pub proof fn lemma_inserted_tool_is_found(key: String, tool: ToolDefinition, other: Seq<char>)
    requires
        other != key@,
    ensures
        forall|catalog: &mut ToolCatalog|
            #[trigger] call_ensures(ToolCatalog::insert, (catalog, key, tool), ()) ==> {
                let (before, after) = (by_key((*catalog)@), by_key((*final(catalog))@));
                &&& after.contains_key(key@) && after[key@] == tool
                &&& after.contains_key(other) <==> before.contains_key(other)
                &&& before.contains_key(other) ==> after[other] == before[other]
                &&& ascending((*final(catalog))@)
            },
{
}

/// A block is told exactly where a tool has a snippet or a guideline, and then
/// lists them under their headings.
pub proof fn lemma_built_block(tools: &ToolCatalog, block: Option<String>)
    requires
        call_ensures(build_tool_context_block, (tools,), block),
    ensures
        ({
            let snippets = snippets_of(tools@);
            let guidelines = guidelines_of(tools@);
            let told = snippets.map_values(
                |s: Snippet| "- "@ + s.0 + ": "@ + s.1 + "\n"@,
            ).flatten();
            let advised = guidelines.map_values(|g: Seq<char>| "- "@ + g + "\n"@).flatten();
            &&& block is None <==> snippets.len() == 0 && guidelines.len() == 0
            &&& snippets.len() > 0 && guidelines.len() == 0 ==> block.unwrap()@
                == "Available tools:\n"@ + told
            &&& snippets.len() == 0 && guidelines.len() > 0 ==> block.unwrap()@
                == "Tool guidelines:\n"@ + advised
            &&& snippets.len() > 0 && guidelines.len() > 0 ==> block.unwrap()@
                == "Available tools:\n"@ + told + "\n"@ + ("Tool guidelines:\n"@ + advised)
        }),
{
    lemma_block_text(tools@);
}

} // verus!
