//! Prompt templates that a message can refer to by `#name`.

use crate::chat_input::slash_command;
use crate::chat_input::slash_command::is_fuzzy_match;
use crate::text::text_eq;
use vstd::prelude::*;

verus! {

/// A prompt template.
#[derive(Debug, PartialEq, Eq)]
pub struct PromptTemplate {
    pub name: String,
    pub description: String,
    pub body: String,
}

impl PromptTemplate {
    /// An equal copy.
    pub fn copy(&self) -> (copy: PromptTemplate)
        ensures
            copy == *self,
    {
        PromptTemplate {
            name: self.name.clone(),
            description: self.description.clone(),
            body: self.body.clone(),
        }
    }
}

/// The prompt templates of a session.
#[derive(Debug, PartialEq, Eq)]
pub struct PromptTemplateStore {
    pub templates: Vec<PromptTemplate>,
}

/// The templates that match a typed filter, in their order.
pub open spec fn matching(templates: Seq<PromptTemplate>, filter: Seq<char>) -> Seq<PromptTemplate>
    decreases templates.len(),
{
    if templates.len() == 0 {
        Seq::empty()
    } else {
        let before = matching(templates.drop_last(), filter);
        if slash_command::fuzzy_match(filter, templates.last().name@) {
            before.push(templates.last())
        } else {
            before
        }
    }
}

/// The index of the first template at or after `from` with this name.
pub open spec fn named(templates: Seq<PromptTemplate>, from: int, name: Seq<char>) -> Option<int>
    decreases templates.len() - from,
{
    if from < 0 || from >= templates.len() {
        None
    } else if templates[from].name@ == name {
        Some(from)
    } else {
        named(templates, from + 1, name)
    }
}

impl PromptTemplateStore {
    /// A store of these templates.
    pub fn from_vec(templates: Vec<PromptTemplate>) -> (store: PromptTemplateStore)
        ensures
            store.templates == templates,
    {
        PromptTemplateStore { templates }
    }

    /// The templates that match a typed filter, in their order.
    pub fn fuzzy_search(&self, filter: &str) -> (found: Vec<&PromptTemplate>)
        ensures
            found@.map_values(|t: &PromptTemplate| *t) == matching(self.templates@, filter@),
    {
        let mut found: Vec<&PromptTemplate> = Vec::new();
        assert(found@.map_values(|t: &PromptTemplate| *t) =~= Seq::<PromptTemplate>::empty());
        let mut i: usize = 0;
        while i < self.templates.len()
            invariant
                i <= self.templates@.len(),
                found@.map_values(|t: &PromptTemplate| *t) == matching(
                    self.templates@.take(i as int),
                    filter@,
                ),
            decreases self.templates@.len() - i,
        {
            let ghost before = found@;
            let template = &self.templates[i];
            assert(self.templates@.take(i + 1).drop_last() =~= self.templates@.take(i as int));
            if is_fuzzy_match(filter, template.name.as_str()) {
                found.push(template);
                assert(found@.map_values(|t: &PromptTemplate| *t) =~= before.map_values(
                    |t: &PromptTemplate| *t,
                ).push(*template));
            }
            i += 1;
        }
        assert(self.templates@.take(i as int) =~= self.templates@);
        found
    }

    /// The first template of this name.
    pub fn find_by_name(&self, name: &str) -> (found: Option<&PromptTemplate>)
        ensures
            match found {
                Some(t) => named(self.templates@, 0, name@) matches Some(i) && 0 <= i
                    < self.templates@.len() && *t == self.templates@[i],
                None => named(self.templates@, 0, name@) is None,
            },
    {
        let mut i: usize = 0;
        while i < self.templates.len()
            invariant
                named(self.templates@, 0, name@) == named(self.templates@, i as int, name@),
            decreases self.templates@.len() - i,
        {
            if text_eq(self.templates[i].name.as_str(), name) {
                return Some(&self.templates[i]);
            }
            i += 1;
        }
        None
    }
}

/// A search finds exactly the templates whose name the filter fits, in their
/// order.
pub proof fn lemma_search_finds_fitting(templates: Seq<PromptTemplate>, filter: Seq<char>)
    ensures
        matching(templates, filter) == templates.filter(
            |t: PromptTemplate| slash_command::fits(filter, t.name@),
        ),
    decreases templates.len(),
{
    reveal(Seq::filter);
    if templates.len() > 0 {
        lemma_search_finds_fitting(templates.drop_last(), filter);
        slash_command::lemma_fuzzy_match_fits(filter, templates.last().name@);
    }
}

/// A template is found by its exact name, and of several the first.
pub proof fn lemma_named_is_first(templates: Seq<PromptTemplate>, from: int, name: Seq<char>)
    requires
        0 <= from <= templates.len(),
    ensures
        match named(templates, from, name) {
            Some(i) => from <= i < templates.len() && templates[i].name@ == name && forall|j: int|
                from <= j < i ==> (#[trigger] templates[j]).name@ != name,
            None => forall|j: int|
                from <= j < templates.len() ==> (#[trigger] templates[j]).name@ != name,
        },
    decreases templates.len() - from,
{
    if from < templates.len() && templates[from].name@ != name {
        lemma_named_is_first(templates, from + 1, name);
    }
}

/// A search finds the templates whose name the filter fits, in their order.
pub proof fn lemma_found_templates(
    store: &PromptTemplateStore,
    filter: &str,
    found: Vec<&PromptTemplate>,
)
    requires
        call_ensures(PromptTemplateStore::fuzzy_search, (store, filter), found),
    ensures
        found@.map_values(|t: &PromptTemplate| *t) == store.templates@.filter(
            |t: PromptTemplate| slash_command::fits(filter@, t.name@),
        ),
{
    lemma_search_finds_fitting(store.templates@, filter@);
}

/// A template is found by its exact name, the first of several, and none is
/// found under a name that no template has.
pub proof fn lemma_found_by_name(
    store: &PromptTemplateStore,
    name: &str,
    found: Option<&PromptTemplate>,
    i: int,
)
    requires
        call_ensures(PromptTemplateStore::find_by_name, (store, name), found),
        0 <= i < store.templates@.len(),
        store.templates@[i].name@ == name@,
        forall|j: int| 0 <= j < i ==> (#[trigger] store.templates@[j]).name@ != name@,
    ensures
        found is Some,
        *found.unwrap() == store.templates@[i],
{
    lemma_named_is_first(store.templates@, 0, name@);
}

} // verus!
