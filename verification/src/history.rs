//! Changes to a chat history, as workers submit them.

use crate::chat_entry::{
    ChangeSource, ChatEntry, ChatEntryId, ContextOverride, SessionId,
};
use crate::chat_entry;
use vstd::prelude::*;

verus! {

/// One requested change of a history.
#[derive(Debug, PartialEq, Eq)]
pub enum HistoryMutation {
    /// Set an entry's context override.
    SetContextOverride { entry_id: ChatEntryId, value: ContextOverride, source: ChangeSource },
    /// Insert an entry behind another one.
    InsertEntry { after_entry_id: ChatEntryId, entry: ChatEntry },
}

/// The value of a [`HistoryMutation`].
pub ghost enum MutationView {
    SetContextOverride {
        entry_id: ChatEntryId,
        value: ContextOverride,
        source: chat_entry::ChangeSourceView,
    },
    InsertEntry { after_entry_id: ChatEntryId, entry: ChatEntry },
}

impl View for HistoryMutation {
    type V = MutationView;

    open spec fn view(&self) -> MutationView {
        match self {
            HistoryMutation::SetContextOverride { entry_id, value, source } =>
                MutationView::SetContextOverride {
                    entry_id: *entry_id,
                    value: *value,
                    source: source@,
                },
            HistoryMutation::InsertEntry { after_entry_id, entry } => MutationView::InsertEntry {
                after_entry_id: *after_entry_id,
                entry: *entry,
            },
        }
    }
}

/// The values of a sequence of mutations.
pub open spec fn mutation_views(mutations: Seq<HistoryMutation>) -> Seq<MutationView> {
    mutations.map_values(|m: HistoryMutation| m@)
}

/// The change by which the named worker sets an entry's override.
pub open spec fn worker_sets(
    entry_id: ChatEntryId,
    value: ContextOverride,
    worker: Seq<char>,
) -> MutationView {
    MutationView::SetContextOverride {
        entry_id,
        value,
        source: chat_entry::ChangeSourceView::Worker { name: worker },
    }
}

/// The change by which the named worker excludes an entry.
pub open spec fn worker_excludes(entry_id: ChatEntryId, worker: Seq<char>) -> MutationView {
    worker_sets(entry_id, ContextOverride::ForcedExclude, worker)
}

/// Whether no two entries share an id.
pub open spec fn distinct_ids(history: Seq<ChatEntry>) -> bool {
    forall|i: int, j: int|
        0 <= i < history.len() && 0 <= j < history.len() && (#[trigger] history[i]).id == (
        #[trigger] history[j]).id ==> i == j
}

/// The changes that `f` asks for at each index below `n`, in order.
pub open spec fn per_index(n: int, f: spec_fn(int) -> Seq<MutationView>) -> Seq<MutationView>
    decreases n,
{
    if n <= 0 {
        Seq::empty()
    } else {
        per_index(n - 1, f) + f(n - 1)
    }
}

/// A change is asked for exactly when some index asks for it.
pub proof fn lemma_per_index_contains(n: int, f: spec_fn(int) -> Seq<MutationView>, m: MutationView)
    ensures
        per_index(n, f).contains(m) <==> exists|i: int| 0 <= i < n && (#[trigger] f(i)).contains(m),
    decreases n,
{
    if n > 0 {
        lemma_per_index_contains(n - 1, f, m);
        let before = per_index(n - 1, f);
        let last = f(n - 1);
        let all = per_index(n, f);
        if before.contains(m) {
            let k = choose|k: int| 0 <= k < before.len() && before[k] == m;
            assert(all[k] == m);
        }
        if last.contains(m) {
            let k = choose|k: int| 0 <= k < last.len() && last[k] == m;
            assert(all[before.len() + k] == m);
        }
        if all.contains(m) {
            let k = choose|k: int| 0 <= k < all.len() && all[k] == m;
            if k < before.len() {
                assert(before[k] == m);
            } else {
                assert(last[k - before.len()] == m);
            }
        }
    }
}

/// Two askers that agree at each index ask for the same changes.
pub proof fn lemma_per_index_agree(
    n: int,
    f: spec_fn(int) -> Seq<MutationView>,
    g: spec_fn(int) -> Seq<MutationView>,
)
    requires
        forall|i: int| 0 <= i < n ==> #[trigger] f(i) == g(i),
    ensures
        per_index(n, f) == per_index(n, g),
    decreases n,
{
    if n > 0 {
        lemma_per_index_agree(n - 1, f, g);
        assert(f(n - 1) == g(n - 1));
    }
}

/// Where no index asks for a change, none is made.
pub proof fn lemma_per_index_empty(n: int, f: spec_fn(int) -> Seq<MutationView>)
    requires
        forall|i: int| 0 <= i < n ==> (#[trigger] f(i)).len() == 0,
    ensures
        per_index(n, f) == Seq::<MutationView>::empty(),
    decreases n,
{
    if n > 0 {
        lemma_per_index_empty(n - 1, f);
        assert(f(n - 1).len() == 0);
        assert(per_index(n, f) =~= Seq::<MutationView>::empty());
    }
}

/// The history once each override change has been made, one after the other.
pub open spec fn with_overrides(history: Seq<ChatEntry>, mutations: Seq<MutationView>) -> Seq<
    ChatEntry,
>
    decreases mutations.len(),
{
    if mutations.len() == 0 {
        history
    } else {
        let before = with_overrides(history, mutations.drop_last());
        match mutations.last() {
            MutationView::SetContextOverride { entry_id, value, .. } => before.map_values(
                |entry: ChatEntry|
                    if entry.id == entry_id {
                        ChatEntry { context_override: value, ..entry }
                    } else {
                        entry
                    },
            ),
            MutationView::InsertEntry { .. } => before,
        }
    }
}

/// Whether every change sets an override to `value`.
pub open spec fn all_set(mutations: Seq<MutationView>, value: ContextOverride) -> bool {
    forall|k: int|
        0 <= k < mutations.len() ==> (#[trigger] mutations[k] matches
            MutationView::SetContextOverride { value: v, .. } && v == value)
}

/// Whether some change sets the override of the entry.
pub open spec fn targets(mutations: Seq<MutationView>, id: ChatEntryId) -> bool {
    exists|k: int|
        0 <= k < mutations.len() && (#[trigger] mutations[k] matches
            MutationView::SetContextOverride { entry_id, .. } && entry_id == id)
}

/// Changes that all set one value give it to the targeted entries and leave
/// the others as they are.
pub proof fn lemma_with_overrides(
    history: Seq<ChatEntry>,
    mutations: Seq<MutationView>,
    value: ContextOverride,
)
    requires
        all_set(mutations, value),
    ensures
        with_overrides(history, mutations).len() == history.len(),
        forall|i: int|
            #![trigger history[i]]
            #![trigger with_overrides(history, mutations)[i]]
            0 <= i < history.len() ==> with_overrides(history, mutations)[i] == if targets(
                mutations,
                history[i].id,
            ) {
                ChatEntry { context_override: value, ..history[i] }
            } else {
                history[i]
            },
    decreases mutations.len(),
{
    if mutations.len() > 0 {
        let init = mutations.drop_last();
        assert forall|k: int| 0 <= k < init.len() implies (#[trigger] init[k] matches
            MutationView::SetContextOverride { value: v, .. } && v == value) by {
            assert(mutations[k] == init[k]);
        }
        lemma_with_overrides(history, init, value);
        let before = with_overrides(history, init);
        let after = with_overrides(history, mutations);
        assert(mutations.last() == mutations[mutations.len() - 1]);
        assert(after.len() == before.len());
        assert forall|i: int| 0 <= i < history.len() implies after[i] == if targets(
            mutations,
            history[i].id,
        ) {
            ChatEntry { context_override: value, ..history[i] }
        } else {
            history[i]
        } by {
            let id = history[i].id;
            assert(before[i].id == id);
            if targets(init, id) {
                let k = choose|k: int|
                    0 <= k < init.len() && (#[trigger] init[k] matches
                        MutationView::SetContextOverride { entry_id, .. } && entry_id == id);
                assert(mutations[k] == init[k]);
                assert(targets(mutations, id));
            }
            if targets(mutations, id) && !targets(init, id) {
                let k = choose|k: int|
                    0 <= k < mutations.len() && (#[trigger] mutations[k] matches
                        MutationView::SetContextOverride { entry_id, .. } && entry_id == id);
                if k < mutations.len() - 1 {
                    assert(init[k] == mutations[k]);
                }
            }
        }
    }
}

/// A change asked for at some index is among all the changes, and targets its
/// entry.
pub proof fn lemma_asked_is_targeted(
    n: int,
    f: spec_fn(int) -> Seq<MutationView>,
    i: int,
    m: MutationView,
    id: ChatEntryId,
)
    requires
        0 <= i < n,
        f(i).contains(m),
        m matches MutationView::SetContextOverride { entry_id, .. } && entry_id == id,
    ensures
        per_index(n, f).contains(m),
        targets(per_index(n, f), id),
{
    lemma_per_index_contains(n, f, m);
    let asked = per_index(n, f);
    let k = choose|k: int| 0 <= k < asked.len() && asked[k] == m;
    assert(asked[k] matches MutationView::SetContextOverride { entry_id, .. } && entry_id == id);
}

/// Appending a change appends its value.
pub proof fn lemma_push_view(mutations: Seq<HistoryMutation>, m: HistoryMutation)
    ensures
        mutation_views(mutations.push(m)) == mutation_views(mutations).push(m@),
{
    assert(mutation_views(mutations.push(m)) =~= mutation_views(mutations).push(m@));
}

impl HistoryMutation {
    /// The change by which the named worker sets an entry's override.
    pub fn worker_override(
        entry_id: ChatEntryId,
        value: ContextOverride,
        worker: &str,
    ) -> (mutation: HistoryMutation)
        ensures
            mutation@ == worker_sets(entry_id, value, worker@),
    {
        HistoryMutation::SetContextOverride {
            entry_id,
            value,
            source: ChangeSource::Worker { name: worker.to_owned() },
        }
    }

    /// The change by which the named worker excludes an entry.
    pub fn worker_exclude(entry_id: ChatEntryId, worker: &str) -> (mutation: HistoryMutation)
        ensures
            mutation@ == worker_excludes(entry_id, worker@),
    {
        HistoryMutation::worker_override(entry_id, ContextOverride::ForcedExclude, worker)
    }
}

/// Appends an entry to a session's history.
#[derive(Debug, PartialEq, Eq)]
pub struct PushChatEntry {
    pub session_id: SessionId,
    pub entry: ChatEntry,
}

/// Applies changes to a session's history.
#[derive(Debug, PartialEq, Eq)]
pub struct SubmitHistoryMutations {
    pub session_id: SessionId,
    pub mutations: Vec<HistoryMutation>,
}

/// Compacts a session on the user's request.
#[derive(Clone, Copy, Debug, PartialEq, Eq, Structural)]
pub struct TriggerCompaction {
    pub session_id: SessionId,
    pub compact_all: bool,
}

/// Whether the change is that of the named worker which gives the entry the
/// override.
pub open spec fn sets_override(
    m: HistoryMutation,
    id: ChatEntryId,
    value: ContextOverride,
    worker: Seq<char>,
) -> bool {
    m matches HistoryMutation::SetContextOverride { entry_id, value: v, source } && entry_id == id
        && v == value && (source matches ChangeSource::Worker { name } && name@ == worker)
}

/// The value of a change is that of a worker which sets an override exactly
/// when the change is.
pub proof fn lemma_override_view(
    m: HistoryMutation,
    id: ChatEntryId,
    value: ContextOverride,
    worker: Seq<char>,
)
    ensures
        m@ == (MutationView::SetContextOverride {
            entry_id: id,
            value,
            source: chat_entry::ChangeSourceView::Worker { name: worker },
        }) <==> sets_override(m, id, value, worker),
{
}

/// A change is among the values of the changes exactly when one of them has
/// that value.
pub proof fn lemma_views_hold_changes(
    mutations: Seq<HistoryMutation>,
    id: ChatEntryId,
    value: ContextOverride,
    worker: Seq<char>,
)
    ensures
        mutation_views(mutations).contains(
            MutationView::SetContextOverride {
                entry_id: id,
                value,
                source: chat_entry::ChangeSourceView::Worker { name: worker },
            },
        ) <==> exists|x: int|
            0 <= x < mutations.len() && sets_override(#[trigger] mutations[x], id, value, worker),
{
    let views = mutation_views(mutations);
    let m = MutationView::SetContextOverride {
        entry_id: id,
        value,
        source: chat_entry::ChangeSourceView::Worker { name: worker },
    };
    if views.contains(m) {
        let x = choose|x: int| 0 <= x < views.len() && views[x] == m;
        assert(mutations[x]@ == m);
        assert(sets_override(mutations[x], id, value, worker));
    }
    if exists|x: int|
        0 <= x < mutations.len() && sets_override(#[trigger] mutations[x], id, value, worker) {
        let x = choose|x: int|
            0 <= x < mutations.len() && sets_override(#[trigger] mutations[x], id, value, worker);
        assert(views[x] == m);
    }
}

proof fn lemma_per_index_grows(i: int, j: int, f: spec_fn(int) -> Seq<MutationView>)
    requires
        0 <= i <= j,
    ensures
        per_index(i, f).len() <= per_index(j, f).len(),
    decreases j - i,
{
    if i < j {
        lemma_per_index_grows(i, j - 1, f);
    }
}

/// Each change that is asked for index by index comes from one index.
pub proof fn lemma_per_index_origin(n: int, f: spec_fn(int) -> Seq<MutationView>, x: int) -> (i: int)
    requires
        0 <= x < per_index(n, f).len(),
    ensures
        0 <= i < n,
        0 <= x - per_index(i, f).len() < f(i).len(),
        per_index(n, f)[x] == f(i)[x - per_index(i, f).len()],
    decreases n,
{
    let before = per_index(n - 1, f);
    if x < before.len() {
        let i = lemma_per_index_origin(n - 1, f, x);
        assert(per_index(n, f)[x] == before[x]);
        i
    } else {
        n - 1
    }
}

/// Changes that are asked for index by index stand in the order of the
/// indices, and those of one index side by side.
pub proof fn lemma_per_index_order(
    f: spec_fn(int) -> Seq<MutationView>,
    x: int,
    i: int,
    y: int,
    j: int,
)
    requires
        0 <= i,
        0 <= j,
        x < y,
        0 <= x - per_index(i, f).len() < f(i).len(),
        0 <= y - per_index(j, f).len() < f(j).len(),
    ensures
        i <= j,
{
    if j < i {
        lemma_per_index_grows(j + 1, i, f);
    }
}

/// What stands behind a change of the same index is the index's next change.
pub proof fn lemma_per_index_next(n: int, f: spec_fn(int) -> Seq<MutationView>, i: int, o: int)
    requires
        0 <= i < n,
        0 <= o < f(i).len(),
    ensures
        per_index(i, f).len() + o < per_index(n, f).len(),
        per_index(n, f)[per_index(i, f).len() + o] == f(i)[o],
    decreases n,
{
    if i < n - 1 {
        lemma_per_index_next(n - 1, f, i, o);
    }
}

} // verus!
