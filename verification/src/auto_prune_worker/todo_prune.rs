//! Keeps only the current task list in the prompt: of all `todo_` tool calls
//! the most recent pair stays, the older ones are taken out.
//!
//! With `protect_latest`, the most recent pair is also force-included, so that
//! no other worker drops it. The pair it supersedes loses an inclusion that
//! this worker gave it, and is excluded. What the user or another worker has
//! included stays.

use crate::auto_prune_worker::min_age;
use crate::auto_prune_worker::min_age::is_within_min_age;
use crate::chat_entry;
use crate::chat_entry::{
    ChangeSource, ChatEntry, ChatEntryId, ChatEntryKind, ContextOverride, SessionId,
};
use crate::history;
use crate::history::HistoryMutation;
use crate::text::{starts_with, text_eq};
use vstd::prelude::*;

verus! {

/// Configuration of the todo worker.
#[derive(Clone, Copy, Debug, PartialEq, Eq, Structural)]
pub struct TodoAutoPruneConfig {
    pub enabled: bool,
    /// How many entries at the end of the history are left alone.
    pub min_age: usize,
    /// Whether the most recent pair is force-included.
    pub protect_latest: bool,
}

/// The todo worker.
#[derive(Clone, Copy, Debug, PartialEq, Eq, Structural)]
pub struct TodoAutoPruneWorker {
    pub config: TodoAutoPruneConfig,
}

/// A `todo_` tool call.
#[derive(Debug, PartialEq, Eq)]
pub struct CallInfo {
    /// Where the call stands in the history.
    pub index: usize,
    pub entry_id: ChatEntryId,
    pub tool_call_id: String,
}

/// A `todo_` tool result.
#[derive(Debug, PartialEq, Eq)]
pub struct ResultInfo {
    pub tool_call_id: String,
    /// Where the result stands in the history.
    pub index: usize,
    pub entry_id: ChatEntryId,
}

/// Whether a tool belongs to the todo group.
pub open spec fn todo_tool(name: Seq<char>) -> bool {
    "todo_"@.is_prefix_of(name)
}

/// Whether the entry is a `todo_` call.
pub open spec fn todo_call(entry: ChatEntry) -> bool {
    entry.kind matches ChatEntryKind::ToolCall { name, .. } && todo_tool(name@)
}

/// Whether the entry is a `todo_` result for the tool call.
pub open spec fn todo_result(entry: ChatEntry, tool_call_id: Seq<char>) -> bool {
    entry.kind matches ChatEntryKind::ToolResult { id, name, .. } && todo_tool(name@) && id@
        == tool_call_id
}

/// The indices of the `todo_` calls below `n`, oldest first.
pub open spec fn todo_calls(history: Seq<ChatEntry>, n: int) -> Seq<int>
    decreases n,
{
    if n <= 0 {
        Seq::empty()
    } else if todo_call(history[n - 1]) {
        todo_calls(history, n - 1).push(n - 1)
    } else {
        todo_calls(history, n - 1)
    }
}

/// The index of the last `todo_` result below `n` for the tool call.
pub open spec fn last_result(history: Seq<ChatEntry>, n: int, tool_call_id: Seq<char>) -> Option<
    int,
>
    decreases n,
{
    if n <= 0 {
        None
    } else if todo_result(history[n - 1], tool_call_id) {
        Some(n - 1)
    } else {
        last_result(history, n - 1, tool_call_id)
    }
}

/// The index of the result of the `todo_` call at `c`.
pub open spec fn result_of(history: Seq<ChatEntry>, c: int) -> Option<int> {
    last_result(history, history.len() as int, history[c].kind->ToolCall_id@)
}

/// Whether the worker may force-include the entry: pins and user exclusions
/// win, and an inclusion need not be repeated.
pub open spec fn may_include(entry: ChatEntry) -> bool {
    !entry.pinned() && !entry.user_force_excluded() && entry.context_override
        != ContextOverride::ForcedInclude
}

/// Whether the last change of the entry's override is an inclusion by the
/// named worker.
pub open spec fn included_by(entry: ChatEntry, worker: Seq<char>) -> bool {
    entry.context_history@.len() > 0 && ({
        let last = entry.context_history@.last();
        &&& last.to == ContextOverride::ForcedInclude
        &&& last.source matches ChangeSource::Worker { name } && name@ == worker
    })
}

/// The inclusion asked for an entry.
pub open spec fn inclusion(entry: ChatEntry, worker: Seq<char>) -> Seq<history::MutationView> {
    if may_include(entry) {
        seq![history::worker_sets(entry.id, ContextOverride::ForcedInclude, worker)]
    } else {
        Seq::empty()
    }
}

/// The inclusions asked for the pair of the call at `c`. A pair is included as
/// a unit: a call without a result is not.
pub open spec fn pair_inclusions(history: Seq<ChatEntry>, c: int, worker: Seq<char>) -> Seq<
    history::MutationView,
> {
    match result_of(history, c) {
        Some(r) => inclusion(history[c], worker) + inclusion(history[r], worker),
        None => Seq::empty(),
    }
}

/// The changes asked for a superseded entry: an inclusion of this worker is
/// dropped before the exclusion, any other inclusion is respected.
pub open spec fn superseded(entry: ChatEntry, worker: Seq<char>) -> Seq<history::MutationView> {
    if entry.context_override == ContextOverride::ForcedInclude {
        if included_by(entry, worker) {
            seq![
                history::worker_sets(entry.id, ContextOverride::Default, worker),
                history::worker_excludes(entry.id, worker),
            ]
        } else {
            Seq::empty()
        }
    } else {
        seq![history::worker_excludes(entry.id, worker)]
    }
}

/// The changes asked for the superseded pair of the call at `c`.
pub open spec fn pair_superseded(history: Seq<ChatEntry>, c: int, worker: Seq<char>) -> Seq<
    history::MutationView,
> {
    superseded(history[c], worker) + match result_of(history, c) {
        Some(r) => superseded(history[r], worker),
        None => Seq::empty(),
    }
}

/// The exclusion asked for an entry without an override.
pub open spec fn exclusion(entry: ChatEntry, worker: Seq<char>) -> Seq<history::MutationView> {
    if entry.protected_from_prune() {
        Seq::empty()
    } else {
        seq![history::worker_excludes(entry.id, worker)]
    }
}

/// The exclusions asked for the `k`-th oldest pair.
pub open spec fn older_exclusions(
    history: Seq<ChatEntry>,
    min_age: usize,
    worker: Seq<char>,
) -> spec_fn(int) -> Seq<history::MutationView> {
    |k: int|
        {
            let c = todo_calls(history, history.len() as int)[k];
            if min_age::age(history.len() as usize, c as usize) < min_age {
                Seq::empty()
            } else {
                exclusion(history[c], worker) + match result_of(history, c) {
                    Some(r) => exclusion(history[r], worker),
                    None => Seq::empty(),
                }
            }
        }
}

/// How many of the oldest pairs are excluded for their age alone.
pub open spec fn older_count(calls: nat, protect_latest: bool) -> int {
    let claimed: int = if protect_latest {
        2
    } else {
        1
    };
    if calls <= claimed {
        0
    } else {
        calls - claimed
    }
}

/// All changes the worker asks for.
pub open spec fn changes(
    history: Seq<ChatEntry>,
    min_age: usize,
    worker: Seq<char>,
    protect_latest: bool,
) -> Seq<history::MutationView> {
    let calls = todo_calls(history, history.len() as int);
    let n = calls.len();
    let latest = if protect_latest && n >= 1 {
        pair_inclusions(history, calls[n - 1], worker)
    } else {
        Seq::empty()
    };
    let previous = if protect_latest && n >= 2 {
        pair_superseded(history, calls[n - 2], worker)
    } else {
        Seq::empty()
    };
    latest + previous + history::per_index(
        older_count(n, protect_latest),
        older_exclusions(history, min_age, worker),
    )
}

/// Whether a tool belongs to the todo group.
pub fn is_todo_tool(name: &str) -> (yes: bool)
    ensures
        yes == todo_tool(name@),
{
    starts_with(name, "todo_")
}

/// Whether the collected calls and results are those below `n`.
pub open spec fn collected(
    history: Seq<ChatEntry>,
    n: int,
    calls: Seq<CallInfo>,
    results: Seq<ResultInfo>,
) -> bool {
    &&& calls.len() == todo_calls(history, n).len()
    &&& forall|k: int|
        0 <= k < calls.len() ==> {
            let call = #[trigger] calls[k];
            &&& call.index == todo_calls(history, n)[k]
            &&& call.index < n
            &&& call.entry_id == history[call.index as int].id
            &&& history[call.index as int].kind matches ChatEntryKind::ToolCall { id, .. } && id@
                == call.tool_call_id@
        }
    &&& forall|k: int|
        0 <= k < results.len() ==> {
            let result = #[trigger] results[k];
            &&& result.index < n
            &&& result.entry_id == history[result.index as int].id
        }
    &&& forall|id: Seq<char>|
        #![trigger last_result(history, n, id)]
        listed(results, results.len() as int, id) == last_result(history, n, id)
}

/// The history index of the last listed result for the tool call.
pub open spec fn listed(results: Seq<ResultInfo>, n: int, tool_call_id: Seq<char>) -> Option<int>
    decreases n,
{
    if n <= 0 {
        None
    } else if results[n - 1].tool_call_id@ == tool_call_id {
        Some(results[n - 1].index as int)
    } else {
        listed(results, n - 1, tool_call_id)
    }
}

proof fn lemma_listed_prefix(a: Seq<ResultInfo>, b: Seq<ResultInfo>, n: int, id: Seq<char>)
    requires
        0 <= n <= a.len(),
        n <= b.len(),
        forall|k: int| 0 <= k < n ==> a[k] == b[k],
    ensures
        listed(a, n, id) == listed(b, n, id),
    decreases n,
{
    if n > 0 {
        lemma_listed_prefix(a, b, n - 1, id);
    }
}

/// Collects the `todo_` calls and results of a history, oldest first.
pub fn collect_all_todo_pairs(history: &[ChatEntry]) -> (pairs: (Vec<CallInfo>, Vec<ResultInfo>))
    ensures
        collected(history@, history@.len() as int, pairs.0@, pairs.1@),
{
    let mut calls: Vec<CallInfo> = Vec::new();
    let mut results: Vec<ResultInfo> = Vec::new();
    let mut i: usize = 0;
    while i < history.len()
        invariant
            i <= history@.len(),
            collected(history@, i as int, calls@, results@),
        decreases history@.len() - i,
    {
        let ghost before = results@;
        let entry = &history[i];
        match &entry.kind {
            ChatEntryKind::ToolCall { id, name, .. } => {
                if is_todo_tool(name.as_str()) {
                    calls.push(
                        CallInfo { index: i, entry_id: entry.id, tool_call_id: id.clone() },
                    );
                }
            },
            ChatEntryKind::ToolResult { id, name, .. } => {
                if is_todo_tool(name.as_str()) {
                    results.push(
                        ResultInfo { tool_call_id: id.clone(), index: i, entry_id: entry.id },
                    );
                }
            },
            _ => {},
        }
        proof {
            assert forall|id: Seq<char>|
                #![trigger last_result(history@, i + 1, id)]
                listed(results@, results@.len() as int, id) == last_result(
                    history@,
                    i + 1,
                    id,
                ) by {
                assert(listed(before, before.len() as int, id) == last_result(
                    history@,
                    i as int,
                    id,
                ));
                lemma_listed_prefix(before, results@, before.len() as int, id);
            }
        }
        i += 1;
    }
    (calls, results)
}

/// Finds the history index of the last listed result for the tool call.
fn find_listed(results: &Vec<ResultInfo>, tool_call_id: &String) -> (found: Option<usize>)
    ensures
        found matches Some(r) ==> listed(results@, results@.len() as int, tool_call_id@) == Some(
            r as int,
        ) && exists|k: int| 0 <= k < results@.len() && (#[trigger] results@[k]).index == r,
        found is None ==> listed(results@, results@.len() as int, tool_call_id@) is None,
{
    let mut k: usize = results.len();
    while k > 0
        invariant
            k <= results@.len(),
            listed(results@, results@.len() as int, tool_call_id@) == listed(
                results@,
                k as int,
                tool_call_id@,
            ),
        decreases k,
    {
        if results[k - 1].tool_call_id == *tool_call_id {
            assert(results@[k - 1].index == results@[k - 1].index);
            return Some(results[k - 1].index);
        }
        k -= 1;
    }
    None
}

/// Finds the result of a collected call.
fn find_result(
    history: &[ChatEntry],
    call: &CallInfo,
    Ghost(calls): Ghost<Seq<CallInfo>>,
    results: &Vec<ResultInfo>,
) -> (found: Option<usize>)
    requires
        collected(history@, history@.len() as int, calls, results@),
        calls.contains(*call),
    ensures
        call.index < history@.len(),
        found matches Some(r) ==> r < history@.len() && result_of(history@, call.index as int)
            == Some(r as int),
        found is None ==> result_of(history@, call.index as int) is None,
{
    proof {
        let k = choose|k: int| 0 <= k < calls.len() && calls[k] == *call;
        assert(calls[k].index < history@.len());
        assert(last_result(history@, history@.len() as int, call.tool_call_id@) == result_of(
            history@,
            call.index as int,
        ));
    }
    find_listed(results, &call.tool_call_id)
}

/// Whether the worker may force-include the entry.
pub fn may_force_include(entry: &ChatEntry) -> (may: bool)
    ensures
        may == may_include(*entry),
{
    !entry.is_pinned() && !entry.is_user_force_excluded() && entry.context_override()
        != ContextOverride::ForcedInclude
}

/// Whether the last change of the entry's override is an inclusion by the
/// named worker.
pub fn todo_worker_include(entry: &ChatEntry, worker_name: &str) -> (yes: bool)
    ensures
        yes == included_by(*entry, worker_name@),
{
    let n: usize = entry.context_history.len();
    if n == 0 {
        return false;
    }
    let last = &entry.context_history[n - 1];
    if last.to != ContextOverride::ForcedInclude {
        return false;
    }
    match &last.source {
        ChangeSource::Worker { name } => text_eq(name.as_str(), worker_name),
        _ => false,
    }
}

/// Appends the inclusion asked for an entry.
fn push_inclusion(mutations: &mut Vec<HistoryMutation>, entry: &ChatEntry, worker_name: &str)
    ensures
        history::mutation_views(final(mutations)@) == history::mutation_views(old(mutations)@)
            + inclusion(*entry, worker_name@),
{
    if may_force_include(entry) {
        let m = HistoryMutation::worker_override(
            entry.id,
            ContextOverride::ForcedInclude,
            worker_name,
        );
        proof {
            history::lemma_push_view(mutations@, m);
        }
        mutations.push(m);
    }
    assert(history::mutation_views(mutations@) =~= history::mutation_views(old(mutations)@)
        + inclusion(*entry, worker_name@));
}

/// Appends the changes asked for a superseded entry.
fn push_superseded(mutations: &mut Vec<HistoryMutation>, entry: &ChatEntry, worker_name: &str)
    ensures
        history::mutation_views(final(mutations)@) == history::mutation_views(old(mutations)@)
            + superseded(*entry, worker_name@),
{
    if entry.context_override() == ContextOverride::ForcedInclude {
        if !todo_worker_include(entry, worker_name) {
            assert(history::mutation_views(mutations@) =~= history::mutation_views(old(mutations)@)
                + superseded(*entry, worker_name@));
            return;
        }
        let m = HistoryMutation::worker_override(entry.id, ContextOverride::Default, worker_name);
        proof {
            history::lemma_push_view(mutations@, m);
        }
        mutations.push(m);
    }
    let m = HistoryMutation::worker_exclude(entry.id, worker_name);
    proof {
        history::lemma_push_view(mutations@, m);
    }
    mutations.push(m);
    assert(history::mutation_views(mutations@) =~= history::mutation_views(old(mutations)@)
        + superseded(*entry, worker_name@));
}

/// Appends the exclusion asked for an entry without an override.
fn push_exclusion(mutations: &mut Vec<HistoryMutation>, entry: &ChatEntry, worker_name: &str)
    ensures
        history::mutation_views(final(mutations)@) == history::mutation_views(old(mutations)@)
            + exclusion(*entry, worker_name@),
{
    if !entry.is_protected_from_prune() {
        let m = HistoryMutation::worker_exclude(entry.id, worker_name);
        proof {
            history::lemma_push_view(mutations@, m);
        }
        mutations.push(m);
    }
    assert(history::mutation_views(mutations@) =~= history::mutation_views(old(mutations)@)
        + exclusion(*entry, worker_name@));
}

/// Asks to keep the most recent pair and to exclude the older ones.
pub fn build_prune_mutations(
    history: &[ChatEntry],
    calls: &Vec<CallInfo>,
    results: &Vec<ResultInfo>,
    min_age: usize,
    worker_name: &str,
    protect_latest: bool,
) -> (mutations: Vec<HistoryMutation>)
    requires
        collected(history@, history@.len() as int, calls@, results@),
    ensures
        history::mutation_views(mutations@) == changes(
            history@,
            min_age,
            worker_name@,
            protect_latest,
        ),
{
    let mut mutations: Vec<HistoryMutation> = Vec::new();
    let ghost order = todo_calls(history@, history@.len() as int);
    let ghost n = order.len() as int;
    assert(history::mutation_views(mutations@) =~= Seq::empty());
    if protect_latest && calls.len() >= 1 {
        let latest = &calls[calls.len() - 1];
        assert(calls@.contains(*latest));
        let result = find_result(history, latest, Ghost(calls@), results);
        if let Some(r) = result {
            push_inclusion(&mut mutations, &history[latest.index], worker_name);
            push_inclusion(&mut mutations, &history[r], worker_name);
        }
        assert(history::mutation_views(mutations@) =~= pair_inclusions(
            history@,
            order[n - 1],
            worker_name@,
        ));
    }
    let ghost latest_views = history::mutation_views(mutations@);
    if protect_latest && calls.len() >= 2 {
        let previous = &calls[calls.len() - 2];
        assert(calls@.contains(*previous));
        let result = find_result(history, previous, Ghost(calls@), results);
        push_superseded(&mut mutations, &history[previous.index], worker_name);
        if let Some(r) = result {
            push_superseded(&mut mutations, &history[r], worker_name);
        }
        assert(history::mutation_views(mutations@) =~= latest_views + pair_superseded(
            history@,
            order[n - 2],
            worker_name@,
        ));
    }
    let claimed: usize = if protect_latest {
        2
    } else {
        1
    };
    let count: usize = if calls.len() <= claimed {
        0
    } else {
        calls.len() - claimed
    };
    let ghost first = history::mutation_views(mutations@);
    let ghost f = older_exclusions(history@, min_age, worker_name@);
    assert(first =~= first + history::per_index(0, f));
    let mut k: usize = 0;
    while k < count
        invariant
            k <= count <= calls@.len(),
            order == todo_calls(history@, history@.len() as int),
            collected(history@, history@.len() as int, calls@, results@),
            f == older_exclusions(history@, min_age, worker_name@),
            history::mutation_views(mutations@) == first + history::per_index(k as int, f),
        decreases count - k,
    {
        let ghost before = history::mutation_views(mutations@);
        let call = &calls[k];
        assert(calls@.contains(*call));
        let result = find_result(history, call, Ghost(calls@), results);
        if !is_within_min_age(history.len(), call.index, min_age) {
            push_exclusion(&mut mutations, &history[call.index], worker_name);
            if let Some(r) = result {
                push_exclusion(&mut mutations, &history[r], worker_name);
            }
        }
        proof {
            assert(history::mutation_views(mutations@) =~= before + f(k as int));
            assert(history::mutation_views(mutations@) =~= first + history::per_index(k + 1, f));
        }
        k += 1;
    }
    assert(history::mutation_views(mutations@) =~= changes(
        history@,
        min_age,
        worker_name@,
        protect_latest,
    ));
    mutations
}

impl TodoAutoPruneWorker {
    /// The worker's name, as recorded with each change.
    pub fn name(&self) -> (name: &'static str)
        ensures
            name@ == "auto-prune-todo"@,
    {
        "auto-prune-todo"
    }

    /// Asks to keep the current task list and to exclude the stale ones.
    pub fn evaluate(&self, _session_id: &SessionId, history: &[ChatEntry]) -> (mutations: Vec<
        HistoryMutation,
    >)
        ensures
            history::mutation_views(mutations@) == changes(
                history@,
                self.config.min_age,
                "auto-prune-todo"@,
                self.config.protect_latest,
            ),
    {
        let (calls, results) = collect_all_todo_pairs(history);
        build_prune_mutations(
            history,
            &calls,
            &results,
            self.config.min_age,
            self.name(),
            self.config.protect_latest,
        )
    }
}

proof fn lemma_todo_calls(history: Seq<ChatEntry>, n: int)
    requires
        n <= history.len(),
    ensures
        forall|k: int|
            0 <= k < todo_calls(history, n).len() ==> {
                let c = #[trigger] todo_calls(history, n)[k];
                0 <= c < n && todo_call(history[c])
            },
        forall|k: int, m: int|
            0 <= k < m < todo_calls(history, n).len() ==> todo_calls(history, n)[k] < todo_calls(
                history,
                n,
            )[m],
        forall|c: int|
            0 <= c < n && todo_call(#[trigger] history[c]) ==> todo_calls(history, n).contains(c),
    decreases n,
{
    if n > 0 {
        lemma_todo_calls(history, n - 1);
        let before = todo_calls(history, n - 1);
        let after = todo_calls(history, n);
        assert forall|k: int| 0 <= k < after.len() implies ({
            let c = #[trigger] after[k];
            0 <= c < n && todo_call(history[c])
        }) by {
            if k < before.len() {
                assert(after[k] == before[k]);
            }
        }
        assert forall|c: int| 0 <= c < n && todo_call(#[trigger] history[c]) implies after.contains(
            c,
        ) by {
            if c < n - 1 {
                let k = choose|k: int| 0 <= k < before.len() && before[k] == c;
                assert(after[k] == c);
            } else {
                assert(after[before.len() as int] == c);
            }
        }
        assert forall|k: int, m: int| 0 <= k < m < after.len() implies after[k] < after[m] by {
            assert(after[k] == before[k]);
            if m < before.len() {
                assert(after[m] == before[m]);
            }
        }
    }
}

proof fn lemma_last_result(history: Seq<ChatEntry>, n: int, tool_call_id: Seq<char>)
    requires
        n <= history.len(),
    ensures
        last_result(history, n, tool_call_id) matches Some(r) ==> 0 <= r < n && todo_result(
            history[r],
            tool_call_id,
        ) && forall|j: int| r < j < n ==> !todo_result(#[trigger] history[j], tool_call_id),
        last_result(history, n, tool_call_id) is None ==> forall|j: int|
            0 <= j < n ==> !todo_result(#[trigger] history[j], tool_call_id),
    decreases n,
{
    if n > 0 && !todo_result(history[n - 1], tool_call_id) {
        lemma_last_result(history, n - 1, tool_call_id);
    }
}

/// Whether the change excludes the entry.
pub open spec fn excludes(m: history::MutationView, id: ChatEntryId) -> bool {
    m matches history::MutationView::SetContextOverride { entry_id, value, .. } && entry_id == id
        && value == ContextOverride::ForcedExclude
}

/// Whether the change is one of those that can be asked for the entry.
spec fn asked_of(entry: ChatEntry, worker: Seq<char>, m: history::MutationView) -> bool {
    inclusion(entry, worker).contains(m) || superseded(entry, worker).contains(m) || exclusion(
        entry,
        worker,
    ).contains(m)
}

/// What `part` asks for the pair of the call at `c` is asked for the call or
/// for its result.
proof fn lemma_pair_part(
    history: Seq<ChatEntry>,
    c: int,
    part: spec_fn(ChatEntry) -> Seq<history::MutationView>,
    m: history::MutationView,
) -> (i: int)
    requires
        0 <= c < history.len(),
        (part(history[c]) + match result_of(history, c) {
            Some(r) => part(history[r]),
            None => Seq::empty(),
        }).contains(m),
    ensures
        0 <= i < history.len(),
        part(history[i]).contains(m),
        i == c || history[i].kind is ToolResult,
        i == c || result_of(history, c) == Some(i),
{
    let call_part = part(history[c]);
    let all = call_part + match result_of(history, c) {
        Some(r) => part(history[r]),
        None => Seq::empty(),
    };
    let x = choose|x: int| 0 <= x < all.len() && all[x] == m;
    lemma_last_result(history, history.len() as int, history[c].kind->ToolCall_id@);
    if x < call_part.len() {
        assert(call_part[x] == m);
        c
    } else {
        let r = result_of(history, c).unwrap();
        assert(part(history[r])[x - call_part.len()] == m);
        r
    }
}

/// Each change is asked for one half of a pair: an inclusion for the latest
/// one, a withdrawal for the one before it, an exclusion for an older one.
proof fn lemma_change_source(
    history: Seq<ChatEntry>,
    min_age: usize,
    worker: Seq<char>,
    protect_latest: bool,
    m: history::MutationView,
) -> (origin: (int, int))
    requires
        changes(history, min_age, worker, protect_latest).contains(m),
    ensures
        ({
            let (x, i) = origin;
            let calls = todo_calls(history, history.len() as int);
            &&& 0 <= x < calls.len()
            &&& 0 <= i < history.len()
            &&& i == calls[x] || result_of(history, calls[x]) == Some(i)
            &&& {
                ||| protect_latest && x == calls.len() - 1 && inclusion(
                    history[i],
                    worker,
                ).contains(m) && result_of(history, calls[x]) is Some
                ||| protect_latest && x == calls.len() - 2 && superseded(
                    history[i],
                    worker,
                ).contains(m)
                ||| x < older_count(calls.len(), protect_latest) && min_age::age(
                    history.len() as usize,
                    calls[x] as usize,
                ) >= min_age && exclusion(history[i], worker).contains(m)
            }
        }),
{
    let len = history.len() as int;
    let calls = todo_calls(history, len);
    let n = calls.len() as int;
    lemma_todo_calls(history, len);
    let all = changes(history, min_age, worker, protect_latest);
    let x = choose|x: int| 0 <= x < all.len() && all[x] == m;
    let latest = if protect_latest && n >= 1 {
        pair_inclusions(history, calls[n - 1], worker)
    } else {
        Seq::empty()
    };
    let previous = if protect_latest && n >= 2 {
        pair_superseded(history, calls[n - 2], worker)
    } else {
        Seq::empty()
    };
    let f = older_exclusions(history, min_age, worker);
    let count = older_count(n as nat, protect_latest);
    if x < latest.len() {
        assert(latest[x] == m);
        (n - 1, lemma_pair_part(history, calls[n - 1], |e: ChatEntry| inclusion(e, worker), m))
    } else if x < latest.len() + previous.len() {
        assert(previous[x - latest.len()] == m);
        (n - 2, lemma_pair_part(history, calls[n - 2], |e: ChatEntry| superseded(e, worker), m))
    } else {
        let older = history::per_index(count, f);
        assert(older[x - latest.len() - previous.len()] == m);
        history::lemma_per_index_contains(count, f, m);
        let k = choose|k: int| 0 <= k < count && (#[trigger] f(k)).contains(m);
        (k, lemma_pair_part(history, calls[k], |e: ChatEntry| exclusion(e, worker), m))
    }
}

/// Each change is asked for some entry: an inclusion, or a change of a `todo_`
/// call older than the most recent one or of a result.
proof fn lemma_change_origin(
    history: Seq<ChatEntry>,
    min_age: usize,
    worker: Seq<char>,
    protect_latest: bool,
    m: history::MutationView,
) -> (i: int)
    requires
        changes(history, min_age, worker, protect_latest).contains(m),
    ensures
        0 <= i < history.len(),
        asked_of(history[i], worker, m),
        inclusion(history[i], worker).contains(m) || history[i].kind is ToolResult || i
            < todo_calls(history, history.len() as int).last(),
{
    let calls = todo_calls(history, history.len() as int);
    lemma_todo_calls(history, history.len() as int);
    let (x, i) = lemma_change_source(history, min_age, worker, protect_latest, m);
    assert(calls.last() == calls[calls.len() - 1]);
    lemma_last_result(history, history.len() as int, history[calls[x]].kind->ToolCall_id@);
    i
}

/// What the user has pinned or excluded is never force-included.
pub proof fn lemma_inclusions_respect_user(
    history: Seq<ChatEntry>,
    min_age: usize,
    worker: Seq<char>,
    protect_latest: bool,
    m: history::MutationView,
    i: int,
)
    requires
        history::distinct_ids(history),
        changes(history, min_age, worker, protect_latest).contains(m),
        0 <= i < history.len(),
        history[i].pinned() || history[i].user_force_excluded(),
    ensures
        m != history::worker_sets(history[i].id, ContextOverride::ForcedInclude, worker),
{
    let origin = lemma_change_origin(history, min_age, worker, protect_latest, m);
    if m == history::worker_sets(history[i].id, ContextOverride::ForcedInclude, worker) {
        assert(history[origin].id == history[i].id);
        assert(origin == i);
    }
}

/// An entry that the user or another worker has force-included is left alone.
pub proof fn lemma_foreign_inclusion_stays(
    history: Seq<ChatEntry>,
    min_age: usize,
    worker: Seq<char>,
    protect_latest: bool,
    m: history::MutationView,
    i: int,
)
    requires
        history::distinct_ids(history),
        changes(history, min_age, worker, protect_latest).contains(m),
        0 <= i < history.len(),
        history[i].context_override == ContextOverride::ForcedInclude,
        !included_by(history[i], worker),
    ensures
        !(m matches history::MutationView::SetContextOverride { entry_id, .. } && entry_id
            == history[i].id),
{
    let origin = lemma_change_origin(history, min_age, worker, protect_latest, m);
    assert(m matches history::MutationView::SetContextOverride { entry_id, .. } && entry_id
        == history[origin].id);
    if history[origin].id == history[i].id {
        assert(origin == i);
    }
}

/// The most recent `todo_` call is never excluded.
pub proof fn lemma_latest_call_stays(
    history: Seq<ChatEntry>,
    min_age: usize,
    worker: Seq<char>,
    protect_latest: bool,
    m: history::MutationView,
)
    requires
        history::distinct_ids(history),
        todo_calls(history, history.len() as int).len() > 0,
        changes(history, min_age, worker, protect_latest).contains(m),
    ensures
        !excludes(m, history[todo_calls(history, history.len() as int).last()].id),
{
    let calls = todo_calls(history, history.len() as int);
    lemma_todo_calls(history, history.len() as int);
    let last = calls.last();
    assert(last == calls[calls.len() - 1]);
    let origin = lemma_change_origin(history, min_age, worker, protect_latest, m);
    if excludes(m, history[last].id) {
        assert(history[origin].id == history[last].id);
    }
}

/// Without `protect_latest`, the worker asks for nothing more once the changes
/// are made.
pub proof fn lemma_exclusions_idempotent(history: Seq<ChatEntry>, min_age: usize, worker: Seq<char>)
    ensures
        changes(
            history::with_overrides(history, changes(history, min_age, worker, false)),
            min_age,
            worker,
            false,
        ).len() == 0,
{
    let len = history.len() as int;
    let asked = changes(history, min_age, worker, false);
    let calls = todo_calls(history, len);
    let count = older_count(calls.len(), false);
    let f = older_exclusions(history, min_age, worker);
    lemma_todo_calls(history, len);
    assert(asked =~= history::per_index(count, f));
    assert forall|k: int| 0 <= k < asked.len() implies (#[trigger] asked[k] matches
        history::MutationView::SetContextOverride { value, .. } && value
        == ContextOverride::ForcedExclude) by {
        assert(asked.contains(asked[k]));
        history::lemma_per_index_contains(count, f, asked[k]);
        let j = choose|j: int| 0 <= j < count && (#[trigger] f(j)).contains(asked[k]);
        let i = lemma_pair_part(history, calls[j], |e: ChatEntry| exclusion(e, worker), asked[k]);
        assert(exclusion(history[i], worker).contains(asked[k]));
    }
    let later = history::with_overrides(history, asked);
    history::lemma_with_overrides(history, asked, ContextOverride::ForcedExclude);
    lemma_todo_calls_stable(history, later, len);
    let g = older_exclusions(later, min_age, worker);
    assert forall|k: int| 0 <= k < count implies (#[trigger] g(k)).len() == 0 by {
        let c = calls[k];
        let id = history[c].kind->ToolCall_id@;
        assert(later[c].kind == history[c].kind);
        lemma_last_result_stable(history, later, len, id);
        lemma_last_result(history, len, id);
        if min_age::age(history.len() as usize, c as usize) >= min_age {
            let here = f(k);
            let call_part = exclusion(history[c], worker);
            if !history[c].protected_from_prune() {
                let m = history::worker_excludes(history[c].id, worker);
                assert(call_part[0] == m && here[0] == m);
                history::lemma_asked_is_targeted(count, f, k, m, history[c].id);
            }
            if let Some(r) = result_of(history, c) {
                if !history[r].protected_from_prune() {
                    let m = history::worker_excludes(history[r].id, worker);
                    assert(exclusion(history[r], worker)[0] == m);
                    assert(here[call_part.len() as int] == m);
                    history::lemma_asked_is_targeted(count, f, k, m, history[r].id);
                }
                assert(later[r].protected_from_prune());
            }
            assert(later[c].protected_from_prune());
        }
    }
    history::lemma_per_index_empty(count, g);
    assert(changes(later, min_age, worker, false) =~= history::per_index(count, g));
}

proof fn lemma_todo_calls_stable(history: Seq<ChatEntry>, later: Seq<ChatEntry>, n: int)
    requires
        later.len() == history.len(),
        n <= history.len(),
        forall|i: int| 0 <= i < history.len() ==> later[i].kind == (#[trigger] history[i]).kind,
    ensures
        todo_calls(later, n) == todo_calls(history, n),
    decreases n,
{
    if n > 0 {
        lemma_todo_calls_stable(history, later, n - 1);
        assert(later[n - 1].kind == history[n - 1].kind);
    }
}

proof fn lemma_last_result_stable(
    history: Seq<ChatEntry>,
    later: Seq<ChatEntry>,
    n: int,
    id: Seq<char>,
)
    requires
        later.len() == history.len(),
        n <= history.len(),
        forall|i: int| 0 <= i < history.len() ==> later[i].kind == (#[trigger] history[i]).kind,
    ensures
        last_result(later, n, id) == last_result(history, n, id),
    decreases n,
{
    if n > 0 {
        lemma_last_result_stable(history, later, n - 1, id);
        assert(later[n - 1].kind == history[n - 1].kind);
    }
}

/// Whether the entry calls a tool of the task list.
pub open spec fn lists_tasks(history: Seq<ChatEntry>, c: int) -> bool {
    &&& 0 <= c < history.len()
    &&& history[c].kind matches ChatEntryKind::ToolCall { name, .. } && "todo_"@.is_prefix_of(name@)
}

/// Whether `r` is the result of the task-list call at `c`: the last one of a
/// task-list tool with the call's id.
pub open spec fn tasks_listed(history: Seq<ChatEntry>, c: int, r: int) -> bool {
    &&& lists_tasks(history, c)
    &&& 0 <= r < history.len()
    &&& history[c].kind matches ChatEntryKind::ToolCall { id: asked, .. } && {
        &&& history[r].kind matches ChatEntryKind::ToolResult { id, name, .. } && id@ == asked@
            && "todo_"@.is_prefix_of(name@)
        &&& forall|j: int|
            r < j < history.len() ==> !((#[trigger] history[j]).kind matches
                ChatEntryKind::ToolResult { id, name, .. } && id@ == asked@
                && "todo_"@.is_prefix_of(name@))
    }
}

/// Whether `k` is the call at `c` or its result.
pub open spec fn half_of(history: Seq<ChatEntry>, c: int, k: int) -> bool {
    lists_tasks(history, c) && k == c || tasks_listed(history, c, k)
}

/// Whether no task-list call stands strictly between the two indices.
pub open spec fn no_call_between(history: Seq<ChatEntry>, c: int, d: int) -> bool {
    forall|j: int| c < j < d ==> !(#[trigger] lists_tasks(history, j))
}

/// Whether exactly one task-list call follows the one at `c`.
pub open spec fn next_to_current(history: Seq<ChatEntry>, c: int) -> bool {
    exists|d: int|
        c < d && #[trigger] lists_tasks(history, d) && no_call_between(history, c, d)
            && no_call_between(history, d, history.len() as int)
}

/// Whether the worker itself was the last to change the override, and included
/// the entry.
pub open spec fn own_inclusion(entry: ChatEntry, worker: Seq<char>) -> bool {
    &&& entry.context_history@.len() > 0
    &&& ({
        let last = entry.context_history@[entry.context_history@.len() - 1];
        last.to == ContextOverride::ForcedInclude && (last.source matches ChangeSource::Worker {
            name,
        } && name@ == worker)
    })
}

/// The change by which the worker sets the override of the entry at `k`.
pub open spec fn sets(
    history: Seq<ChatEntry>,
    k: int,
    value: ContextOverride,
    worker: Seq<char>,
) -> history::MutationView {
    history::MutationView::SetContextOverride {
        entry_id: history[k].id,
        value,
        source: chat_entry::ChangeSourceView::Worker { name: worker },
    }
}

proof fn lemma_calls_are_task_lists(history: Seq<ChatEntry>)
    ensures
        forall|c: int| #[trigger]
            lists_tasks(history, c) <==> todo_calls(history, history.len() as int).contains(c),
        forall|c: int, r: int|
            lists_tasks(history, c) ==> (#[trigger] tasks_listed(history, c, r) <==> result_of(
                history,
                c,
            ) == Some(r)),
{
    let len = history.len() as int;
    let calls = todo_calls(history, len);
    lemma_todo_calls(history, len);
    assert forall|c: int| #[trigger] lists_tasks(history, c) <==> calls.contains(c) by {
        if lists_tasks(history, c) {
            assert(todo_call(history[c]));
        }
        if calls.contains(c) {
            let k = choose|k: int| 0 <= k < calls.len() && calls[k] == c;
            assert(calls[k] == c);
        }
    }
    assert forall|c: int, r: int| lists_tasks(history, c) implies (#[trigger] tasks_listed(
        history,
        c,
        r,
    ) <==> result_of(history, c) == Some(r)) by {
        let asked = history[c].kind->ToolCall_id@;
        lemma_last_result(history, len, asked);
        if tasks_listed(history, c, r) {
            assert(todo_result(history[r], asked));
            let found = last_result(history, len, asked).unwrap();
            assert(todo_result(history[found], asked));
        }
        if result_of(history, c) == Some(r) {
            assert(todo_result(history[r], asked));
            assert forall|j: int| r < j < history.len() implies !((
            #[trigger] history[j]).kind matches ChatEntryKind::ToolResult { id, name, .. } && id@
                == asked && "todo_"@.is_prefix_of(name@)) by {
                assert(!todo_result(history[j], asked));
            }
        }
    }
}

/// With `protect_latest`, the current task list is kept: the last task-list
/// call and its result are force-included, unless they are pinned, were
/// excluded by the user or are included already. A call without a result is
/// not.
pub proof fn lemma_current_list_is_included(
    history: Seq<ChatEntry>,
    min_age: usize,
    worker: Seq<char>,
    c: int,
    r: int,
    k: int,
)
    requires
        tasks_listed(history, c, r),
        no_call_between(history, c, history.len() as int),
        k == c || k == r,
        history[k].pin_position is None,
        history[k].context_override != ContextOverride::ForcedInclude,
        !(history[k].context_override == ContextOverride::ForcedExclude
            && history[k].context_history@.len() > 0
            && history[k].context_history@[history[k].context_history@.len() - 1].source
            == ChangeSource::User),
    ensures
        changes(history, min_age, worker, true).contains(
            sets(history, k, ContextOverride::ForcedInclude, worker),
        ),
{
    let calls = todo_calls(history, history.len() as int);
    let n = calls.len() as int;
    lemma_todo_calls(history, history.len() as int);
    lemma_calls_are_task_lists(history);
    assert(calls.contains(c));
    let x = choose|x: int| 0 <= x < n && calls[x] == c;
    if x < n - 1 {
        assert(calls.contains(calls[n - 1]));
        assert(lists_tasks(history, calls[n - 1]));
    }
    let m = sets(history, k, ContextOverride::ForcedInclude, worker);
    let latest = pair_inclusions(history, c, worker);
    let call_part = inclusion(history[c], worker);
    if k == c {
        assert(latest[0] == m);
        assert(changes(history, min_age, worker, true)[0] == m);
    } else {
        assert(latest[call_part.len() as int] == m);
        assert(changes(history, min_age, worker, true)[call_part.len() as int] == m);
    }
}

/// With `protect_latest`, the list before the current one is taken out at
/// once, whatever its age: each half is excluded, unless the user or another
/// worker included it.
pub proof fn lemma_superseded_list_is_excluded(
    history: Seq<ChatEntry>,
    min_age: usize,
    worker: Seq<char>,
    c: int,
    current: int,
    k: int,
)
    requires
        lists_tasks(history, current),
        no_call_between(history, current, history.len() as int),
        half_of(history, c, k),
        c < current,
        no_call_between(history, c, current),
        history[k].context_override != ContextOverride::ForcedInclude || own_inclusion(
            history[k],
            worker,
        ),
    ensures
        changes(history, min_age, worker, true).contains(
            sets(history, k, ContextOverride::ForcedExclude, worker),
        ),
        history[k].context_override == ContextOverride::ForcedInclude ==> exists|x: int|
            0 <= x < changes(history, min_age, worker, true).len() - 1 && #[trigger] changes(
                history,
                min_age,
                worker,
                true,
            )[x] == sets(history, k, ContextOverride::Default, worker) && changes(
                history,
                min_age,
                worker,
                true,
            )[x + 1] == sets(history, k, ContextOverride::ForcedExclude, worker),
{
    let calls = todo_calls(history, history.len() as int);
    let n = calls.len() as int;
    lemma_todo_calls(history, history.len() as int);
    lemma_calls_are_task_lists(history);
    assert(calls.contains(current) && calls.contains(c));
    let y = choose|y: int| 0 <= y < n && calls[y] == current;
    if y < n - 1 {
        assert(calls.contains(calls[n - 1]));
        assert(lists_tasks(history, calls[n - 1]));
    }
    let x = choose|x: int| 0 <= x < n && calls[x] == c;
    if x < n - 2 {
        assert(calls.contains(calls[n - 2]));
        assert(lists_tasks(history, calls[n - 2]));
    }
    assert(x == n - 2);
    let all = changes(history, min_age, worker, true);
    let latest = pair_inclusions(history, current, worker);
    let previous = pair_superseded(history, c, worker);
    let own = superseded(history[k], worker);
    let start = if k == c {
        0int
    } else {
        superseded(history[c], worker).len() as int
    };
    assert forall|z: int| 0 <= z < own.len() implies all[latest.len() + start + z] == own[z] by {
        assert(previous[start + z] == own[z]);
    }
    assert(own[own.len() - 1] == sets(history, k, ContextOverride::ForcedExclude, worker));
    assert(all[latest.len() + start + own.len() - 1] == own[own.len() - 1]);
    if history[k].context_override == ContextOverride::ForcedInclude {
        assert(all[latest.len() + start] == own[0]);
        assert(all[latest.len() + start + 1] == own[1]);
    }
}

/// A list that newer ones follow, two with `protect_latest` and one without,
/// is taken out once at least `min_age` entries stand behind its call: each
/// half without an override is excluded.
pub proof fn lemma_old_list_is_excluded(
    history: Seq<ChatEntry>,
    min_age: usize,
    worker: Seq<char>,
    protect_latest: bool,
    c: int,
    d: int,
    e: int,
    k: int,
)
    requires
        history.len() <= usize::MAX,
        half_of(history, c, k),
        c < d,
        lists_tasks(history, d),
        protect_latest ==> d < e && lists_tasks(history, e),
        history.len() - c - 1 >= min_age,
        history[k].context_override == ContextOverride::Default,
    ensures
        changes(history, min_age, worker, protect_latest).contains(
            sets(history, k, ContextOverride::ForcedExclude, worker),
        ),
{
    let calls = todo_calls(history, history.len() as int);
    let n = calls.len() as int;
    lemma_todo_calls(history, history.len() as int);
    lemma_calls_are_task_lists(history);
    assert(calls.contains(c) && calls.contains(d));
    let x = choose|x: int| 0 <= x < n && calls[x] == c;
    let y = choose|y: int| 0 <= y < n && calls[y] == d;
    if y <= x {
        assert(calls[y] <= calls[x]);
    }
    if protect_latest {
        assert(calls.contains(e));
        let z = choose|z: int| 0 <= z < n && calls[z] == e;
        if z <= y {
            assert(calls[z] <= calls[y]);
        }
    }
    let f = older_exclusions(history, min_age, worker);
    let count = older_count(calls.len(), protect_latest);
    assert(x < count);
    let m = sets(history, k, ContextOverride::ForcedExclude, worker);
    let here = f(x);
    if k == c {
        assert(here[0] == m);
    } else {
        assert(here[exclusion(history[c], worker).len() as int] == m);
    }
    history::lemma_asked_is_targeted(count, f, x, m, history[k].id);
    let older = history::per_index(count, f);
    let all = changes(history, min_age, worker, protect_latest);
    let z = choose|z: int| 0 <= z < older.len() && older[z] == m;
    assert(all[all.len() - older.len() + z] == m);
}

/// Whether the change includes half `k` of the current list, which is neither
/// pinned nor excluded by the user nor included already.
pub open spec fn keeps_current(
    history: Seq<ChatEntry>,
    worker: Seq<char>,
    m: history::MutationView,
    c: int,
    k: int,
) -> bool {
    &&& m == sets(history, k, ContextOverride::ForcedInclude, worker)
    &&& no_call_between(history, c, history.len() as int)
    &&& exists|r: int| tasks_listed(history, c, r)
    &&& history[k].pin_position is None
    &&& history[k].context_override != ContextOverride::ForcedInclude
    &&& !(history[k].context_override == ContextOverride::ForcedExclude
        && history[k].context_history@.len() > 0
        && history[k].context_history@[history[k].context_history@.len() - 1].source
        == ChangeSource::User)
}

/// Whether the change takes back the worker's own inclusion of half `k` of the
/// list before the current one.
pub open spec fn withdraws(
    history: Seq<ChatEntry>,
    worker: Seq<char>,
    m: history::MutationView,
    c: int,
    k: int,
) -> bool {
    &&& m == sets(history, k, ContextOverride::Default, worker)
    &&& next_to_current(history, c)
    &&& history[k].context_override == ContextOverride::ForcedInclude
    &&& own_inclusion(history[k], worker)
}

/// Whether the change excludes half `k` of a list that a newer one follows:
/// the one before the current list where that is protected, or one that is old
/// and has no override.
pub open spec fn drops_stale(
    history: Seq<ChatEntry>,
    min_age: usize,
    worker: Seq<char>,
    protect_latest: bool,
    m: history::MutationView,
    c: int,
    k: int,
) -> bool {
    &&& m == sets(history, k, ContextOverride::ForcedExclude, worker)
    &&& exists|d: int| c < d && #[trigger] lists_tasks(history, d)
    &&& protect_latest && next_to_current(history, c) && (history[k].context_override
        != ContextOverride::ForcedInclude || own_inclusion(history[k], worker))
        || history[k].context_override == ContextOverride::Default && history.len() - c - 1
        >= min_age
}

/// Nothing else is asked for. An inclusion is for the current list, with
/// `protect_latest` alone; an override is only withdrawn from the list before
/// it, and only where this worker gave it; an exclusion is for a list that a
/// newer one follows, and hits no entry that anyone else has included.
pub proof fn lemma_only_stale_lists_change(
    history: Seq<ChatEntry>,
    min_age: usize,
    worker: Seq<char>,
    protect_latest: bool,
    m: history::MutationView,
) -> (origin: (int, int))
    requires
        history.len() <= usize::MAX,
        changes(history, min_age, worker, protect_latest).contains(m),
    ensures
        ({
            let (c, k) = origin;
            &&& half_of(history, c, k)
            &&& {
                ||| protect_latest && keeps_current(history, worker, m, c, k)
                ||| protect_latest && withdraws(history, worker, m, c, k)
                ||| drops_stale(history, min_age, worker, protect_latest, m, c, k)
            }
        }),
{
    let len = history.len() as int;
    let calls = todo_calls(history, len);
    let n = calls.len() as int;
    lemma_todo_calls(history, len);
    lemma_calls_are_task_lists(history);
    let (x, k) = lemma_change_source(history, min_age, worker, protect_latest, m);
    let c = calls[x];
    assert(calls.contains(c));
    assert(lists_tasks(history, c));
    if k != c {
        assert(tasks_listed(history, c, k));
    }
    let last = calls[n - 1];
    assert(calls.contains(last));
    assert(lists_tasks(history, last));
    assert forall|j: int| last < j < len implies !(#[trigger] lists_tasks(history, j)) by {
        if lists_tasks(history, j) {
            let y = choose|y: int| 0 <= y < n && calls[y] == j;
            assert(calls[y] <= last);
        }
    }
    if x == n - 2 {
        assert forall|j: int| c < j < last implies !(#[trigger] lists_tasks(history, j)) by {
            if lists_tasks(history, j) {
                let y = choose|y: int| 0 <= y < n && calls[y] == j;
                if y < x {
                    assert(calls[y] < calls[x]);
                }
            }
        }
    }
    if let Some(r) = result_of(history, c) {
        assert(tasks_listed(history, c, r));
    }
    if x < n - 1 {
        assert(c < last);
    }
    let entry = history[k];
    if protect_latest && x == n - 2 {
        assert(next_to_current(history, c));
    }
    if protect_latest && x == n - 1 && inclusion(entry, worker).contains(m) && result_of(
        history,
        c,
    ) is Some {
        assert(inclusion(entry, worker)[0] == m);
        assert(keeps_current(history, worker, m, c, k));
    } else if protect_latest && x == n - 2 && superseded(entry, worker).contains(m) {
        let asked = superseded(entry, worker);
        let z = choose|z: int| 0 <= z < asked.len() && asked[z] == m;
        if z < asked.len() - 1 {
            assert(withdraws(history, worker, m, c, k));
        } else {
            assert(drops_stale(history, min_age, worker, protect_latest, m, c, k));
        }
    } else {
        assert(exclusion(entry, worker)[0] == m);
        assert(drops_stale(history, min_age, worker, protect_latest, m, c, k));
    }
    (c, k)
}

/// Each change of the worker keeps the current task list, takes back an
/// inclusion of the list before it, or drops a list that a newer one follows.
pub proof fn lemma_evaluate_changes_stale_lists_alone(
    worker: &TodoAutoPruneWorker,
    session_id: &SessionId,
    history: &[ChatEntry],
    mutations: Vec<HistoryMutation>,
    x: int,
) -> (origin: (int, int))
    requires
        call_ensures(TodoAutoPruneWorker::evaluate, (worker, session_id, history), mutations),
        0 <= x < mutations@.len(),
    ensures
        ({
            let (c, k) = origin;
            let m = mutations@[x]@;
            let name = "auto-prune-todo"@;
            let protect_latest = worker.config.protect_latest;
            &&& half_of(history@, c, k)
            &&& {
                ||| protect_latest && keeps_current(history@, name, m, c, k)
                ||| protect_latest && withdraws(history@, name, m, c, k)
                ||| drops_stale(
                    history@,
                    worker.config.min_age,
                    name,
                    protect_latest,
                    m,
                    c,
                    k,
                )
            }
        }),
{
    let views = history::mutation_views(mutations@);
    assert(history.len() == history@.len());
    assert(views[x] == mutations@[x]@);
    lemma_only_stale_lists_change(
        history@,
        worker.config.min_age,
        "auto-prune-todo"@,
        worker.config.protect_latest,
        views[x],
    )
}

/// An old list without an override that a newer one follows, and one more
/// where the latest is protected, is excluded with its result.
pub proof fn lemma_evaluate_drops_every_old_list(
    worker: &TodoAutoPruneWorker,
    session_id: &SessionId,
    history: &[ChatEntry],
    mutations: Vec<HistoryMutation>,
    c: int,
    d: int,
    e: int,
    k: int,
)
    requires
        call_ensures(TodoAutoPruneWorker::evaluate, (worker, session_id, history), mutations),
        half_of(history@, c, k),
        c < d,
        lists_tasks(history@, d),
        worker.config.protect_latest ==> d < e && lists_tasks(history@, e),
        history@.len() - c - 1 >= worker.config.min_age,
        history@[k].context_override == ContextOverride::Default,
    ensures
        exists|x: int|
            0 <= x < mutations@.len() && history::sets_override(
                #[trigger] mutations@[x],
                history@[k].id,
                ContextOverride::ForcedExclude,
                "auto-prune-todo"@,
            ),
{
    let name = "auto-prune-todo"@;
    assert(history.len() == history@.len());
    lemma_old_list_is_excluded(
        history@,
        worker.config.min_age,
        name,
        worker.config.protect_latest,
        c,
        d,
        e,
        k,
    );
    history::lemma_views_hold_changes(
        mutations@,
        history@[k].id,
        ContextOverride::ForcedExclude,
        name,
    );
}

/// Where the latest list is protected, it is included with its result unless
/// the user has pinned or excluded it.
pub proof fn lemma_evaluate_keeps_the_current_list(
    worker: &TodoAutoPruneWorker,
    session_id: &SessionId,
    history: &[ChatEntry],
    mutations: Vec<HistoryMutation>,
    c: int,
    r: int,
    k: int,
)
    requires
        call_ensures(TodoAutoPruneWorker::evaluate, (worker, session_id, history), mutations),
        worker.config.protect_latest,
        tasks_listed(history@, c, r),
        no_call_between(history@, c, history@.len() as int),
        k == c || k == r,
        history@[k].pin_position is None,
        history@[k].context_override != ContextOverride::ForcedInclude,
        !(history@[k].context_override == ContextOverride::ForcedExclude
            && history@[k].context_history@.len() > 0
            && history@[k].context_history@[history@[k].context_history@.len() - 1].source
            == ChangeSource::User),
    ensures
        exists|x: int|
            0 <= x < mutations@.len() && history::sets_override(
                #[trigger] mutations@[x],
                history@[k].id,
                ContextOverride::ForcedInclude,
                "auto-prune-todo"@,
            ),
{
    let name = "auto-prune-todo"@;
    lemma_current_list_is_included(history@, worker.config.min_age, name, c, r, k);
    history::lemma_views_hold_changes(
        mutations@,
        history@[k].id,
        ContextOverride::ForcedInclude,
        name,
    );
}

/// Where the latest list is protected, the one before it is excluded with its
/// result, unless somebody else has included it.
pub proof fn lemma_evaluate_drops_the_superseded_list(
    worker: &TodoAutoPruneWorker,
    session_id: &SessionId,
    history: &[ChatEntry],
    mutations: Vec<HistoryMutation>,
    c: int,
    current: int,
    k: int,
)
    requires
        call_ensures(TodoAutoPruneWorker::evaluate, (worker, session_id, history), mutations),
        worker.config.protect_latest,
        lists_tasks(history@, current),
        no_call_between(history@, current, history@.len() as int),
        half_of(history@, c, k),
        c < current,
        no_call_between(history@, c, current),
        history@[k].context_override != ContextOverride::ForcedInclude || own_inclusion(
            history@[k],
            "auto-prune-todo"@,
        ),
    ensures
        exists|x: int|
            0 <= x < mutations@.len() && history::sets_override(
                #[trigger] mutations@[x],
                history@[k].id,
                ContextOverride::ForcedExclude,
                "auto-prune-todo"@,
            ),
{
    let name = "auto-prune-todo"@;
    lemma_superseded_list_is_excluded(history@, worker.config.min_age, name, c, current, k);
    history::lemma_views_hold_changes(
        mutations@,
        history@[k].id,
        ContextOverride::ForcedExclude,
        name,
    );
}

} // verus!
