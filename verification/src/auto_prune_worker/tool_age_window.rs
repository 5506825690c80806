//! Takes tool calls and their results out of the prompt once they are older
//! than a fixed number of entries.
//!
//! The floor counts every entry of the raw history, so it does not depend on
//! what other workers have excluded. A pair whose result is missing or still
//! pending is never pruned.

use crate::auto_prune_worker::tool_pairs;
use crate::auto_prune_worker::tool_pairs::{find_result_from, is_id_protected};
use crate::chat_entry;
use crate::chat_entry::{ChatEntry, ChatEntryKind, ContextOverride, SessionId, ToolResultStatus};
use crate::history;
use crate::history::HistoryMutation;
use vstd::prelude::*;

verus! {

/// Configuration of the tool-age-window worker.
#[derive(Clone, Copy, Debug, PartialEq, Eq, Structural)]
pub struct ToolAgeWindowAutoPruneConfig {
    pub enabled: bool,
    /// How many entries at the end of the history are left alone; at least 1.
    pub min_age: usize,
}

/// The tool-age-window worker.
#[derive(Clone, Copy, Debug, PartialEq, Eq, Structural)]
pub struct ToolAgeWindowAutoPruneWorker {
    pub config: ToolAgeWindowAutoPruneConfig,
}

/// The index of the result of the call at `i`, if the pair is complete: the
/// first result after the call is there and not pending.
pub open spec fn completed_pair(history: Seq<ChatEntry>, i: int) -> Option<int> {
    match history[i].kind {
        ChatEntryKind::ToolCall { id, .. } => match tool_pairs::result_from(history, i + 1, id@) {
            None => None,
            Some(r) => if history[r].kind matches ChatEntryKind::ToolResult { status, .. } && status
                == ToolResultStatus::Pending {
                None
            } else {
                Some(r)
            },
        },
        _ => None,
    }
}

/// How many entries at the front of the history may be pruned.
pub open spec fn prune_region(history_len: nat, min_age: usize) -> int {
    let floor = if min_age == 0 {
        1
    } else {
        min_age as int
    };
    if history_len <= floor {
        0
    } else {
        history_len - floor
    }
}

/// The changes asked for at index `i`: those halves of a complete pair that
/// have no override.
pub open spec fn exclusions_at(history: Seq<ChatEntry>, worker: Seq<char>) -> spec_fn(int) -> Seq<
    history::MutationView,
> {
    |i: int|
        match completed_pair(history, i) {
            Some(r) => {
                let call = if history[i].protected_from_prune() {
                    Seq::empty()
                } else {
                    seq![history::worker_excludes(history[i].id, worker)]
                };
                let result = if tool_pairs::id_protected(history, i + 1, history[r].id) {
                    Seq::empty()
                } else {
                    seq![history::worker_excludes(history[r].id, worker)]
                };
                call + result
            },
            None => Seq::empty(),
        }
}

/// All changes the worker asks for.
pub open spec fn exclusions(history: Seq<ChatEntry>, min_age: usize, worker: Seq<char>) -> Seq<
    history::MutationView,
> {
    history::per_index(prune_region(history.len(), min_age), exclusions_at(history, worker))
}

/// Finds the completed result of a tool call behind index `call_idx`.
fn find_completed_matching_result(
    history: &[ChatEntry],
    call_idx: usize,
    tool_call_id: &String,
) -> (found: Option<usize>)
    requires
        call_idx < history@.len(),
        history@[call_idx as int].kind matches ChatEntryKind::ToolCall { id, .. } && id@
            == tool_call_id@,
    ensures
        found matches Some(r) ==> completed_pair(history@, call_idx as int) == Some(r as int) && r
            < history@.len(),
        found is None ==> completed_pair(history@, call_idx as int) is None,
{
    assert(call_idx < history.len());
    match find_result_from(history, call_idx + 1, tool_call_id) {
        None => None,
        Some(r) => {
            if let ChatEntryKind::ToolResult { status, .. } = &history[r].kind {
                if *status == ToolResultStatus::Pending {
                    return None;
                }
            }
            Some(r)
        },
    }
}

/// The index of the first entry behind the prune region, or `None` when every
/// entry is protected.
pub fn compute_prune_region_start(history: &[ChatEntry], min_age: usize) -> (start: Option<usize>)
    ensures
        start is None <==> prune_region(history@.len(), min_age) == 0,
        start matches Some(n) ==> n == prune_region(history@.len(), min_age),
{
    let floor: usize = if min_age == 0 {
        1
    } else {
        min_age
    };
    if history.len() <= floor {
        return None;
    }
    Some(history.len() - floor)
}

/// Asks to exclude every complete tool pair whose call lies in the prune
/// region, half by half where no override is set.
pub fn build_age_window_mutations(
    history: &[ChatEntry],
    min_age: usize,
    worker_name: &str,
) -> (mutations: Vec<HistoryMutation>)
    ensures
        history::mutation_views(mutations@) == exclusions(history@, min_age, worker_name@),
{
    let mut mutations: Vec<HistoryMutation> = Vec::new();
    let region: usize = match compute_prune_region_start(history, min_age) {
        None => {
            assert(history::mutation_views(mutations@) =~= Seq::empty());
            return mutations;
        },
        Some(region) => region,
    };
    let ghost f = exclusions_at(history@, worker_name@);
    let mut i: usize = 0;
    while i < region
        invariant
            i <= region <= history@.len(),
            f == exclusions_at(history@, worker_name@),
            history::mutation_views(mutations@) == history::per_index(i as int, f),
        decreases region - i,
    {
        let ghost before = mutations@;
        let entry = &history[i];
        if let ChatEntryKind::ToolCall { id, .. } = &entry.kind {
            if let Some(r) = find_completed_matching_result(history, i, id) {
                let result_id = history[r].id;
                if !entry.is_protected_from_prune() {
                    let call = HistoryMutation::worker_exclude(entry.id, worker_name);
                    proof {
                        history::lemma_push_view(mutations@, call);
                    }
                    mutations.push(call);
                }
                if !is_id_protected(history, i + 1, result_id) {
                    let result = HistoryMutation::worker_exclude(result_id, worker_name);
                    proof {
                        history::lemma_push_view(mutations@, result);
                    }
                    mutations.push(result);
                }
            }
        }
        assert(history::mutation_views(mutations@) =~= history::mutation_views(before) + f(
            i as int,
        ));
        i += 1;
    }
    mutations
}

impl ToolAgeWindowAutoPruneWorker {
    /// The worker's name, as recorded with each change.
    pub fn name(&self) -> (name: &'static str)
        ensures
            name@ == "auto-prune-tool-age-window"@,
    {
        "auto-prune-tool-age-window"
    }

    /// Asks to exclude the tool pairs that are older than the window.
    pub fn evaluate(&self, _session_id: &SessionId, history: &[ChatEntry]) -> (mutations: Vec<
        HistoryMutation,
    >)
        ensures
            history::mutation_views(mutations@) == exclusions(
                history@,
                self.config.min_age,
                "auto-prune-tool-age-window"@,
            ),
    {
        build_age_window_mutations(history, self.config.min_age, self.name())
    }
}

/// Only complete pairs whose call lies in the prune region are touched, and
/// only halves without an override.
pub proof fn lemma_exclusions_are_old_pairs(
    history: Seq<ChatEntry>,
    min_age: usize,
    worker: Seq<char>,
    m: history::MutationView,
)
    requires
        exclusions(history, min_age, worker).contains(m),
    ensures
        exists|i: int|
            0 <= i < prune_region(history.len(), min_age) && (#[trigger] completed_pair(history, i)
                matches Some(r) && (m == history::worker_excludes(history[i].id, worker)
                && !history[i].protected_from_prune() || m == history::worker_excludes(
                history[r].id,
                worker,
            ) && !tool_pairs::id_protected(history, i + 1, history[r].id))),
{
    let f = exclusions_at(history, worker);
    let n = prune_region(history.len(), min_age);
    history::lemma_per_index_contains(n, f, m);
    let i = choose|i: int| 0 <= i < n && (#[trigger] f(i)).contains(m);
    assert(completed_pair(history, i) is Some);
    let r = completed_pair(history, i).unwrap();
    let asked = f(i);
    let k = choose|k: int| 0 <= k < asked.len() && asked[k] == m;
    if asked.len() == 2 {
        assert(asked[0] == history::worker_excludes(history[i].id, worker));
        assert(asked[1] == history::worker_excludes(history[r].id, worker));
    }
}

/// A complete pair without overrides whose call lies in the prune region is
/// excluded as a whole, wherever its result stands.
pub proof fn lemma_old_pair_excluded_whole(
    history: Seq<ChatEntry>,
    min_age: usize,
    worker: Seq<char>,
    i: int,
)
    requires
        0 <= i < prune_region(history.len(), min_age),
        completed_pair(history, i) matches Some(r) && !tool_pairs::id_protected(
            history,
            i + 1,
            history[r].id,
        ),
        !history[i].protected_from_prune(),
    ensures
        exclusions(history, min_age, worker).contains(
            history::worker_excludes(history[i].id, worker),
        ),
        exclusions(history, min_age, worker).contains(
            history::worker_excludes(history[completed_pair(history, i).unwrap()].id, worker),
        ),
{
    let f = exclusions_at(history, worker);
    let n = prune_region(history.len(), min_age);
    let r = completed_pair(history, i).unwrap();
    let call = history::worker_excludes(history[i].id, worker);
    let result = history::worker_excludes(history[r].id, worker);
    let asked = f(i);
    assert(asked[0] == call);
    assert(asked[1] == result);
    assert(asked.contains(call) && asked.contains(result));
    history::lemma_per_index_contains(n, f, call);
    history::lemma_per_index_contains(n, f, result);
}

/// Once the changes are made, the worker asks for nothing more.
pub proof fn lemma_exclusions_idempotent(
    history: Seq<ChatEntry>,
    min_age: usize,
    worker: Seq<char>,
)
    ensures
        exclusions(
            history::with_overrides(history, exclusions(history, min_age, worker)),
            min_age,
            worker,
        ).len() == 0,
{
    let asked = exclusions(history, min_age, worker);
    let f = exclusions_at(history, worker);
    let n = prune_region(history.len(), min_age);
    assert forall|k: int| 0 <= k < asked.len() implies (#[trigger] asked[k] matches
        history::MutationView::SetContextOverride { value, .. } && value
        == ContextOverride::ForcedExclude) by {
        assert(asked.contains(asked[k]));
        lemma_exclusions_are_old_pairs(history, min_age, worker, asked[k]);
    }
    let later = history::with_overrides(history, asked);
    history::lemma_with_overrides(history, asked, ContextOverride::ForcedExclude);
    assert(tool_pairs::more_overridden(history, later));
    let g = exclusions_at(later, worker);
    assert forall|i: int| 0 <= i < n implies (#[trigger] g(i)).len() == 0 by {
        if completed_pair(later, i) is Some {
            assert(later[i].kind == history[i].kind);
            if let ChatEntryKind::ToolCall { id, .. } = history[i].kind {
                tool_pairs::lemma_result_from_stable(history, later, i + 1, id@);
                tool_pairs::lemma_result_from(history, i + 1, id@);
                let r = tool_pairs::result_from(history, i + 1, id@).unwrap();
                assert(later[r].id == history[r].id && later[r].kind == history[r].kind);
                let here = f(i);
                if !history[i].protected_from_prune() {
                    let call = history::worker_excludes(history[i].id, worker);
                    assert(here[0] == call);
                    history::lemma_asked_is_targeted(n, f, i, call, history[i].id);
                }
                if !tool_pairs::id_protected(history, i + 1, history[r].id) {
                    let result = history::worker_excludes(history[r].id, worker);
                    assert(here[here.len() - 1] == result);
                    history::lemma_asked_is_targeted(n, f, i, result, history[r].id);
                    assert forall|j: int|
                        0 <= j < later.len() && (#[trigger] later[j]).id
                            == history[r].id implies later[j].protected_from_prune() by {
                        assert(history[j].id == later[j].id);
                    }
                    tool_pairs::lemma_id_protected_when_all_are(later, i + 1, history[r].id, r);
                } else {
                    tool_pairs::lemma_id_protected_grows(history, later, i + 1, history[r].id);
                }
            }
        }
    }
    history::lemma_per_index_empty(n, g);
}

/// The worker excludes nothing but halves without an override of tool pairs
/// that are complete and old: a call with at least the window behind it, and
/// the first result with its id, which is no longer pending.
pub proof fn lemma_excluded_means_old_and_complete(
    history: Seq<ChatEntry>,
    min_age: usize,
    worker: Seq<char>,
    m: history::MutationView,
) -> (pair: (int, int))
    requires
        history::distinct_ids(history),
        exclusions(history, min_age, worker).contains(m),
    ensures
        ({
            let (c, r) = pair;
            &&& tool_pairs::answered_by(history, c, r)
            &&& history.len() - c > min_age && history.len() - c > 1
            &&& history[r].kind matches ChatEntryKind::ToolResult { status, .. } && status
                != ToolResultStatus::Pending
            &&& exists|k: int|
                (k == c || k == r) && (#[trigger] history[k]).context_override
                    == ContextOverride::Default && m
                    == (history::MutationView::SetContextOverride {
                    entry_id: history[k].id,
                    value: ContextOverride::ForcedExclude,
                    source: chat_entry::ChangeSourceView::Worker { name: worker },
                })
        }),
{
    lemma_exclusions_are_old_pairs(history, min_age, worker, m);
    let c = choose|i: int|
        0 <= i < prune_region(history.len(), min_age) && (#[trigger] completed_pair(history, i)
            matches Some(r) && (m == history::worker_excludes(history[i].id, worker)
            && !history[i].protected_from_prune() || m == history::worker_excludes(
            history[r].id,
            worker,
        ) && !tool_pairs::id_protected(history, i + 1, history[r].id)));
    let r = completed_pair(history, c).unwrap();
    tool_pairs::lemma_answered_by(history, c);
    assert(tool_pairs::answered_by(history, c, r));
    tool_pairs::lemma_id_protected_distinct(history, c + 1, r);
    assert(history[c].protected_from_prune() || m == history::worker_excludes(
        history[c].id,
        worker,
    ) || m == history::worker_excludes(history[r].id, worker));
    if !(m == history::worker_excludes(history[c].id, worker)
        && !history[c].protected_from_prune()) {
        assert(history[r].context_override == ContextOverride::Default);
    }
    (c, r)
}

/// A tool pair with at least the window behind its call, whose result is no
/// longer pending, loses each half that has no override: it does not matter
/// whether the tool succeeded or failed, nor which tool it was.
pub proof fn lemma_old_and_complete_is_excluded(
    history: Seq<ChatEntry>,
    min_age: usize,
    worker: Seq<char>,
    c: int,
    r: int,
)
    requires
        history::distinct_ids(history),
        tool_pairs::answered_by(history, c, r),
        history.len() - c > min_age,
        history[r].kind matches ChatEntryKind::ToolResult { status, .. } && status
            != ToolResultStatus::Pending,
    ensures
        forall|k: int|
            (k == c || k == r) && (#[trigger] history[k]).context_override
                == ContextOverride::Default ==> exclusions(history, min_age, worker).contains(
                history::MutationView::SetContextOverride {
                    entry_id: history[k].id,
                    value: ContextOverride::ForcedExclude,
                    source: chat_entry::ChangeSourceView::Worker { name: worker },
                },
            ),
{
    tool_pairs::lemma_answered_by(history, c);
    tool_pairs::lemma_id_protected_distinct(history, c + 1, r);
    assert(completed_pair(history, c) == Some(r));
    let f = exclusions_at(history, worker);
    let n = prune_region(history.len(), min_age);
    let here = f(c);
    let call = history::worker_excludes(history[c].id, worker);
    let result = history::worker_excludes(history[r].id, worker);
    if history[c].context_override == ContextOverride::Default {
        assert(here[0] == call);
        history::lemma_asked_is_targeted(n, f, c, call, history[c].id);
    }
    if history[r].context_override == ContextOverride::Default {
        assert(here[here.len() - 1] == result);
        history::lemma_asked_is_targeted(n, f, c, result, history[r].id);
    }
}

/// Whether the tool call at `c` is older than `min_age` and the result at `r`
/// is its answer and has come, be it a success or a failure.
pub open spec fn old_answer(history: Seq<ChatEntry>, min_age: usize, c: int, r: int) -> bool {
    &&& tool_pairs::answered_by(history, c, r)
    &&& history.len() - c > min_age
    &&& history[r].kind matches ChatEntryKind::ToolResult { status, .. } && status
        != ToolResultStatus::Pending
}

/// Each change of the worker excludes one half, still without an override, of
/// an old tool call and the result that has come for it.
pub proof fn lemma_evaluate_touches_old_answers_alone(
    worker: &ToolAgeWindowAutoPruneWorker,
    session_id: &SessionId,
    history: &[ChatEntry],
    mutations: Vec<HistoryMutation>,
    x: int,
) -> (found: (int, int, int))
    requires
        history::distinct_ids(history@),
        call_ensures(
            ToolAgeWindowAutoPruneWorker::evaluate,
            (worker, session_id, history),
            mutations,
        ),
        0 <= x < mutations@.len(),
    ensures
        ({
            let (c, r, k) = found;
            &&& old_answer(history@, worker.config.min_age, c, r)
            &&& k == c || k == r
            &&& history@[k].context_override == ContextOverride::Default
            &&& history::sets_override(
                mutations@[x],
                history@[k].id,
                ContextOverride::ForcedExclude,
                "auto-prune-tool-age-window"@,
            )
        }),
{
    let name = "auto-prune-tool-age-window"@;
    let views = history::mutation_views(mutations@);
    assert(views[x] == mutations@[x]@);
    let (c, r) = lemma_excluded_means_old_and_complete(
        history@,
        worker.config.min_age,
        name,
        views[x],
    );
    let k = choose|k: int|
        (k == c || k == r) && (#[trigger] history@[k]).context_override == ContextOverride::Default
            && views[x] == (history::MutationView::SetContextOverride {
            entry_id: history@[k].id,
            value: ContextOverride::ForcedExclude,
            source: chat_entry::ChangeSourceView::Worker { name },
        });
    history::lemma_override_view(
        mutations@[x],
        history@[k].id,
        ContextOverride::ForcedExclude,
        name,
    );
    (c, r, k)
}

/// Each half of an old tool call and the result that has come for it, be it a
/// success or a failure, is excluded unless it has an override.
pub proof fn lemma_evaluate_finds_every_old_answer(
    worker: &ToolAgeWindowAutoPruneWorker,
    session_id: &SessionId,
    history: &[ChatEntry],
    mutations: Vec<HistoryMutation>,
    c: int,
    r: int,
    k: int,
)
    requires
        history::distinct_ids(history@),
        call_ensures(
            ToolAgeWindowAutoPruneWorker::evaluate,
            (worker, session_id, history),
            mutations,
        ),
        old_answer(history@, worker.config.min_age, c, r),
        k == c || k == r,
        history@[k].context_override == ContextOverride::Default,
    ensures
        exists|x: int|
            0 <= x < mutations@.len() && history::sets_override(
                #[trigger] mutations@[x],
                history@[k].id,
                ContextOverride::ForcedExclude,
                "auto-prune-tool-age-window"@,
            ),
{
    let name = "auto-prune-tool-age-window"@;
    lemma_old_and_complete_is_excluded(history@, worker.config.min_age, name, c, r);
    history::lemma_views_hold_changes(
        mutations@,
        history@[k].id,
        ContextOverride::ForcedExclude,
        name,
    );
}

/// The changes stand in the order of the calls, and the exclusion of a call is
/// followed by that of its result where that has no override.
pub proof fn lemma_evaluate_goes_call_by_call(
    worker: &ToolAgeWindowAutoPruneWorker,
    session_id: &SessionId,
    history: &[ChatEntry],
    mutations: Vec<HistoryMutation>,
    x: int,
    c: int,
    r: int,
    y: int,
    d: int,
)
    requires
        history::distinct_ids(history@),
        call_ensures(
            ToolAgeWindowAutoPruneWorker::evaluate,
            (worker, session_id, history),
            mutations,
        ),
        0 <= x < mutations@.len(),
        tool_pairs::answered_by(history@, c, r),
        mutations@[x] matches HistoryMutation::SetContextOverride { entry_id, .. } && entry_id
            == history@[c].id,
    ensures
        history@[r].context_override == ContextOverride::Default ==> x + 1 < mutations@.len()
            && history::sets_override(
            mutations@[x + 1],
            history@[r].id,
            ContextOverride::ForcedExclude,
            "auto-prune-tool-age-window"@,
        ),
        x < y < mutations@.len() && 0 <= d < history@.len() && history@[d].kind is ToolCall && (
        mutations@[y] matches HistoryMutation::SetContextOverride { entry_id, .. } && entry_id
            == history@[d].id) ==> c < d,
{
    let name = "auto-prune-tool-age-window"@;
    let f = exclusions_at(history@, name);
    let n = prune_region(history@.len(), worker.config.min_age);
    let views = history::mutation_views(mutations@);
    assert(views[x] == mutations@[x]@);
    let a = history::lemma_per_index_origin(n, f, x);
    lemma_changes_of_a_call(history@, name, a);
    tool_pairs::lemma_answered_by(history@, a);
    assert(a == c);
    if history@[r].context_override == ContextOverride::Default {
        tool_pairs::lemma_id_protected_distinct(history@, c + 1, r);
        history::lemma_per_index_next(n, f, a, 1);
        assert(views[x + 1] == mutations@[x + 1]@);
    }
    if x < y < mutations@.len() && 0 <= d < history@.len() && history@[d].kind is ToolCall && (
    mutations@[y] matches HistoryMutation::SetContextOverride { entry_id, .. } && entry_id
        == history@[d].id) {
        assert(views[y] == mutations@[y]@);
        let b = history::lemma_per_index_origin(n, f, y);
        lemma_changes_of_a_call(history@, name, b);
        assert(b == d);
        history::lemma_per_index_order(f, x, a, y, b);
    }
}

proof fn lemma_changes_of_a_call(history: Seq<ChatEntry>, worker: Seq<char>, i: int)
    requires
        0 <= i < history.len(),
        exclusions_at(history, worker)(i).len() > 0,
    ensures
        ({
            let asked = exclusions_at(history, worker)(i);
            let first = history::worker_excludes(history[i].id, worker);
            &&& history[i].kind is ToolCall
            &&& completed_pair(history, i) is Some
            &&& 0 <= completed_pair(history, i).unwrap() < history.len()
            &&& history[completed_pair(history, i).unwrap()].kind is ToolResult
            &&& forall|o: int|
                #![trigger asked[o]]
                0 <= o < asked.len() ==> asked[o] == first && o == 0 || asked[o]
                    == history::worker_excludes(
                    history[completed_pair(history, i).unwrap()].id,
                    worker,
                )
        }),
{
    tool_pairs::lemma_result_from(history, i + 1, history[i].kind->ToolCall_id@);
}

/// The part of a history that may be pruned ends before its last `min_age`
/// entries, and before the last one in any case.
pub proof fn lemma_computed_region(
    history: &[ChatEntry],
    min_age: usize,
    start: Option<usize>,
    i: int,
)
    requires
        call_ensures(compute_prune_region_start, (history, min_age), start),
        0 <= i < history@.len(),
    ensures
        (start is Some && i < start.unwrap()) <==> history@.len() - i > min_age && i + 1
            < history@.len(),
{
}

} // verus!
