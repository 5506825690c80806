//! Takes failed `edit` calls and their results out of the prompt once enough
//! conversation has followed them.

use crate::auto_prune_worker::min_age;
use crate::auto_prune_worker::min_age::is_within_min_age;
use crate::auto_prune_worker::tool_pairs;
use crate::auto_prune_worker::tool_pairs::{find_result_from, is_id_protected};
use crate::chat_entry;
use crate::chat_entry::{ChatEntry, ChatEntryKind, ContextOverride, SessionId, ToolResultStatus};
use crate::history;
use crate::history::HistoryMutation;
use crate::text::text_eq;
use vstd::prelude::*;

verus! {

/// Configuration of the broken-edit worker.
#[derive(Clone, Copy, Debug, PartialEq, Eq, Structural)]
pub struct BrokenEditAutoPruneConfig {
    pub enabled: bool,
    /// How many entries must stand behind a failed edit before it is pruned.
    pub min_age: usize,
}

/// The broken-edit worker.
#[derive(Clone, Copy, Debug, PartialEq, Eq, Structural)]
pub struct BrokenEditAutoPruneWorker {
    pub config: BrokenEditAutoPruneConfig,
}

/// The index of the result that is pruned together with the call at `i`: the
/// call is an `edit` without override, its first result failed and has no
/// override, and the call is old enough.
pub open spec fn failed_edit(history: Seq<ChatEntry>, i: int, min_age: usize) -> Option<int> {
    match history[i].kind {
        ChatEntryKind::ToolCall { id, name, .. } => {
            if name@ != "edit"@ || history[i].protected_from_prune() {
                None
            } else {
                match tool_pairs::result_from(history, i + 1, id@) {
                    None => None,
                    Some(r) => if (history[r].kind matches ChatEntryKind::ToolResult {
                        status,
                        ..
                    } && status == ToolResultStatus::Failure) && !tool_pairs::id_protected(
                        history,
                        i + 1,
                        history[r].id,
                    ) && min_age::age(history.len() as usize, i as usize) >= min_age {
                        Some(r)
                    } else {
                        None
                    },
                }
            }
        },
        _ => None,
    }
}

/// The changes asked for at index `i`: both halves of a failed edit.
pub open spec fn exclusions_at(
    history: Seq<ChatEntry>,
    min_age: usize,
    worker: Seq<char>,
) -> spec_fn(int) -> Seq<history::MutationView> {
    |i: int|
        match failed_edit(history, i, min_age) {
            Some(r) => seq![
                history::worker_excludes(history[i].id, worker),
                history::worker_excludes(history[r].id, worker),
            ],
            None => Seq::empty(),
        }
}

/// All changes the worker asks for.
pub open spec fn exclusions(history: Seq<ChatEntry>, min_age: usize, worker: Seq<char>) -> Seq<
    history::MutationView,
> {
    history::per_index(history.len() as int, exclusions_at(history, min_age, worker))
}

impl BrokenEditAutoPruneWorker {
    /// The worker's name, as recorded with each change.
    pub fn name(&self) -> (name: &'static str)
        ensures
            name@ == "auto-prune-broken-edit"@,
    {
        "auto-prune-broken-edit"
    }

    /// Asks to exclude each failed edit that is old enough, call and result
    /// together.
    pub fn evaluate(&self, _session_id: &SessionId, history: &[ChatEntry]) -> (mutations: Vec<
        HistoryMutation,
    >)
        ensures
            history::mutation_views(mutations@) == exclusions(
                history@,
                self.config.min_age,
                "auto-prune-broken-edit"@,
            ),
    {
        let ghost f = exclusions_at(history@, self.config.min_age, "auto-prune-broken-edit"@);
        let mut mutations: Vec<HistoryMutation> = Vec::new();
        let mut i: usize = 0;
        while i < history.len()
            invariant
                i <= history@.len(),
                f == exclusions_at(history@, self.config.min_age, "auto-prune-broken-edit"@),
                history::mutation_views(mutations@) == history::per_index(i as int, f),
            decreases history@.len() - i,
        {
            let ghost before = mutations@;
            let entry = &history[i];
            if let ChatEntryKind::ToolCall { id, name, .. } = &entry.kind {
                if text_eq(name.as_str(), "edit") && !entry.is_protected_from_prune() {
                    if let Some(r) = find_result_from(history, i + 1, id) {
                        let failed = match &history[r].kind {
                            ChatEntryKind::ToolResult { status, .. } => *status
                                == ToolResultStatus::Failure,
                            _ => false,
                        };
                        let result_id = history[r].id;
                        if failed && !is_id_protected(history, i + 1, result_id)
                            && !is_within_min_age(history.len(), i, self.config.min_age) {
                            let call = HistoryMutation::worker_exclude(entry.id, self.name());
                            let result = HistoryMutation::worker_exclude(result_id, self.name());
                            proof {
                                history::lemma_push_view(before, call);
                                history::lemma_push_view(before.push(call), result);
                            }
                            mutations.push(call);
                            mutations.push(result);
                        }
                    }
                }
            }
            assert(history::mutation_views(mutations@) =~= history::mutation_views(before) + f(
                i as int,
            ));
            i += 1;
        }
        mutations
    }
}

/// Only failed edits are excluded: each change targets a failed `edit` call or
/// the result it got.
pub proof fn lemma_exclusions_are_failed_edits(
    history: Seq<ChatEntry>,
    min_age: usize,
    worker: Seq<char>,
    m: history::MutationView,
)
    requires
        exclusions(history, min_age, worker).contains(m),
    ensures
        exists|i: int|
            0 <= i < history.len() && (#[trigger] failed_edit(history, i, min_age) matches Some(r)
                && (m == history::worker_excludes(history[i].id, worker) || m
                == history::worker_excludes(history[r].id, worker))),
{
    let f = exclusions_at(history, min_age, worker);
    history::lemma_per_index_contains(history.len() as int, f, m);
    let i = choose|i: int| 0 <= i < history.len() && (#[trigger] f(i)).contains(m);
    assert(failed_edit(history, i, min_age) is Some);
}

/// The halves of a failed edit are excluded together, and only when the call
/// is at least `min_age` entries from the end and neither half has an
/// override.
pub proof fn lemma_failed_edit_excluded_whole(
    history: Seq<ChatEntry>,
    min_age: usize,
    worker: Seq<char>,
    i: int,
)
    requires
        0 <= i < history.len() <= usize::MAX,
        failed_edit(history, i, min_age) is Some,
    ensures
        exclusions(history, min_age, worker).contains(
            history::worker_excludes(history[i].id, worker),
        ),
        exclusions(history, min_age, worker).contains(
            history::worker_excludes(history[failed_edit(history, i, min_age).unwrap()].id, worker),
        ),
        history.len() - i - 1 >= min_age,
        !history[i].protected_from_prune(),
        !tool_pairs::id_protected(
            history,
            i + 1,
            history[failed_edit(history, i, min_age).unwrap()].id,
        ),
{
    let f = exclusions_at(history, min_age, worker);
    let r = failed_edit(history, i, min_age).unwrap();
    let call = history::worker_excludes(history[i].id, worker);
    let result = history::worker_excludes(history[r].id, worker);
    let both = seq![call, result];
    assert(f(i) == both);
    assert(both[0] == call && both[1] == result);
    history::lemma_per_index_contains(history.len() as int, f, call);
    history::lemma_per_index_contains(history.len() as int, f, result);
}

/// Once the changes are made, the worker asks for nothing more.
pub proof fn lemma_exclusions_idempotent(
    history: Seq<ChatEntry>,
    min_age: usize,
    worker: Seq<char>,
)
    ensures
        exclusions(
            history::with_overrides(history, exclusions(history, min_age, worker)),
            min_age,
            worker,
        ).len() == 0,
{
    let asked = exclusions(history, min_age, worker);
    let f = exclusions_at(history, min_age, worker);
    let n = history.len() as int;
    assert forall|k: int| 0 <= k < asked.len() implies (#[trigger] asked[k] matches
        history::MutationView::SetContextOverride { value, .. } && value
        == ContextOverride::ForcedExclude) by {
        history::lemma_per_index_contains(n, f, asked[k]);
        assert(asked.contains(asked[k]));
    }
    let later = history::with_overrides(history, asked);
    history::lemma_with_overrides(history, asked, ContextOverride::ForcedExclude);
    assert(tool_pairs::more_overridden(history, later));
    let g = exclusions_at(later, min_age, worker);
    assert forall|i: int| 0 <= i < n implies (#[trigger] g(i)).len() == 0 by {
        if failed_edit(later, i, min_age) is Some {
            assert(later[i].kind == history[i].kind);
            if let ChatEntryKind::ToolCall { id, .. } = history[i].kind {
                tool_pairs::lemma_result_from_stable(history, later, i + 1, id@);
                tool_pairs::lemma_result_from(history, i + 1, id@);
                let r = tool_pairs::result_from(history, i + 1, id@).unwrap();
                assert(later[r].id == history[r].id);
                if tool_pairs::id_protected(history, i + 1, history[r].id) {
                    tool_pairs::lemma_id_protected_grows(history, later, i + 1, history[r].id);
                }
                let call = history::worker_excludes(history[i].id, worker);
                assert(f(i)[0] == call);
                assert(f(i).contains(call));
                history::lemma_per_index_contains(n, f, call);
                let k = choose|k: int| 0 <= k < asked.len() && asked[k] == call;
                assert(history::targets(asked, history[i].id)) by {
                    assert(asked[k] matches history::MutationView::SetContextOverride {
                        entry_id,
                        ..
                    } && entry_id == history[i].id);
                }
            }
        }
    }
    history::lemma_per_index_empty(n, g);
}

/// Whether the call at `c` is an `edit` that failed long enough ago and may be
/// pruned together with its result at `r`: neither half has an override, and
/// at least `min_age` entries stand behind the call.
pub open spec fn old_failure(history: Seq<ChatEntry>, min_age: usize, c: int, r: int) -> bool {
    &&& tool_pairs::answered_by(history, c, r)
    &&& history[c].kind matches ChatEntryKind::ToolCall { name, .. } && name@ == "edit"@
    &&& history[r].kind matches ChatEntryKind::ToolResult { status, .. } && status
        == ToolResultStatus::Failure
    &&& history[c].context_override == ContextOverride::Default
    &&& history[r].context_override == ContextOverride::Default
    &&& history.len() - c - 1 >= min_age
}

/// A change is asked for exactly if it excludes one half of an `edit` that
/// failed long enough ago.
pub proof fn lemma_exactly_old_failures(
    history: Seq<ChatEntry>,
    min_age: usize,
    worker: Seq<char>,
    m: history::MutationView,
)
    requires
        history::distinct_ids(history),
        history.len() <= usize::MAX,
    ensures
        exclusions(history, min_age, worker).contains(m) <==> exists|c: int, r: int| #[trigger]
            old_failure(history, min_age, c, r) && (m
                == (history::MutationView::SetContextOverride {
                entry_id: history[c].id,
                value: ContextOverride::ForcedExclude,
                source: chat_entry::ChangeSourceView::Worker { name: worker },
            }) || m == (history::MutationView::SetContextOverride {
                entry_id: history[r].id,
                value: ContextOverride::ForcedExclude,
                source: chat_entry::ChangeSourceView::Worker { name: worker },
            })),
{
    if exclusions(history, min_age, worker).contains(m) {
        lemma_exclusions_are_failed_edits(history, min_age, worker, m);
        let c = choose|i: int|
            0 <= i < history.len() && (#[trigger] failed_edit(history, i, min_age) matches Some(r)
                && (m == history::worker_excludes(history[i].id, worker) || m
                == history::worker_excludes(history[r].id, worker)));
        let r = failed_edit(history, c, min_age).unwrap();
        tool_pairs::lemma_answered_by(history, c);
        assert(tool_pairs::answered_by(history, c, r));
        tool_pairs::lemma_id_protected_distinct(history, c + 1, r);
        assert(old_failure(history, min_age, c, r));
    }
    assert forall|c: int, r: int| #[trigger]
        old_failure(history, min_age, c, r) implies failed_edit(history, c, min_age) == Some(r)
        by {
        tool_pairs::lemma_answered_by(history, c);
        tool_pairs::lemma_id_protected_distinct(history, c + 1, r);
    }
    if exists|c: int, r: int| #[trigger]
        old_failure(history, min_age, c, r) && (m == history::worker_excludes(history[c].id, worker)
            || m == history::worker_excludes(history[r].id, worker)) {
        let (c, r) = choose|c: int, r: int| #[trigger]
            old_failure(history, min_age, c, r) && (m == history::worker_excludes(
                history[c].id,
                worker,
            ) || m == history::worker_excludes(history[r].id, worker));
        lemma_failed_edit_excluded_whole(history, min_age, worker, c);
    }
}

/// Each change of the worker excludes one half of an old failed `edit`.
pub proof fn lemma_evaluate_touches_old_failures_alone(
    worker: &BrokenEditAutoPruneWorker,
    session_id: &SessionId,
    history: &[ChatEntry],
    mutations: Vec<HistoryMutation>,
    x: int,
) -> (found: (int, int, int))
    requires
        history::distinct_ids(history@),
        call_ensures(BrokenEditAutoPruneWorker::evaluate, (worker, session_id, history), mutations),
        0 <= x < mutations@.len(),
    ensures
        ({
            let (c, r, k) = found;
            &&& old_failure(history@, worker.config.min_age, c, r)
            &&& k == c || k == r
            &&& history::sets_override(
                mutations@[x],
                history@[k].id,
                ContextOverride::ForcedExclude,
                "auto-prune-broken-edit"@,
            )
        }),
{
    let name = "auto-prune-broken-edit"@;
    let min_age = worker.config.min_age;
    let views = history::mutation_views(mutations@);
    assert(views[x] == mutations@[x]@);
    assert(history.len() == history@.len());
    lemma_exactly_old_failures(history@, min_age, name, views[x]);
    let (c, r) = choose|c: int, r: int| #[trigger]
        old_failure(history@, min_age, c, r) && (views[x]
            == (history::MutationView::SetContextOverride {
            entry_id: history@[c].id,
            value: ContextOverride::ForcedExclude,
            source: chat_entry::ChangeSourceView::Worker { name },
        }) || views[x] == (history::MutationView::SetContextOverride {
            entry_id: history@[r].id,
            value: ContextOverride::ForcedExclude,
            source: chat_entry::ChangeSourceView::Worker { name },
        }));
    let exclude = ContextOverride::ForcedExclude;
    history::lemma_override_view(mutations@[x], history@[c].id, exclude, name);
    history::lemma_override_view(mutations@[x], history@[r].id, exclude, name);
    if history::sets_override(mutations@[x], history@[c].id, exclude, name) {
        (c, r, c)
    } else {
        (c, r, r)
    }
}

/// Both halves of every old failed `edit` are excluded.
pub proof fn lemma_evaluate_finds_every_old_failure(
    worker: &BrokenEditAutoPruneWorker,
    session_id: &SessionId,
    history: &[ChatEntry],
    mutations: Vec<HistoryMutation>,
    c: int,
    r: int,
    k: int,
)
    requires
        history::distinct_ids(history@),
        call_ensures(BrokenEditAutoPruneWorker::evaluate, (worker, session_id, history), mutations),
        old_failure(history@, worker.config.min_age, c, r),
        k == c || k == r,
    ensures
        exists|x: int|
            0 <= x < mutations@.len() && history::sets_override(
                #[trigger] mutations@[x],
                history@[k].id,
                ContextOverride::ForcedExclude,
                "auto-prune-broken-edit"@,
            ),
{
    let name = "auto-prune-broken-edit"@;
    let m = history::MutationView::SetContextOverride {
        entry_id: history@[k].id,
        value: ContextOverride::ForcedExclude,
        source: chat_entry::ChangeSourceView::Worker { name },
    };
    assert(history.len() == history@.len());
    lemma_exactly_old_failures(history@, worker.config.min_age, name, m);
    history::lemma_views_hold_changes(
        mutations@,
        history@[k].id,
        ContextOverride::ForcedExclude,
        name,
    );
}

} // verus!
