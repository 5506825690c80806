//! Keeps what stands close to a user message in the prompt, so that no other
//! worker takes it out.
//!
//! A tool call and its result are shielded together: where one half is near an
//! anchor, the other is kept too, however far away it is.

use crate::auto_prune_worker::anchored_assistant::{
    collect_user_anchor_indices, distances_to_nearest_anchors,
};
use crate::auto_prune_worker::anchored_assistant;
use crate::auto_prune_worker::tool_pairs;
use crate::auto_prune_worker::tool_pairs::find_result_from;
use crate::chat_entry;
use crate::chat_entry::{ChatEntry, ChatEntryKind, ContextOverride, SessionId};
use crate::history;
use crate::history::HistoryMutation;
use std::collections::HashSet;
use vstd::prelude::*;

verus! {

broadcast use vstd::std_specs::hash::group_hash_axioms;

/// Configuration of the anchor-shield worker.
#[derive(Clone, Copy, Debug, PartialEq, Eq, Structural)]
pub struct AnchorShieldConfig {
    pub enabled: bool,
    /// How far from a user message entries are kept.
    pub radius: usize,
}

/// The anchor-shield worker.
#[derive(Clone, Copy, Debug, PartialEq, Eq, Structural)]
pub struct AnchorShieldAutoPruneWorker {
    pub config: AnchorShieldConfig,
}

/// Whether entries of this kind are shielded. Summaries are left to
/// compaction, the remaining kinds are no part of the prompt by default.
pub open spec fn shieldable(kind: ChatEntryKind) -> bool {
    kind is User || kind is Assistant || kind is ToolCall || kind is ToolResult
}

/// Whether some user message is at most `radius` entries away from `idx`. In
/// a history without one, only an unlimited radius reaches everything.
pub open spec fn near_anchor(history: Seq<ChatEntry>, idx: int, radius: usize) -> bool {
    ||| exists|u: int|
        0 <= u < history.len() && (#[trigger] history[u]).kind is User && idx - u <= radius && u
            - idx <= radius
    ||| radius == usize::MAX && forall|u: int|
        0 <= u < history.len() ==> !((#[trigger] history[u]).kind is User)
}

/// The ids of the entries that are shielded for their own place.
pub open spec fn candidates(history: Seq<ChatEntry>, radius: usize) -> Set<u128> {
    Set::new(
        |id: u128|
            exists|i: int|
                0 <= i < history.len() && (#[trigger] history[i]).id.0 == id && shieldable(
                    history[i].kind,
                ) && near_anchor(history, i, radius),
    )
}

/// The set after each tool call below `n` whose id is in it, in order, has
/// brought the first result behind it along.
pub open spec fn with_results(history: Seq<ChatEntry>, n: int, ids: Set<u128>) -> Set<u128>
    decreases n,
{
    if n <= 0 {
        ids
    } else {
        let before = with_results(history, n - 1, ids);
        match history[n - 1].kind {
            ChatEntryKind::ToolCall { id, .. } => if before.contains(history[n - 1].id.0) {
                match tool_pairs::result_from(history, n, id@) {
                    Some(r) => before.insert(history[r].id.0),
                    None => before,
                }
            } else {
                before
            },
            _ => before,
        }
    }
}

/// The index of the first tool call with this id at or after `from`.
pub open spec fn call_from(history: Seq<ChatEntry>, from: int, tool_call_id: Seq<char>) -> Option<
    int,
>
    decreases history.len() - from,
{
    if from < 0 || from >= history.len() {
        None
    } else if history[from].kind matches ChatEntryKind::ToolCall { id, .. } && id@ == tool_call_id {
        Some(from)
    } else {
        call_from(history, from + 1, tool_call_id)
    }
}

/// The set after each tool result below `n` whose id is in it, in order, has
/// brought the first call with its tool id along.
pub open spec fn with_calls(history: Seq<ChatEntry>, n: int, ids: Set<u128>) -> Set<u128>
    decreases n,
{
    if n <= 0 {
        ids
    } else {
        let before = with_calls(history, n - 1, ids);
        match history[n - 1].kind {
            ChatEntryKind::ToolResult { id, .. } => if before.contains(history[n - 1].id.0) {
                match call_from(history, 0, id@) {
                    Some(c) => before.insert(history[c].id.0),
                    None => before,
                }
            } else {
                before
            },
            _ => before,
        }
    }
}

/// The ids of all shielded entries.
pub open spec fn shield(history: Seq<ChatEntry>, radius: usize) -> Set<u128> {
    let n = history.len() as int;
    with_calls(history, n, with_results(history, n, candidates(history, radius)))
}

/// The changes asked for at index `i`: a shielded entry that is not yet
/// force-included.
pub open spec fn inclusions_at(
    history: Seq<ChatEntry>,
    ids: Set<u128>,
    worker: Seq<char>,
) -> spec_fn(int) -> Seq<history::MutationView> {
    |i: int|
        if ids.contains(history[i].id.0) && history[i].context_override
            != ContextOverride::ForcedInclude {
            seq![history::worker_sets(history[i].id, ContextOverride::ForcedInclude, worker)]
        } else {
            Seq::empty()
        }
}

/// All changes the worker asks for.
pub open spec fn inclusions(history: Seq<ChatEntry>, radius: usize, worker: Seq<char>) -> Seq<
    history::MutationView,
> {
    history::per_index(
        history.len() as int,
        inclusions_at(history, shield(history, radius), worker),
    )
}

/// Whether entries of this kind are shielded.
fn is_shieldable_kind(kind: &ChatEntryKind) -> (yes: bool)
    ensures
        yes == shieldable(*kind),
{
    match kind {
        ChatEntryKind::User { .. }
        | ChatEntryKind::Assistant(_)
        | ChatEntryKind::ToolCall { .. }
        | ChatEntryKind::ToolResult { .. } => true,
        _ => false,
    }
}

/// The smaller of two distances, where `None` is infinitely far.
fn min_distance(d_back: Option<usize>, d_fwd: Option<usize>) -> (distance: usize)
    ensures
        distance == (match (d_back, d_fwd) {
            (Some(b), Some(f)) => if b <= f {
                b
            } else {
                f
            },
            (Some(b), None) => b,
            (None, Some(f)) => f,
            (None, None) => usize::MAX,
        }),
{
    match (d_back, d_fwd) {
        (Some(b), Some(f)) => if b <= f {
            b
        } else {
            f
        },
        (Some(b), None) => b,
        (None, Some(f)) => f,
        (None, None) => usize::MAX,
    }
}

proof fn lemma_distance_is_near(
    history: Seq<ChatEntry>,
    anchors: Seq<usize>,
    idx: usize,
    d_back: Option<usize>,
    d_fwd: Option<usize>,
    radius: usize,
)
    requires
        history.len() <= usize::MAX,
        forall|k: int|
            0 <= k < anchors.len() ==> (#[trigger] anchors[k]) < history.len()
                && history[anchors[k] as int].kind is User,
        forall|i: int|
            0 <= i < history.len() && (#[trigger] history[i]).kind is User ==> anchors.contains(
                i as usize,
            ),
        anchored_assistant::nearest_back(anchors, idx, d_back),
        anchored_assistant::nearest_forward(anchors, idx, d_fwd),
    ensures
        near_anchor(history, idx as int, radius) <==> (match (d_back, d_fwd) {
            (Some(b), Some(f)) => b <= radius || f <= radius,
            (Some(b), None) => b <= radius,
            (None, Some(f)) => f <= radius,
            (None, None) => radius == usize::MAX,
        }),
{
    if let Some(b) = d_back {
        let k = choose|k: int| 0 <= k < anchors.len() && anchors[k] == (idx - b) as usize;
        assert(history[anchors[k] as int].kind is User);
    }
    if let Some(f) = d_fwd {
        let k = choose|k: int| 0 <= k < anchors.len() && anchors[k] == (idx + f) as usize;
        assert(history[anchors[k] as int].kind is User);
    }
    if exists|u: int|
        0 <= u < history.len() && (#[trigger] history[u]).kind is User && idx - u <= radius && u
            - idx <= radius {
        let u = choose|u: int|
            0 <= u < history.len() && (#[trigger] history[u]).kind is User && idx - u <= radius && u
                - idx <= radius;
        let k = choose|k: int| 0 <= k < anchors.len() && anchors[k] == u as usize;
        assert(anchors[k] == u);
    }
    if d_back is None && d_fwd is None {
        assert forall|u: int| 0 <= u < history.len() implies !((
        #[trigger] history[u]).kind is User) by {
            if history[u].kind is User {
                let k = choose|k: int| 0 <= k < anchors.len() && anchors[k] == u as usize;
                assert(anchors[k] == u);
            }
        }
    }
}

/// The ids of the entries that are shielded for their own place.
fn collect_shield_candidates(
    history: &[ChatEntry],
    radius: usize,
    anchor_indices: &[usize],
) -> (ids: HashSet<u128>)
    requires
        forall|k: int|
            0 <= k < anchor_indices@.len() ==> (#[trigger] anchor_indices@[k]) < history@.len()
                && history@[anchor_indices@[k] as int].kind is User,
        forall|i: int|
            0 <= i < history@.len() && (
            #[trigger] history@[i]).kind is User ==> anchor_indices@.contains(i as usize),
    ensures
        ids@ == candidates(history@, radius),
{
    let mut ids: HashSet<u128> = HashSet::new();
    let mut i: usize = 0;
    while i < history.len()
        invariant
            i <= history@.len(),
            forall|k: int|
                0 <= k < anchor_indices@.len() ==> (#[trigger] anchor_indices@[k]) < history@.len()
                    && history@[anchor_indices@[k] as int].kind is User,
            forall|j: int|
                0 <= j < history@.len() && (
                #[trigger] history@[j]).kind is User ==> anchor_indices@.contains(j as usize),
            forall|id: u128|
                ids@.contains(id) <==> exists|j: int|
                    0 <= j < i && (#[trigger] history@[j]).id.0 == id && shieldable(
                        history@[j].kind,
                    ) && near_anchor(history@, j, radius),
        decreases history@.len() - i,
    {
        let entry = &history[i];
        if is_shieldable_kind(&entry.kind) {
            let (d_back, d_fwd) = distances_to_nearest_anchors(i, anchor_indices);
            proof {
                lemma_distance_is_near(history@, anchor_indices@, i, d_back, d_fwd, radius);
            }
            if min_distance(d_back, d_fwd) <= radius {
                ids.insert(entry.id.0);
            }
        }
        i += 1;
    }
    assert(ids@ =~= candidates(history@, radius));
    ids
}

/// Brings the partners of shielded tool calls and results along.
fn apply_pair_atomicity(history: &[ChatEntry], shield_set: HashSet<u128>) -> (ids: HashSet<u128>)
    ensures
        ids@ == with_calls(
            history@,
            history@.len() as int,
            with_results(history@, history@.len() as int, shield_set@),
        ),
{
    let mut ids = shield_set;
    let mut i: usize = 0;
    while i < history.len()
        invariant
            i <= history@.len(),
            ids@ == with_results(history@, i as int, shield_set@),
        decreases history@.len() - i,
    {
        if let ChatEntryKind::ToolCall { id, .. } = &history[i].kind {
            if ids.contains(&history[i].id.0) {
                if let Some(r) = find_result_from(history, i + 1, id) {
                    ids.insert(history[r].id.0);
                }
            }
        }
        i += 1;
    }
    let ghost with_partners = ids@;
    let mut j: usize = 0;
    while j < history.len()
        invariant
            j <= history@.len(),
            ids@ == with_calls(history@, j as int, with_partners),
        decreases history@.len() - j,
    {
        if let ChatEntryKind::ToolResult { id, .. } = &history[j].kind {
            if ids.contains(&history[j].id.0) {
                if let Some(c) = find_call(history, id) {
                    ids.insert(history[c].id.0);
                }
            }
        }
        j += 1;
    }
    ids
}

/// Finds the first tool call with this id.
fn find_call(history: &[ChatEntry], tool_call_id: &String) -> (found: Option<usize>)
    ensures
        found matches Some(c) ==> call_from(history@, 0, tool_call_id@) == Some(c as int) && c
            < history@.len(),
        found is None ==> call_from(history@, 0, tool_call_id@) is None,
{
    let mut i: usize = 0;
    while i < history.len()
        invariant
            call_from(history@, 0, tool_call_id@) == call_from(
                history@,
                i as int,
                tool_call_id@,
            ),
        decreases history@.len() - i,
    {
        if let ChatEntryKind::ToolCall { id, .. } = &history[i].kind {
            if *id == *tool_call_id {
                return Some(i);
            }
        }
        i += 1;
    }
    None
}

/// Asks to force-include each entry of the set that is not yet.
fn emit_shield_mutations(
    history: &[ChatEntry],
    shield_set: &HashSet<u128>,
    worker_name: &str,
) -> (mutations: Vec<HistoryMutation>)
    ensures
        history::mutation_views(mutations@) == history::per_index(
            history@.len() as int,
            inclusions_at(history@, shield_set@, worker_name@),
        ),
{
    let ghost f = inclusions_at(history@, shield_set@, worker_name@);
    let mut mutations: Vec<HistoryMutation> = Vec::new();
    let mut i: usize = 0;
    while i < history.len()
        invariant
            i <= history@.len(),
            f == inclusions_at(history@, shield_set@, worker_name@),
            history::mutation_views(mutations@) == history::per_index(i as int, f),
        decreases history@.len() - i,
    {
        let ghost before = mutations@;
        let entry = &history[i];
        if shield_set.contains(&entry.id.0) && entry.context_override
            != ContextOverride::ForcedInclude {
            let m = HistoryMutation::worker_override(
                entry.id,
                ContextOverride::ForcedInclude,
                worker_name,
            );
            proof {
                history::lemma_push_view(before, m);
            }
            mutations.push(m);
        }
        assert(history::mutation_views(mutations@) =~= history::mutation_views(before) + f(
            i as int,
        ));
        i += 1;
    }
    mutations
}

/// Asks to force-include every entry near a user message, and the partner of
/// every tool call or result among them.
pub fn build_shield_mutations(
    history: &[ChatEntry],
    radius: usize,
    worker_name: &str,
) -> (mutations: Vec<HistoryMutation>)
    ensures
        history::mutation_views(mutations@) == inclusions(history@, radius, worker_name@),
{
    if history.len() == 0 {
        let mutations: Vec<HistoryMutation> = Vec::new();
        assert(history::mutation_views(mutations@) =~= Seq::empty());
        return mutations;
    }
    let anchor_indices = collect_user_anchor_indices(history);
    let shield_set = collect_shield_candidates(history, radius, anchor_indices.as_slice());
    let shield_set = apply_pair_atomicity(history, shield_set);
    emit_shield_mutations(history, &shield_set, worker_name)
}

impl AnchorShieldAutoPruneWorker {
    /// The worker's name, as recorded with each change.
    pub fn name(&self) -> (name: &'static str)
        ensures
            name@ == "auto-prune-anchor-shield"@,
    {
        "auto-prune-anchor-shield"
    }

    /// Asks to keep what stands close to a user message in the prompt.
    pub fn evaluate(&self, _session_id: &SessionId, history: &[ChatEntry]) -> (mutations: Vec<
        HistoryMutation,
    >)
        ensures
            history::mutation_views(mutations@) == inclusions(
                history@,
                self.config.radius,
                "auto-prune-anchor-shield"@,
            ),
    {
        build_shield_mutations(history, self.config.radius, self.name())
    }
}

proof fn lemma_with_results_grows(history: Seq<ChatEntry>, m: int, n: int, ids: Set<u128>)
    requires
        m <= n,
    ensures
        with_results(history, m, ids).subset_of(with_results(history, n, ids)),
        ids.subset_of(with_results(history, m, ids)),
    decreases n, m,
{
    if m < n && n > 0 {
        lemma_with_results_grows(history, m, n - 1, ids);
    } else if m > 0 {
        lemma_with_results_grows(history, m - 1, m - 1, ids);
    }
}

proof fn lemma_with_calls_grows(history: Seq<ChatEntry>, m: int, n: int, ids: Set<u128>)
    requires
        m <= n,
    ensures
        with_calls(history, m, ids).subset_of(with_calls(history, n, ids)),
        ids.subset_of(with_calls(history, m, ids)),
    decreases n, m,
{
    if m < n && n > 0 {
        lemma_with_calls_grows(history, m, n - 1, ids);
    } else if m > 0 {
        lemma_with_calls_grows(history, m - 1, m - 1, ids);
    }
}

/// What the result pass adds are results behind a call in the set.
proof fn lemma_added_result(history: Seq<ChatEntry>, n: int, ids: Set<u128>, v: u128)
    requires
        0 <= n <= history.len(),
        with_results(history, n, ids).contains(v),
        !ids.contains(v),
    ensures
        exists|r: int|
            0 <= r < history.len() && (#[trigger] history[r]).id.0 == v
                && history[r].kind is ToolResult,
    decreases n,
{
    if n > 0 && with_results(history, n - 1, ids).contains(v) {
        lemma_added_result(history, n - 1, ids, v);
    } else if n > 0 {
        if let ChatEntryKind::ToolCall { id, .. } = history[n - 1].kind {
            tool_pairs::lemma_result_from(history, n, id@);
            let r = tool_pairs::result_from(history, n, id@).unwrap();
            assert(history[r].id.0 == v);
        }
    }
}

proof fn lemma_call_from(history: Seq<ChatEntry>, from: int, tool_call_id: Seq<char>)
    requires
        0 <= from,
    ensures
        call_from(history, from, tool_call_id) matches Some(c) ==> from <= c < history.len() && (
        history[c].kind matches ChatEntryKind::ToolCall { id, .. } && id@ == tool_call_id),
    decreases history.len() - from,
{
    if from < history.len() && !(history[from].kind matches ChatEntryKind::ToolCall { id, .. }
        && id@ == tool_call_id) {
        lemma_call_from(history, from + 1, tool_call_id);
    }
}

/// What the call pass adds are the first calls of results in the set.
proof fn lemma_added_call(history: Seq<ChatEntry>, n: int, ids: Set<u128>, v: u128)
    requires
        0 <= n <= history.len(),
        with_calls(history, n, ids).contains(v),
        !ids.contains(v),
    ensures
        exists|j: int|
            0 <= j < n && with_calls(history, n, ids).contains((#[trigger] history[j]).id.0) && (
            history[j].kind matches ChatEntryKind::ToolResult { id, .. } && (call_from(
                history,
                0,
                id@,
            ) matches Some(c) && history[c].id.0 == v)),
    decreases n,
{
    if n > 0 && with_calls(history, n - 1, ids).contains(v) {
        lemma_added_call(history, n - 1, ids, v);
        lemma_with_calls_grows(history, n - 1, n, ids);
        let j = choose|j: int|
            0 <= j < n - 1 && with_calls(history, n - 1, ids).contains(
                (#[trigger] history[j]).id.0,
            ) && (history[j].kind matches ChatEntryKind::ToolResult { id, .. } && (call_from(
                history,
                0,
                id@,
            ) matches Some(c) && history[c].id.0 == v));
        assert(with_calls(history, n, ids).contains(history[j].id.0));
    } else if n > 0 {
        lemma_with_calls_grows(history, n - 1, n, ids);
        assert(with_calls(history, n, ids).contains(history[n - 1].id.0));
    }
}

/// Every entry of a shieldable kind within the radius of a user message is
/// shielded.
pub proof fn lemma_near_entries_shielded(history: Seq<ChatEntry>, radius: usize, i: int)
    requires
        0 <= i < history.len(),
        shieldable(history[i].kind),
        near_anchor(history, i, radius),
    ensures
        shield(history, radius).contains(history[i].id.0),
{
    let n = history.len() as int;
    let near = candidates(history, radius);
    assert(near.contains(history[i].id.0));
    lemma_with_results_grows(history, n, n, near);
    lemma_with_calls_grows(history, n, n, with_results(history, n, near));
}

/// Only entries of a shieldable kind are shielded, and of those that are no
/// half of a tool pair, only the ones within the radius.
pub proof fn lemma_shield_reaches_no_further(history: Seq<ChatEntry>, radius: usize, i: int)
    requires
        history::distinct_ids(history),
        0 <= i < history.len(),
        shield(history, radius).contains(history[i].id.0),
    ensures
        shieldable(history[i].kind),
        !(history[i].kind is ToolCall) && !(history[i].kind is ToolResult) ==> near_anchor(
            history,
            i,
            radius,
        ),
{
    let n = history.len() as int;
    let v = history[i].id.0;
    let near = candidates(history, radius);
    let paired = with_results(history, n, near);
    if near.contains(v) {
        let j = choose|j: int|
            0 <= j < history.len() && (#[trigger] history[j]).id.0 == v && shieldable(
                history[j].kind,
            ) && near_anchor(history, j, radius);
        assert(history[j].id == history[i].id);
    } else if paired.contains(v) {
        lemma_added_result(history, n, near, v);
        let r = choose|r: int|
            0 <= r < history.len() && (#[trigger] history[r]).id.0 == v
                && history[r].kind is ToolResult;
        assert(history[r].id == history[i].id);
    } else {
        lemma_added_call_has_result(history, paired, i);
    }
}

/// In a history without a user message nothing is shielded, whatever the
/// radius, unless it is unlimited.
pub proof fn lemma_no_anchor_no_shield(history: Seq<ChatEntry>, radius: usize, worker: Seq<char>)
    requires
        radius < usize::MAX,
        forall|u: int| 0 <= u < history.len() ==> !((#[trigger] history[u]).kind is User),
    ensures
        shield(history, radius) == Set::<u128>::empty(),
        inclusions(history, radius, worker).len() == 0,
{
    let n = history.len() as int;
    assert(candidates(history, radius) =~= Set::<u128>::empty());
    lemma_nothing_added(history, n);
    history::lemma_per_index_empty(n, inclusions_at(history, shield(history, radius), worker));
}

proof fn lemma_nothing_added(history: Seq<ChatEntry>, n: int)
    ensures
        with_results(history, n, Set::empty()) == Set::<u128>::empty(),
        with_calls(history, n, Set::empty()) == Set::<u128>::empty(),
    decreases n,
{
    if n > 0 {
        lemma_nothing_added(history, n - 1);
    }
}

/// Whether the call at `c` and the result at `r` are each other's only
/// partner.
pub open spec fn exclusive_pair(history: Seq<ChatEntry>, c: int, r: int) -> bool {
    &&& 0 <= c < r < history.len()
    &&& history[c].kind matches ChatEntryKind::ToolCall { id, .. } && {
        &&& tool_pairs::answers(history[r], id@)
        &&& forall|j: int|
            0 <= j < history.len() && tool_pairs::answers(#[trigger] history[j], id@) ==> j == r
        &&& call_from(history, 0, id@) == Some(c)
    }
}

proof fn lemma_call_brings_result(
    history: Seq<ChatEntry>,
    near: Set<u128>,
    c: int,
    r: int,
    tool_call_id: Seq<char>,
)
    requires
        history::distinct_ids(history),
        exclusive_pair(history, c, r),
        history[c].kind matches ChatEntryKind::ToolCall { id, .. } && id@ == tool_call_id,
        near.contains(history[c].id.0),
    ensures
        with_results(history, history.len() as int, near).contains(history[r].id.0),
{
    let n = history.len() as int;
    tool_pairs::lemma_result_from(history, c + 1, tool_call_id);
    assert(tool_pairs::answers(history[r], tool_call_id));
    lemma_with_results_grows(history, c, n, near);
    lemma_with_results_grows(history, c + 1, n, near);
    assert(with_results(history, c + 1, near).contains(history[r].id.0));
}

proof fn lemma_result_brings_call(
    history: Seq<ChatEntry>,
    paired: Set<u128>,
    c: int,
    r: int,
)
    requires
        history::distinct_ids(history),
        exclusive_pair(history, c, r),
        paired.contains(history[r].id.0),
    ensures
        with_calls(history, history.len() as int, paired).contains(history[c].id.0),
{
    let n = history.len() as int;
    lemma_with_calls_grows(history, r, n, paired);
    lemma_with_calls_grows(history, r + 1, n, paired);
    assert(with_calls(history, r + 1, paired).contains(history[c].id.0));
}

/// An id that the call pass adds is that of a call, and a result with the
/// call's tool id is in the set.
proof fn lemma_added_call_has_result(history: Seq<ChatEntry>, ids: Set<u128>, i: int)
    requires
        history::distinct_ids(history),
        0 <= i < history.len(),
        with_calls(history, history.len() as int, ids).contains(history[i].id.0),
        !ids.contains(history[i].id.0),
    ensures
        history[i].kind matches ChatEntryKind::ToolCall { id, .. } && exists|j: int|
            0 <= j < history.len() && tool_pairs::answers(#[trigger] history[j], id@) && with_calls(
                history,
                history.len() as int,
                ids,
            ).contains(history[j].id.0),
{
    let n = history.len() as int;
    let v = history[i].id.0;
    lemma_added_call(history, n, ids, v);
    let j = choose|j: int|
        0 <= j < n && with_calls(history, n, ids).contains((#[trigger] history[j]).id.0) && (
        history[j].kind matches ChatEntryKind::ToolResult { id, .. } && (call_from(
            history,
            0,
            id@,
        ) matches Some(c) && history[c].id.0 == v));
    if let ChatEntryKind::ToolResult { id, .. } = history[j].kind {
        lemma_call_from(history, 0, id@);
        let c = call_from(history, 0, id@).unwrap();
        assert(history[c].id == history[i].id);
        assert(tool_pairs::answers(history[j], id@));
    }
}

/// A tool call and its result are shielded together or not at all.
pub proof fn lemma_shield_keeps_pairs_whole(history: Seq<ChatEntry>, radius: usize, c: int, r: int)
    requires
        history::distinct_ids(history),
        exclusive_pair(history, c, r),
    ensures
        shield(history, radius).contains(history[c].id.0) <==> shield(history, radius).contains(
            history[r].id.0,
        ),
{
    let n = history.len() as int;
    let near = candidates(history, radius);
    let paired = with_results(history, n, near);
    let call = history[c].id.0;
    let result = history[r].id.0;
    let tool_call_id = history[c].kind->ToolCall_id@;
    if shield(history, radius).contains(call) {
        if near.contains(call) {
            lemma_call_brings_result(history, near, c, r, tool_call_id);
            lemma_with_calls_grows(history, n, n, paired);
        } else if paired.contains(call) {
            lemma_added_result(history, n, near, call);
            let k = choose|k: int|
                0 <= k < history.len() && (#[trigger] history[k]).id.0 == call
                    && history[k].kind is ToolResult;
            assert(history[k].id == history[c].id);
        } else {
            lemma_added_call_has_result(history, paired, c);
        }
    }
    if shield(history, radius).contains(result) {
        if !paired.contains(result) {
            lemma_added_call_has_result(history, paired, r);
        }
        lemma_result_brings_call(history, paired, c, r);
    }
}

proof fn lemma_shield_stable(history: Seq<ChatEntry>, later: Seq<ChatEntry>, radius: usize)
    requires
        later.len() == history.len(),
        forall|i: int|
            #![trigger history[i]]
            #![trigger later[i]]
            0 <= i < history.len() ==> later[i].id == history[i].id && later[i].kind
                == history[i].kind,
    ensures
        shield(later, radius) == shield(history, radius),
{
    let n = history.len() as int;
    assert forall|i: int| near_anchor(later, i, radius) == near_anchor(history, i, radius) by {
        if exists|u: int|
            0 <= u < history.len() && (#[trigger] history[u]).kind is User && i - u <= radius && u
                - i <= radius {
            let u = choose|u: int|
                0 <= u < history.len() && (#[trigger] history[u]).kind is User && i - u <= radius
                    && u - i <= radius;
            assert(later[u].kind is User);
        }
    }
    assert(candidates(later, radius) =~= candidates(history, radius)) by {
        assert forall|v: u128|
            candidates(later, radius).contains(v) == candidates(history, radius).contains(v) by {
            if candidates(later, radius).contains(v) {
                let i = choose|i: int|
                    0 <= i < later.len() && (#[trigger] later[i]).id.0 == v && shieldable(
                        later[i].kind,
                    ) && near_anchor(later, i, radius);
                assert(history[i].id.0 == v);
            }
            if candidates(history, radius).contains(v) {
                let i = choose|i: int|
                    0 <= i < history.len() && (#[trigger] history[i]).id.0 == v && shieldable(
                        history[i].kind,
                    ) && near_anchor(history, i, radius);
                assert(later[i].id.0 == v);
            }
        }
    }
    lemma_with_results_stable(history, later, n, candidates(history, radius));
    lemma_with_calls_stable(
        history,
        later,
        n,
        with_results(history, n, candidates(history, radius)),
    );
}

proof fn lemma_call_from_stable(
    history: Seq<ChatEntry>,
    later: Seq<ChatEntry>,
    from: int,
    tool_call_id: Seq<char>,
)
    requires
        tool_pairs::same_kinds(history, later),
    ensures
        call_from(later, from, tool_call_id) == call_from(history, from, tool_call_id),
    decreases history.len() - from,
{
    if 0 <= from < history.len() {
        assert(later[from].kind == history[from].kind);
        lemma_call_from_stable(history, later, from + 1, tool_call_id);
    }
}

proof fn lemma_with_results_stable(
    history: Seq<ChatEntry>,
    later: Seq<ChatEntry>,
    n: int,
    ids: Set<u128>,
)
    requires
        later.len() == history.len(),
        0 <= n <= history.len(),
        forall|i: int|
            #![trigger history[i]]
            #![trigger later[i]]
            0 <= i < history.len() ==> later[i].id == history[i].id && later[i].kind
                == history[i].kind,
    ensures
        with_results(later, n, ids) == with_results(history, n, ids),
    decreases n,
{
    if n > 0 {
        lemma_with_results_stable(history, later, n - 1, ids);
        assert(later[n - 1].kind == history[n - 1].kind);
        if let ChatEntryKind::ToolCall { id, .. } = history[n - 1].kind {
            tool_pairs::lemma_result_from_stable(history, later, n, id@);
            tool_pairs::lemma_result_from(history, n, id@);
        }
    }
}

proof fn lemma_with_calls_stable(
    history: Seq<ChatEntry>,
    later: Seq<ChatEntry>,
    n: int,
    ids: Set<u128>,
)
    requires
        later.len() == history.len(),
        0 <= n <= history.len(),
        forall|i: int|
            #![trigger history[i]]
            #![trigger later[i]]
            0 <= i < history.len() ==> later[i].id == history[i].id && later[i].kind
                == history[i].kind,
    ensures
        with_calls(later, n, ids) == with_calls(history, n, ids),
    decreases n,
{
    if n > 0 {
        lemma_with_calls_stable(history, later, n - 1, ids);
        assert(later[n - 1].kind == history[n - 1].kind);
        if let ChatEntryKind::ToolResult { id, .. } = history[n - 1].kind {
            lemma_call_from_stable(history, later, 0, id@);
            lemma_call_from(history, 0, id@);
        }
    }
}

/// Once the changes are made, the worker asks for nothing more.
pub proof fn lemma_inclusions_idempotent(history: Seq<ChatEntry>, radius: usize, worker: Seq<char>)
    ensures
        inclusions(
            history::with_overrides(history, inclusions(history, radius, worker)),
            radius,
            worker,
        ).len() == 0,
{
    let asked = inclusions(history, radius, worker);
    let ids = shield(history, radius);
    let f = inclusions_at(history, ids, worker);
    let n = history.len() as int;
    assert forall|k: int| 0 <= k < asked.len() implies (#[trigger] asked[k] matches
        history::MutationView::SetContextOverride { value, .. } && value
        == ContextOverride::ForcedInclude) by {
        history::lemma_per_index_contains(n, f, asked[k]);
        assert(asked.contains(asked[k]));
    }
    let later = history::with_overrides(history, asked);
    history::lemma_with_overrides(history, asked, ContextOverride::ForcedInclude);
    lemma_shield_stable(history, later, radius);
    let g = inclusions_at(later, ids, worker);
    assert forall|i: int| 0 <= i < n implies (#[trigger] g(i)).len() == 0 by {
        assert(later[i].id == history[i].id);
        if ids.contains(history[i].id.0) && history[i].context_override
            != ContextOverride::ForcedInclude {
            let m = history::worker_sets(history[i].id, ContextOverride::ForcedInclude, worker);
            let here = f(i);
            assert(here[0] == m);
            history::lemma_asked_is_targeted(n, f, i, m, history[i].id);
        }
    }
    history::lemma_per_index_empty(n, g);
}

/// Whether the entry at `i` is part of the conversation and a user message is
/// at most `radius` entries away from it.
pub open spec fn beside_user(history: Seq<ChatEntry>, i: int, radius: usize) -> bool {
    &&& 0 <= i < history.len()
    &&& history[i].kind is User || history[i].kind is Assistant || history[i].kind is ToolCall
        || history[i].kind is ToolResult
    &&& exists|u: int|
        0 <= u < history.len() && (#[trigger] history[u]).kind is User && -radius <= u - i
            <= radius
}

/// The id by which a tool call and its result know each other.
pub open spec fn tool_id(entry: ChatEntry) -> Option<Seq<char>> {
    match entry.kind {
        ChatEntryKind::ToolCall { id, .. } => Some(id@),
        ChatEntryKind::ToolResult { id, .. } => Some(id@),
        _ => None,
    }
}

/// Whether the entries are the same, or halves of one tool invocation.
pub open spec fn tied(history: Seq<ChatEntry>, i: int, j: int) -> bool {
    i == j || tool_id(history[i]) is Some && tool_id(history[i]) == tool_id(history[j])
}

/// Whether the entry at `i`, or one that it is tied to, stands beside a user
/// message.
spec fn has_reason(history: Seq<ChatEntry>, i: int, radius: usize) -> bool {
    exists|j: int| #[trigger] beside_user(history, j, radius) && tied(history, i, j)
}

spec fn all_have_reason(history: Seq<ChatEntry>, ids: Set<u128>, radius: usize) -> bool {
    forall|i: int|
        0 <= i < history.len() && ids.contains((#[trigger] history[i]).id.0) ==> has_reason(
            history,
            i,
            radius,
        )
}

proof fn lemma_results_have_reason(
    history: Seq<ChatEntry>,
    n: int,
    ids: Set<u128>,
    radius: usize,
)
    requires
        history::distinct_ids(history),
        0 <= n <= history.len(),
        all_have_reason(history, ids, radius),
    ensures
        all_have_reason(history, with_results(history, n, ids), radius),
    decreases n,
{
    if n > 0 {
        lemma_results_have_reason(history, n - 1, ids, radius);
        let before = with_results(history, n - 1, ids);
        let after = with_results(history, n, ids);
        assert forall|i: int|
            0 <= i < history.len() && after.contains(
                (#[trigger] history[i]).id.0,
            ) implies has_reason(history, i, radius) by {
            if !before.contains(history[i].id.0) {
                if let ChatEntryKind::ToolCall { id, .. } = history[n - 1].kind {
                    tool_pairs::lemma_result_from(history, n, id@);
                    let r = tool_pairs::result_from(history, n, id@).unwrap();
                    assert(history[r].id == history[i].id);
                    assert(has_reason(history, n - 1, radius));
                    let j = choose|j: int| #[trigger]
                        beside_user(history, j, radius) && tied(history, n - 1, j);
                    assert(tied(history, i, j));
                }
            }
        }
    }
}

proof fn lemma_calls_have_reason(
    history: Seq<ChatEntry>,
    n: int,
    ids: Set<u128>,
    radius: usize,
)
    requires
        history::distinct_ids(history),
        0 <= n <= history.len(),
        all_have_reason(history, ids, radius),
    ensures
        all_have_reason(history, with_calls(history, n, ids), radius),
    decreases n,
{
    if n > 0 {
        lemma_calls_have_reason(history, n - 1, ids, radius);
        let before = with_calls(history, n - 1, ids);
        let after = with_calls(history, n, ids);
        assert forall|i: int|
            0 <= i < history.len() && after.contains(
                (#[trigger] history[i]).id.0,
            ) implies has_reason(history, i, radius) by {
            if !before.contains(history[i].id.0) {
                if let ChatEntryKind::ToolResult { id, .. } = history[n - 1].kind {
                    lemma_call_from(history, 0, id@);
                    let c = call_from(history, 0, id@).unwrap();
                    assert(history[c].id == history[i].id);
                    assert(has_reason(history, n - 1, radius));
                    let j = choose|j: int| #[trigger]
                        beside_user(history, j, radius) && tied(history, n - 1, j);
                    assert(tied(history, i, j));
                }
            }
        }
    }
}

/// The worker includes nothing but entries beside a user message and what
/// belongs to the same tool invocation as one of them, and nothing that is
/// included already.
pub proof fn lemma_included_means_beside_user(
    history: Seq<ChatEntry>,
    radius: usize,
    worker: Seq<char>,
    m: history::MutationView,
) -> (found: (int, int))
    requires
        history::distinct_ids(history),
        radius < usize::MAX,
        inclusions(history, radius, worker).contains(m),
    ensures
        ({
            let (i, j) = found;
            &&& 0 <= i < history.len()
            &&& beside_user(history, j, radius)
            &&& tied(history, i, j)
            &&& history[i].context_override != ContextOverride::ForcedInclude
            &&& m == (history::MutationView::SetContextOverride {
                entry_id: history[i].id,
                value: ContextOverride::ForcedInclude,
                source: chat_entry::ChangeSourceView::Worker { name: worker },
            })
        }),
{
    let n = history.len() as int;
    let near = candidates(history, radius);
    let ids = shield(history, radius);
    assert(all_have_reason(history, near, radius)) by {
        assert forall|i: int|
            0 <= i < history.len() && near.contains((#[trigger] history[i]).id.0) implies has_reason(
            history,
            i,
            radius,
        ) by {
            let v = history[i].id.0;
            let j = choose|j: int|
                0 <= j < history.len() && (#[trigger] history[j]).id.0 == v && shieldable(
                    history[j].kind,
                ) && near_anchor(history, j, radius);
            assert(history[j].id == history[i].id);
            let u = choose|u: int|
                0 <= u < history.len() && (#[trigger] history[u]).kind is User && i - u <= radius
                    && u - i <= radius;
            assert(history[u].kind is User && -radius <= u - i <= radius);
            assert(beside_user(history, i, radius) && tied(history, i, i));
        }
    }
    lemma_results_have_reason(history, n, near, radius);
    lemma_calls_have_reason(history, n, with_results(history, n, near), radius);
    let f = inclusions_at(history, ids, worker);
    history::lemma_per_index_contains(n, f, m);
    let i = choose|i: int| 0 <= i < n && (#[trigger] f(i)).contains(m);
    assert(f(i)[0] == m);
    assert(has_reason(history, i, radius));
    let j = choose|j: int| #[trigger] beside_user(history, j, radius) && tied(history, i, j);
    (i, j)
}

proof fn lemma_shielded_is_included(
    history: Seq<ChatEntry>,
    radius: usize,
    worker: Seq<char>,
    i: int,
)
    requires
        0 <= i < history.len(),
        shield(history, radius).contains(history[i].id.0),
        history[i].context_override != ContextOverride::ForcedInclude,
    ensures
        inclusions(history, radius, worker).contains(
            history::worker_sets(history[i].id, ContextOverride::ForcedInclude, worker),
        ),
{
    let f = inclusions_at(history, shield(history, radius), worker);
    let m = history::worker_sets(history[i].id, ContextOverride::ForcedInclude, worker);
    assert(f(i)[0] == m);
    history::lemma_asked_is_targeted(history.len() as int, f, i, m, history[i].id);
}

/// Everything beside a user message is included, unless it is already: even
/// what another worker or the user has excluded.
pub proof fn lemma_beside_user_is_included(
    history: Seq<ChatEntry>,
    radius: usize,
    worker: Seq<char>,
    i: int,
)
    requires
        beside_user(history, i, radius),
        history[i].context_override != ContextOverride::ForcedInclude,
    ensures
        inclusions(history, radius, worker).contains(
            history::MutationView::SetContextOverride {
                entry_id: history[i].id,
                value: ContextOverride::ForcedInclude,
                source: chat_entry::ChangeSourceView::Worker { name: worker },
            },
        ),
{
    let u = choose|u: int|
        0 <= u < history.len() && (#[trigger] history[u]).kind is User && -radius <= u - i
            <= radius;
    assert(history[u].kind is User && i - u <= radius && u - i <= radius);
    assert(near_anchor(history, i, radius));
    lemma_near_entries_shielded(history, radius, i);
    lemma_shielded_is_included(history, radius, worker, i);
}

/// Where one half of a tool invocation stands beside a user message, the other
/// half is included as well, however far away it is.
pub proof fn lemma_other_half_is_included(
    history: Seq<ChatEntry>,
    radius: usize,
    worker: Seq<char>,
    c: int,
    r: int,
    k: int,
)
    requires
        history::distinct_ids(history),
        0 <= c < r < history.len(),
        history[c].kind is ToolCall,
        history[r].kind is ToolResult,
        tool_id(history[c]) == tool_id(history[r]),
        forall|j: int|
            0 <= j < history.len() && tool_id(#[trigger] history[j]) == tool_id(history[c]) ==> j
                == c || j == r,
        beside_user(history, c, radius) || beside_user(history, r, radius),
        k == c || k == r,
        history[k].context_override != ContextOverride::ForcedInclude,
    ensures
        inclusions(history, radius, worker).contains(
            history::MutationView::SetContextOverride {
                entry_id: history[k].id,
                value: ContextOverride::ForcedInclude,
                source: chat_entry::ChangeSourceView::Worker { name: worker },
            },
        ),
{
    let asked = history[c].kind->ToolCall_id@;
    lemma_only_call_is_first(history, 0, c);
    assert(exclusive_pair(history, c, r)) by {
        assert forall|j: int|
            0 <= j < history.len() && tool_pairs::answers(
                #[trigger] history[j],
                asked,
            ) implies j == r by {
            assert(tool_id(history[j]) == tool_id(history[c]));
        }
    }
    let near = if beside_user(history, c, radius) {
        c
    } else {
        r
    };
    let u = choose|u: int|
        0 <= u < history.len() && (#[trigger] history[u]).kind is User && -radius <= u - near
            <= radius;
    assert(history[u].kind is User && near - u <= radius && u - near <= radius);
    assert(near_anchor(history, near, radius));
    lemma_near_entries_shielded(history, radius, near);
    lemma_shield_keeps_pairs_whole(history, radius, c, r);
    lemma_shielded_is_included(history, radius, worker, k);
}

proof fn lemma_only_call_is_first(history: Seq<ChatEntry>, from: int, c: int)
    requires
        0 <= from <= c < history.len(),
        history[c].kind is ToolCall,
        forall|j: int|
            0 <= j < c && tool_id(#[trigger] history[j]) == tool_id(history[c])
                ==> !(history[j].kind is ToolCall),
    ensures
        call_from(history, from, history[c].kind->ToolCall_id@) == Some(c),
    decreases c - from,
{
    if from < c {
        let asked = history[c].kind->ToolCall_id@;
        if history[from].kind matches ChatEntryKind::ToolCall { id, .. } && id@ == asked {
            assert(tool_id(history[from]) == tool_id(history[c]));
        }
        lemma_only_call_is_first(history, from + 1, c);
    }
}

/// Each change of the worker includes an entry that stands beside a user
/// message, or is tied to one that does, and that is not included yet.
pub proof fn lemma_evaluate_shields_neighbours_alone(
    worker: &AnchorShieldAutoPruneWorker,
    session_id: &SessionId,
    history: &[ChatEntry],
    mutations: Vec<HistoryMutation>,
    x: int,
) -> (found: (int, int))
    requires
        history::distinct_ids(history@),
        worker.config.radius < usize::MAX,
        call_ensures(
            AnchorShieldAutoPruneWorker::evaluate,
            (worker, session_id, history),
            mutations,
        ),
        0 <= x < mutations@.len(),
    ensures
        ({
            let (i, j) = found;
            &&& 0 <= i < history@.len()
            &&& beside_user(history@, j, worker.config.radius)
            &&& tied(history@, i, j)
            &&& history@[i].context_override != ContextOverride::ForcedInclude
            &&& history::sets_override(
                mutations@[x],
                history@[i].id,
                ContextOverride::ForcedInclude,
                "auto-prune-anchor-shield"@,
            )
        }),
{
    let name = "auto-prune-anchor-shield"@;
    let views = history::mutation_views(mutations@);
    assert(views[x] == mutations@[x]@);
    let (i, j) = lemma_included_means_beside_user(history@, worker.config.radius, name, views[x]);
    history::lemma_override_view(
        mutations@[x],
        history@[i].id,
        ContextOverride::ForcedInclude,
        name,
    );
    (i, j)
}

/// Every entry beside a user message that is not included yet is included.
pub proof fn lemma_evaluate_shields_every_neighbour(
    worker: &AnchorShieldAutoPruneWorker,
    session_id: &SessionId,
    history: &[ChatEntry],
    mutations: Vec<HistoryMutation>,
    i: int,
)
    requires
        call_ensures(
            AnchorShieldAutoPruneWorker::evaluate,
            (worker, session_id, history),
            mutations,
        ),
        beside_user(history@, i, worker.config.radius),
        history@[i].context_override != ContextOverride::ForcedInclude,
    ensures
        exists|x: int|
            0 <= x < mutations@.len() && history::sets_override(
                #[trigger] mutations@[x],
                history@[i].id,
                ContextOverride::ForcedInclude,
                "auto-prune-anchor-shield"@,
            ),
{
    let name = "auto-prune-anchor-shield"@;
    lemma_beside_user_is_included(history@, worker.config.radius, name, i);
    history::lemma_views_hold_changes(
        mutations@,
        history@[i].id,
        ContextOverride::ForcedInclude,
        name,
    );
}

/// A tool call and its only result are included together, as soon as one of
/// them stands beside a user message.
pub proof fn lemma_evaluate_shields_pairs_whole(
    worker: &AnchorShieldAutoPruneWorker,
    session_id: &SessionId,
    history: &[ChatEntry],
    mutations: Vec<HistoryMutation>,
    c: int,
    r: int,
    k: int,
)
    requires
        history::distinct_ids(history@),
        call_ensures(
            AnchorShieldAutoPruneWorker::evaluate,
            (worker, session_id, history),
            mutations,
        ),
        0 <= c < r < history@.len(),
        history@[c].kind is ToolCall,
        history@[r].kind is ToolResult,
        tool_id(history@[c]) == tool_id(history@[r]),
        forall|j: int|
            0 <= j < history@.len() && tool_id(#[trigger] history@[j]) == tool_id(history@[c]) ==> j
                == c || j == r,
        beside_user(history@, c, worker.config.radius) || beside_user(
            history@,
            r,
            worker.config.radius,
        ),
        k == c || k == r,
        history@[k].context_override != ContextOverride::ForcedInclude,
    ensures
        exists|x: int|
            0 <= x < mutations@.len() && history::sets_override(
                #[trigger] mutations@[x],
                history@[k].id,
                ContextOverride::ForcedInclude,
                "auto-prune-anchor-shield"@,
            ),
{
    let name = "auto-prune-anchor-shield"@;
    lemma_other_half_is_included(history@, worker.config.radius, name, c, r, k);
    history::lemma_views_hold_changes(
        mutations@,
        history@[k].id,
        ContextOverride::ForcedInclude,
        name,
    );
}

/// The changes stand in the order of the entries, and none is asked for twice.
pub proof fn lemma_evaluate_goes_in_order(
    worker: &AnchorShieldAutoPruneWorker,
    session_id: &SessionId,
    history: &[ChatEntry],
    mutations: Vec<HistoryMutation>,
    x: int,
    i: int,
    y: int,
    j: int,
)
    requires
        history::distinct_ids(history@),
        call_ensures(
            AnchorShieldAutoPruneWorker::evaluate,
            (worker, session_id, history),
            mutations,
        ),
        0 <= x < y < mutations@.len(),
        0 <= i < history@.len(),
        0 <= j < history@.len(),
        mutations@[x] matches HistoryMutation::SetContextOverride { entry_id, .. } && entry_id
            == history@[i].id,
        mutations@[y] matches HistoryMutation::SetContextOverride { entry_id, .. } && entry_id
            == history@[j].id,
    ensures
        i < j,
{
    let name = "auto-prune-anchor-shield"@;
    let ids = shield(history@, worker.config.radius);
    let f = inclusions_at(history@, ids, name);
    let n = history@.len() as int;
    let views = history::mutation_views(mutations@);
    assert(views[x] == mutations@[x]@ && views[y] == mutations@[y]@);
    let a = history::lemma_per_index_origin(n, f, x);
    let b = history::lemma_per_index_origin(n, f, y);
    assert(history@[a].id == history@[i].id);
    assert(history@[b].id == history@[j].id);
    history::lemma_per_index_order(f, x, a, y, b);
}

} // verus!
