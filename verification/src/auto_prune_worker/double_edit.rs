//! Caps the number of `edit` and `write` calls per file that stay in the
//! prompt: the oldest pairs beyond the cap are taken out.

use crate::auto_prune_worker::min_age;
use crate::auto_prune_worker::min_age::is_within_min_age;
use crate::auto_prune_worker::tool_pairs;
use crate::auto_prune_worker::tool_pairs::{find_result_from, is_id_protected};
use crate::chat_entry;
use crate::chat_entry::{ChatEntry, ChatEntryId, ChatEntryKind, ContextOverride, SessionId};
use crate::history;
use crate::history::HistoryMutation;
use crate::text::text_eq;
use vstd::prelude::*;

verus! {

/// Configuration of the double-edit worker.
#[derive(Clone, Copy, Debug, PartialEq, Eq, Structural)]
pub struct DoubleEditAutoPruneConfig {
    pub enabled: bool,
    /// How many pairs per file stay in the prompt; 0 switches the cap off.
    pub max_file_edits: usize,
    /// How many entries at the end of the history are left alone.
    pub min_age: usize,
}

/// The double-edit worker.
#[derive(Clone, Copy, Debug, PartialEq, Eq, Structural)]
pub struct DoubleEditAutoPruneWorker {
    pub config: DoubleEditAutoPruneConfig,
}

/// The string that a JSON text holds under a key of its top-level object.
pub uninterp spec fn json_string_member(json: Seq<char>, key: Seq<char>) -> Option<Seq<char>>;

/// Parses with `serde_json::from_str` and reads a member with `Value::get` and
/// `Value::as_str`.
///
/// Trusted: the result is a function of the text and the key. It is `None`
/// when the text is no JSON, the value has no such member, or the member is no
/// string.
#[verifier::external_body]
fn read_json_string(json: &str, key: &str) -> (member: Option<String>)
    ensures
        (match member {
            Some(s) => Some(s@),
            None => None,
        }) == json_string_member(json@, key@),
{
    let value: serde_json::Value = serde_json::from_str(json).ok()?;
    value.get(key)?.as_str().map(str::to_owned)
}

/// An `edit` or `write` call with its result.
#[derive(Clone, Copy, Debug, PartialEq, Eq, Structural)]
pub struct EditWritePair {
    pub call_entry_id: ChatEntryId,
    pub result_entry_id: ChatEntryId,
    /// Where the call stands in the history.
    pub call_idx: usize,
    /// Whether the call has its override set.
    pub call_protected: bool,
    /// Whether the result has its override set.
    pub result_protected: bool,
}

/// The pairs that touch one file, oldest first.
#[derive(Debug, PartialEq, Eq)]
pub struct PathGroup {
    pub path: String,
    pub pairs: Vec<EditWritePair>,
}

/// The file and the pair of the call at `i`: an `edit` or `write` with a
/// `path` argument and a result.
pub open spec fn edit_pair(history: Seq<ChatEntry>, i: int) -> Option<(Seq<char>, EditWritePair)> {
    match history[i].kind {
        ChatEntryKind::ToolCall { id, name, arguments } => if name@ == "edit"@ || name@
            == "write"@ {
            match (
                json_string_member(arguments@, "path"@),
                tool_pairs::result_from(history, i + 1, id@),
            ) {
                (Some(path), Some(r)) => Some(
                    (
                        path,
                        EditWritePair {
                            call_entry_id: history[i].id,
                            result_entry_id: history[r].id,
                            call_idx: i as usize,
                            call_protected: history[i].protected_from_prune(),
                            result_protected: tool_pairs::id_protected(history, 0, history[r].id),
                        },
                    ),
                ),
                _ => None,
            }
        } else {
            None
        },
        _ => None,
    }
}

/// The pairs below index `n` that touch the file, oldest first.
pub open spec fn pairs_for(history: Seq<ChatEntry>, n: int, path: Seq<char>) -> Seq<EditWritePair>
    decreases n,
{
    if n <= 0 {
        Seq::empty()
    } else {
        let before = pairs_for(history, n - 1, path);
        match edit_pair(history, n - 1) {
            Some((p, pair)) => if p == path {
                before.push(pair)
            } else {
                before
            },
            None => before,
        }
    }
}

/// The files touched below index `n`, in the order of their first pair.
pub open spec fn touched_paths(history: Seq<ChatEntry>, n: int) -> Seq<Seq<char>>
    decreases n,
{
    if n <= 0 {
        Seq::empty()
    } else {
        let before = touched_paths(history, n - 1);
        match edit_pair(history, n - 1) {
            Some((p, _)) => if before.contains(p) {
                before
            } else {
                before.push(p)
            },
            None => before,
        }
    }
}

/// The changes asked for a pair: its halves without an override, unless the
/// call is too young.
pub open spec fn pair_exclusions(
    pairs: Seq<EditWritePair>,
    history_len: usize,
    min_age: usize,
    worker: Seq<char>,
) -> spec_fn(int) -> Seq<history::MutationView> {
    |k: int|
        {
            let pair = pairs[k];
            let call = if pair.call_protected {
                Seq::empty()
            } else {
                seq![history::worker_excludes(pair.call_entry_id, worker)]
            };
            let result = if pair.result_protected {
                Seq::empty()
            } else {
                seq![history::worker_excludes(pair.result_entry_id, worker)]
            };
            if min_age::age(history_len, pair.call_idx) < min_age {
                Seq::empty()
            } else {
                call + result
            }
        }
}

/// How many of the oldest pairs exceed the cap.
pub open spec fn surplus(count: nat, max_file_edits: usize) -> int {
    if count <= max_file_edits {
        0
    } else {
        count - max_file_edits
    }
}

/// The changes asked for one file.
pub open spec fn file_exclusions(
    pairs: Seq<EditWritePair>,
    history_len: usize,
    max_file_edits: usize,
    min_age: usize,
    worker: Seq<char>,
) -> Seq<history::MutationView> {
    history::per_index(
        surplus(pairs.len(), max_file_edits),
        pair_exclusions(pairs, history_len, min_age, worker),
    )
}

/// The changes asked for at the `g`-th file.
pub open spec fn exclusions_at(
    history: Seq<ChatEntry>,
    max_file_edits: usize,
    min_age: usize,
    worker: Seq<char>,
) -> spec_fn(int) -> Seq<history::MutationView> {
    |g: int|
        file_exclusions(
            pairs_for(
                history,
                history.len() as int,
                touched_paths(history, history.len() as int)[g],
            ),
            history.len() as usize,
            max_file_edits,
            min_age,
            worker,
        )
}

/// All changes the worker asks for, file by file.
pub open spec fn exclusions(
    history: Seq<ChatEntry>,
    max_file_edits: usize,
    min_age: usize,
    worker: Seq<char>,
) -> Seq<history::MutationView> {
    if max_file_edits == 0 {
        Seq::empty()
    } else {
        history::per_index(
            touched_paths(history, history.len() as int).len() as int,
            exclusions_at(history, max_file_edits, min_age, worker),
        )
    }
}

/// The `path` argument of a tool call, if its arguments hold one.
pub fn extract_path_from_arguments(arguments: &str) -> (path: Option<String>)
    ensures
        (match path {
            Some(s) => Some(s@),
            None => None,
        }) == json_string_member(arguments@, "path"@),
{
    read_json_string(arguments, "path")
}

/// Whether the groups hold the pairs below `n`, one group per touched file.
pub open spec fn groups_hold(groups: Seq<PathGroup>, history: Seq<ChatEntry>, n: int) -> bool {
    &&& groups.len() == touched_paths(history, n).len()
    &&& forall|g: int|
        0 <= g < groups.len() ==> (#[trigger] groups[g]).path@ == touched_paths(history, n)[g]
            && groups[g].pairs@ == pairs_for(history, n, groups[g].path@)
}

proof fn lemma_touched_paths(history: Seq<ChatEntry>, n: int)
    ensures
        touched_paths(history, n).no_duplicates(),
        forall|path: Seq<char>| #[trigger]
            pairs_for(history, n, path).len() > 0 ==> touched_paths(history, n).contains(path),
    decreases n,
{
    if n > 0 {
        lemma_touched_paths(history, n - 1);
        let before = touched_paths(history, n - 1);
        let after = touched_paths(history, n);
        assert forall|path: Seq<char>| #[trigger]
            pairs_for(history, n, path).len() > 0 implies after.contains(path) by {
            if pairs_for(history, n - 1, path).len() > 0 {
                let k = choose|k: int| 0 <= k < before.len() && before[k] == path;
                assert(after[k] == path);
            } else {
                let p = edit_pair(history, n - 1).unwrap().0;
                if !before.contains(p) {
                    assert(after[before.len() as int] == p);
                }
            }
        }
    }
}

/// Finds the group of a file.
fn find_group(groups: &Vec<PathGroup>, path: &String) -> (found: Option<usize>)
    ensures
        found matches Some(g) ==> g < groups@.len() && groups@[g as int].path@ == path@,
        found is None ==> forall|g: int|
            0 <= g < groups@.len() ==> (#[trigger] groups@[g]).path@ != path@,
{
    let mut g: usize = 0;
    while g < groups.len()
        invariant
            forall|j: int| 0 <= j < g ==> (#[trigger] groups@[j]).path@ != path@,
        decreases groups@.len() - g,
    {
        if groups[g].path == *path {
            return Some(g);
        }
        g += 1;
    }
    None
}

/// Groups the `edit` and `write` pairs of a history by file.
///
/// Pairs with an override are counted too, so that the cap does not shift when
/// one is set. Calls without a result are not counted.
pub fn collect_edit_write_pairs_by_path(history: &[ChatEntry]) -> (groups: Vec<PathGroup>)
    ensures
        groups_hold(groups@, history@, history@.len() as int),
{
    let mut groups: Vec<PathGroup> = Vec::new();
    let mut i: usize = 0;
    while i < history.len()
        invariant
            i <= history@.len(),
            groups_hold(groups@, history@, i as int),
        decreases history@.len() - i,
    {
        let ghost before = groups@;
        let entry = &history[i];
        if let ChatEntryKind::ToolCall { id, name, arguments } = &entry.kind {
            if text_eq(name.as_str(), "edit") || text_eq(name.as_str(), "write") {
                if let Some(path) = extract_path_from_arguments(arguments.as_str()) {
                    if let Some(r) = find_result_from(history, i + 1, id) {
                        let result_id = history[r].id;
                        let pair = EditWritePair {
                            call_entry_id: entry.id,
                            result_entry_id: result_id,
                            call_idx: i,
                            call_protected: entry.is_protected_from_prune(),
                            result_protected: is_id_protected(history, 0, result_id),
                        };
                        proof {
                            assert(edit_pair(history@, i as int) == Some((path@, pair)));
                            lemma_touched_paths(history@, i as int);
                        }
                        let ghost paths = touched_paths(history@, i as int);
                        match find_group(&groups, &path) {
                            Some(g) => {
                                proof {
                                    assert(paths[g as int] == path@);
                                    assert(paths.contains(path@));
                                }
                                groups[g].pairs.push(pair);
                                proof {
                                    assert(touched_paths(history@, i + 1) == paths);
                                    assert forall|j: int|
                                        0 <= j < groups@.len() implies (
                                    #[trigger] groups@[j]).path@ == paths[j] && groups@[j].pairs@
                                        == pairs_for(history@, i + 1, groups@[j].path@) by {
                                        if j != g {
                                            assert(groups@[j] == before[j]);
                                            assert(paths[j] != paths[g as int]);
                                        }
                                    }
                                }
                            },
                            None => {
                                proof {
                                    if paths.contains(path@) {
                                        let k = choose|k: int|
                                            0 <= k < paths.len() && paths[k] == path@;
                                        assert(before[k].path@ == path@);
                                    }
                                }
                                let mut pairs: Vec<EditWritePair> = Vec::new();
                                pairs.push(pair);
                                let ghost pushed = pairs@;
                                groups.push(PathGroup { path, pairs });
                                proof {
                                    assert(pairs_for(history@, i as int, path@).len() == 0);
                                    assert(pushed =~= pairs_for(history@, i + 1, path@));
                                    let after = touched_paths(history@, i + 1);
                                    assert(after == paths.push(path@));
                                    assert forall|j: int|
                                        0 <= j < groups@.len() implies (
                                    #[trigger] groups@[j]).path@ == after[j] && groups@[j].pairs@
                                        == pairs_for(history@, i + 1, groups@[j].path@) by {
                                        if j < before.len() {
                                            assert(groups@[j] == before[j]);
                                            assert(paths[j] != path@);
                                        }
                                    }
                                }
                            },
                        }
                    }
                }
            }
        }
        i += 1;
    }
    groups
}

/// Asks to exclude the oldest pairs of each file that has more than
/// `max_file_edits` of them.
pub fn build_prune_mutations(
    history_len: usize,
    groups: &Vec<PathGroup>,
    max_file_edits: usize,
    min_age: usize,
    worker_name: &str,
) -> (mutations: Vec<HistoryMutation>)
    ensures
        history::mutation_views(mutations@) == history::per_index(
            groups@.len() as int,
            |g: int|
                file_exclusions(
                    groups@[g].pairs@,
                    history_len,
                    max_file_edits,
                    min_age,
                    worker_name@,
                ),
        ),
{
    let ghost file = |g: int|
        file_exclusions(groups@[g].pairs@, history_len, max_file_edits, min_age, worker_name@);
    let mut mutations: Vec<HistoryMutation> = Vec::new();
    assert(history::mutation_views(mutations@) =~= Seq::empty());
    let mut g: usize = 0;
    while g < groups.len()
        invariant
            g <= groups@.len(),
            file == (|g: int|
                file_exclusions(
                    groups@[g].pairs@,
                    history_len,
                    max_file_edits,
                    min_age,
                    worker_name@,
                )),
            history::mutation_views(mutations@) == history::per_index(g as int, file),
        decreases groups@.len() - g,
    {
        let ghost earlier = history::mutation_views(mutations@);
        let pairs = &groups[g].pairs;
        let to_prune: usize = if pairs.len() <= max_file_edits {
            0
        } else {
            pairs.len() - max_file_edits
        };
        let ghost f = pair_exclusions(pairs@, history_len, min_age, worker_name@);
        assert(history::mutation_views(mutations@) =~= earlier + history::per_index(0, f));
        let mut k: usize = 0;
        while k < to_prune
            invariant
                k <= to_prune <= pairs@.len(),
                f == pair_exclusions(pairs@, history_len, min_age, worker_name@),
                history::mutation_views(mutations@) == earlier + history::per_index(k as int, f),
            decreases to_prune - k,
        {
            let ghost before = mutations@;
            let pair = &pairs[k];
            if !is_within_min_age(history_len, pair.call_idx, min_age) {
                if !pair.call_protected {
                    let m = HistoryMutation::worker_exclude(pair.call_entry_id, worker_name);
                    proof {
                        history::lemma_push_view(mutations@, m);
                    }
                    mutations.push(m);
                }
                if !pair.result_protected {
                    let m = HistoryMutation::worker_exclude(pair.result_entry_id, worker_name);
                    proof {
                        history::lemma_push_view(mutations@, m);
                    }
                    mutations.push(m);
                }
            }
            proof {
                assert(history::mutation_views(mutations@) =~= history::mutation_views(before) + f(
                    k as int,
                ));
                assert(history::mutation_views(mutations@) =~= earlier + history::per_index(
                    k + 1,
                    f,
                ));
            }
            k += 1;
        }
        assert(history::per_index(k as int, f) == file(g as int));
        g += 1;
    }
    mutations
}

impl DoubleEditAutoPruneWorker {
    /// The worker's name, as recorded with each change.
    pub fn name(&self) -> (name: &'static str)
        ensures
            name@ == "auto-prune-double-edit"@,
    {
        "auto-prune-double-edit"
    }

    /// Asks to exclude the oldest edits of each file beyond the cap.
    pub fn evaluate(&self, _session_id: &SessionId, history: &[ChatEntry]) -> (mutations: Vec<
        HistoryMutation,
    >)
        ensures
            history::mutation_views(mutations@) == exclusions(
                history@,
                self.config.max_file_edits,
                self.config.min_age,
                "auto-prune-double-edit"@,
            ),
    {
        if self.config.max_file_edits == 0 {
            let mutations: Vec<HistoryMutation> = Vec::new();
            assert(history::mutation_views(mutations@) =~= Seq::empty());
            return mutations;
        }
        let groups = collect_edit_write_pairs_by_path(history);
        proof {
            let by_group = |g: int|
                file_exclusions(
                    groups@[g].pairs@,
                    history.len(),
                    self.config.max_file_edits,
                    self.config.min_age,
                    "auto-prune-double-edit"@,
                );
            let by_path = exclusions_at(
                history@,
                self.config.max_file_edits,
                self.config.min_age,
                "auto-prune-double-edit"@,
            );
            assert forall|g: int| 0 <= g < groups@.len() implies #[trigger] by_group(g) == by_path(
                g,
            ) by {
                assert(groups@[g].path@ == touched_paths(history@, history@.len() as int)[g]);
            }
            history::lemma_per_index_agree(groups@.len() as int, by_group, by_path);
        }
        build_prune_mutations(
            history.len(),
            &groups,
            self.config.max_file_edits,
            self.config.min_age,
            self.name(),
        )
    }
}

/// Only surplus pairs are touched: each change targets a half without an
/// override of a pair that is old enough, and behind that pair at least
/// `max_file_edits` newer pairs of the same file are left alone.
pub proof fn lemma_exclusions_are_surplus(
    history: Seq<ChatEntry>,
    max_file_edits: usize,
    min_age: usize,
    worker: Seq<char>,
    m: history::MutationView,
) -> (found: (int, int))
    requires
        exclusions(history, max_file_edits, min_age, worker).contains(m),
    ensures
        ({
            let n = history.len() as int;
            let (g, k) = found;
            let pairs = pairs_for(history, n, touched_paths(history, n)[g]);
            &&& 0 <= g < touched_paths(history, n).len()
            &&& 0 <= k < pairs.len() - max_file_edits
            &&& min_age::age(history.len() as usize, pairs[k].call_idx) >= min_age
            &&& m == history::worker_excludes(pairs[k].call_entry_id, worker)
                && !pairs[k].call_protected || m == history::worker_excludes(
                pairs[k].result_entry_id,
                worker,
            ) && !pairs[k].result_protected
        }),
{
    let n = history.len() as int;
    let paths = touched_paths(history, n);
    let f = exclusions_at(history, max_file_edits, min_age, worker);
    history::lemma_per_index_contains(paths.len() as int, f, m);
    let g = choose|g: int| 0 <= g < paths.len() && (#[trigger] f(g)).contains(m);
    let pairs = pairs_for(history, n, paths[g]);
    let h = pair_exclusions(pairs, history.len() as usize, min_age, worker);
    let count = surplus(pairs.len(), max_file_edits);
    history::lemma_per_index_contains(count, h, m);
    let k = choose|k: int| 0 <= k < count && (#[trigger] h(k)).contains(m);
    let asked = h(k);
    let x = choose|x: int| 0 <= x < asked.len() && asked[x] == m;
    if asked.len() == 2 {
        assert(asked[0] == history::worker_excludes(pairs[k].call_entry_id, worker));
        assert(asked[1] == history::worker_excludes(pairs[k].result_entry_id, worker));
    }
    (g, k)
}

/// Each half without an override of a surplus pair that is old enough is
/// excluded.
proof fn lemma_surplus_is_excluded(
    history: Seq<ChatEntry>,
    max_file_edits: usize,
    min_age: usize,
    worker: Seq<char>,
    g: int,
    k: int,
)
    requires
        max_file_edits > 0,
        0 <= g < touched_paths(history, history.len() as int).len(),
        ({
            let n = history.len() as int;
            let pairs = pairs_for(history, n, touched_paths(history, n)[g]);
            0 <= k < pairs.len() - max_file_edits && min_age::age(
                history.len() as usize,
                pairs[k].call_idx,
            ) >= min_age
        }),
    ensures
        ({
            let n = history.len() as int;
            let pair = pairs_for(history, n, touched_paths(history, n)[g])[k];
            let asked = exclusions(history, max_file_edits, min_age, worker);
            &&& !pair.call_protected ==> history::targets(asked, pair.call_entry_id)
            &&& !pair.result_protected ==> history::targets(asked, pair.result_entry_id)
        }),
{
    let n = history.len() as int;
    let paths = touched_paths(history, n);
    let f = exclusions_at(history, max_file_edits, min_age, worker);
    let pairs = pairs_for(history, n, paths[g]);
    let pair = pairs[k];
    let h = pair_exclusions(pairs, history.len() as usize, min_age, worker);
    let count = surplus(pairs.len(), max_file_edits);
    let asked = h(k);
    let call = history::worker_excludes(pair.call_entry_id, worker);
    let result = history::worker_excludes(pair.result_entry_id, worker);
    if !pair.call_protected {
        assert(asked[0] == call);
        history::lemma_asked_is_targeted(count, h, k, call, pair.call_entry_id);
        history::lemma_asked_is_targeted(paths.len() as int, f, g, call, pair.call_entry_id);
    }
    if !pair.result_protected {
        assert(asked[asked.len() - 1] == result);
        history::lemma_asked_is_targeted(count, h, k, result, pair.result_entry_id);
        history::lemma_asked_is_targeted(paths.len() as int, f, g, result, pair.result_entry_id);
    }
}

/// Setting overrides changes no grouping; where a half of a pair has lost its
/// chance to be excluded, an override was set.
proof fn lemma_pairs_stable(
    history: Seq<ChatEntry>,
    later: Seq<ChatEntry>,
    n: int,
    path: Seq<char>,
)
    requires
        tool_pairs::more_overridden(history, later),
        0 <= n <= history.len() <= usize::MAX,
    ensures
        touched_paths(later, n) == touched_paths(history, n),
        pairs_for(later, n, path).len() == pairs_for(history, n, path).len(),
        forall|k: int|
            #![trigger pairs_for(later, n, path)[k]]
            0 <= k < pairs_for(later, n, path).len() ==> {
                let was = pairs_for(history, n, path)[k];
                let now = pairs_for(later, n, path)[k];
                &&& now.call_entry_id == was.call_entry_id
                &&& now.result_entry_id == was.result_entry_id
                &&& now.call_idx == was.call_idx
                &&& was.call_protected ==> now.call_protected
                &&& was.result_protected ==> now.result_protected
                &&& now.call_idx < n
                &&& edit_pair(later, now.call_idx as int) == Some((path, now))
            },
    decreases n,
{
    if n > 0 {
        lemma_pairs_stable(history, later, n - 1, path);
        let i = n - 1;
        assert(later[i].kind == history[i].kind);
        if let ChatEntryKind::ToolCall { id, .. } = history[i].kind {
            tool_pairs::lemma_result_from_stable(history, later, n, id@);
            tool_pairs::lemma_result_from(history, n, id@);
            if let Some(r) = tool_pairs::result_from(history, n, id@) {
                assert(later[r].id == history[r].id);
                if tool_pairs::id_protected(history, 0, history[r].id) {
                    tool_pairs::lemma_id_protected_grows(history, later, 0, history[r].id);
                }
            }
        }
    }
}

/// Once the changes are made, the worker asks for nothing more.
pub proof fn lemma_exclusions_idempotent(
    history: Seq<ChatEntry>,
    max_file_edits: usize,
    min_age: usize,
    worker: Seq<char>,
)
    requires
        history.len() <= usize::MAX,
    ensures
        exclusions(
            history::with_overrides(
                history,
                exclusions(history, max_file_edits, min_age, worker),
            ),
            max_file_edits,
            min_age,
            worker,
        ).len() == 0,
{
    let asked = exclusions(history, max_file_edits, min_age, worker);
    assert forall|k: int| 0 <= k < asked.len() implies (#[trigger] asked[k] matches
        history::MutationView::SetContextOverride { value, .. } && value
        == ContextOverride::ForcedExclude) by {
        assert(asked.contains(asked[k]));
        lemma_exclusions_are_surplus(history, max_file_edits, min_age, worker, asked[k]);
    }
    let later = history::with_overrides(history, asked);
    history::lemma_with_overrides(history, asked, ContextOverride::ForcedExclude);
    assert(tool_pairs::more_overridden(history, later));
    let again = exclusions(later, max_file_edits, min_age, worker);
    if again.len() > 0 {
        let m = again[0];
        assert(again.contains(m));
        let (g, k) = lemma_exclusions_are_surplus(later, max_file_edits, min_age, worker, m);
        let n = history.len() as int;
        let path = touched_paths(later, n)[g];
        lemma_pairs_stable(history, later, n, path);
        let now = pairs_for(later, n, path)[k];
        let was = pairs_for(history, n, path)[k];
        lemma_surplus_is_excluded(history, max_file_edits, min_age, worker, g, k);
        let i = now.call_idx as int;
        assert(edit_pair(later, i) == Some((path, now)));
        assert(later[i].id == now.call_entry_id);
        assert(history[i].id == now.call_entry_id);
        if !now.call_protected {
            assert(later[i].protected_from_prune());
        }
        if !now.result_protected {
            if let ChatEntryKind::ToolCall { id, .. } = later[i].kind {
                tool_pairs::lemma_result_from(later, i + 1, id@);
                let r = tool_pairs::result_from(later, i + 1, id@).unwrap();
                assert forall|j: int|
                    0 <= j < later.len() && (#[trigger] later[j]).id
                        == now.result_entry_id implies later[j].protected_from_prune() by {
                    assert(history[j].id == later[j].id);
                }
                tool_pairs::lemma_id_protected_when_all_are(later, 0, now.result_entry_id, r);
            }
        }
    }
}

/// Whether the call at `c` is an answered `edit` or `write` of the file, with
/// its result at `r`.
pub open spec fn edits_file(history: Seq<ChatEntry>, path: Seq<char>, c: int, r: int) -> bool {
    &&& tool_pairs::answered_by(history, c, r)
    &&& history[c].kind matches ChatEntryKind::ToolCall { name, arguments, .. } && (name@
        == "edit"@ || name@ == "write"@) && json_string_member(arguments@, "path"@) == Some(path)
}

/// Whether `later` are the indices of further answered edits of the file
/// behind `c`, in ascending order.
pub open spec fn later_edits(
    history: Seq<ChatEntry>,
    path: Seq<char>,
    c: int,
    later: Seq<int>,
) -> bool {
    &&& forall|j: int|
        0 <= j < later.len() ==> c < #[trigger] later[j] && exists|r: int|
            edits_file(history, path, later[j], r)
    &&& forall|i: int, j: int| 0 <= i < j < later.len() ==> later[i] < later[j]
}

proof fn lemma_edit_pair_is_edit(history: Seq<ChatEntry>, i: int)
    requires
        0 <= i < history.len(),
    ensures
        forall|path: Seq<char>, r: int| #[trigger]
            edits_file(history, path, i, r) ==> (edit_pair(history, i) matches Some((p, pair)) && p
                == path && pair.result_entry_id == history[r].id),
        edit_pair(history, i) matches Some((path, pair)) ==> pair.call_idx == i as usize
            && pair.call_entry_id == history[i].id && pair.call_protected == (
        history[i].context_override != ContextOverride::Default) && exists|r: int| #[trigger]
            edits_file(history, path, i, r) && pair.result_entry_id == history[r].id
                && pair.result_protected == tool_pairs::id_protected(history, 0, history[r].id),
{
    if history[i].kind is ToolCall {
        tool_pairs::lemma_answered_by(history, i);
        if let Some((path, pair)) = edit_pair(history, i) {
            let r = tool_pairs::result_from(
                history,
                i + 1,
                history[i].kind->ToolCall_id@,
            ).unwrap();
            assert(tool_pairs::answered_by(history, i, r));
            assert(edits_file(history, path, i, r));
        }
    }
}

/// The pairs of a file are its answered edits, in the order of their calls.
proof fn lemma_pairs_in_order(history: Seq<ChatEntry>, n: int, path: Seq<char>)
    requires
        0 <= n <= history.len() <= usize::MAX,
    ensures
        forall|k: int|
            #![trigger pairs_for(history, n, path)[k]]
            0 <= k < pairs_for(history, n, path).len() ==> {
                let pair = pairs_for(history, n, path)[k];
                pair.call_idx < n && edit_pair(history, pair.call_idx as int) == Some((path, pair))
            },
        forall|i: int, k: int|
            0 <= i < k < pairs_for(history, n, path).len() ==> (#[trigger] pairs_for(
                history,
                n,
                path,
            )[i]).call_idx < (#[trigger] pairs_for(history, n, path)[k]).call_idx,
        forall|i: int|
            0 <= i < n && (#[trigger] edit_pair(history, i) matches Some((p, _)) && p == path)
                ==> pairs_for(history, n, path).contains(edit_pair(history, i).unwrap().1),
    decreases n,
{
    if n > 0 {
        lemma_pairs_in_order(history, n - 1, path);
        let before = pairs_for(history, n - 1, path);
        let after = pairs_for(history, n, path);
        assert forall|i: int|
            0 <= i < n && (#[trigger] edit_pair(history, i) matches Some((p, _)) && p
                == path) implies after.contains(edit_pair(history, i).unwrap().1) by {
            let pair = edit_pair(history, i).unwrap().1;
            if i < n - 1 {
                assert(before.contains(pair));
                let k = choose|k: int| 0 <= k < before.len() && before[k] == pair;
                assert(after[k] == pair);
            } else {
                assert(after[before.len() as int] == pair);
            }
        }
        assert forall|i: int, k: int| 0 <= i < k < after.len() implies (
        #[trigger] after[i]).call_idx < (#[trigger] after[k]).call_idx by {
            assert(after[i] == before[i]);
            if k < before.len() {
                assert(after[k] == before[k]);
            }
        }
        assert forall|k: int| 0 <= k < after.len() implies ({
            let pair = #[trigger] after[k];
            pair.call_idx < n && edit_pair(history, pair.call_idx as int) == Some((path, pair))
        }) by {
            if k < before.len() {
                assert(after[k] == before[k]);
            }
        }
    }
}

/// The worker excludes nothing but halves without an override of answered
/// `edit` and `write` calls, and only where at least `min_age` entries stand
/// behind the call and `max_file_edits` later ones of the same file stay.
pub proof fn lemma_excluded_means_surplus_edit(
    history: Seq<ChatEntry>,
    max_file_edits: usize,
    min_age: usize,
    worker: Seq<char>,
    m: history::MutationView,
) -> (found: (Seq<char>, int, int, Seq<int>))
    requires
        history::distinct_ids(history),
        history.len() <= usize::MAX,
        exclusions(history, max_file_edits, min_age, worker).contains(m),
    ensures
        ({
            let (path, c, r, later) = found;
            &&& edits_file(history, path, c, r)
            &&& max_file_edits > 0
            &&& later.len() == max_file_edits
            &&& later_edits(history, path, c, later)
            &&& history.len() - c - 1 >= min_age
            &&& exists|k: int|
                (k == c || k == r) && (#[trigger] history[k]).context_override
                    == ContextOverride::Default && m
                    == (history::MutationView::SetContextOverride {
                    entry_id: history[k].id,
                    value: ContextOverride::ForcedExclude,
                    source: chat_entry::ChangeSourceView::Worker { name: worker },
                })
        }),
{
    let n = history.len() as int;
    let (g, k) = lemma_exclusions_are_surplus(history, max_file_edits, min_age, worker, m);
    let path = touched_paths(history, n)[g];
    let pairs = pairs_for(history, n, path);
    lemma_pairs_in_order(history, n, path);
    let pair = pairs[k];
    let c = pair.call_idx as int;
    assert(edit_pair(history, c) == Some((path, pair)));
    lemma_edit_pair_is_edit(history, c);
    let r = choose|r: int| #[trigger]
        edits_file(history, path, c, r) && pair.result_entry_id == history[r].id
            && pair.result_protected == tool_pairs::id_protected(history, 0, history[r].id);
    tool_pairs::lemma_id_protected_distinct(history, 0, r);
    let later = Seq::new(max_file_edits as nat, |j: int| pairs[k + 1 + j].call_idx as int);
    assert forall|j: int| 0 <= j < later.len() implies c < #[trigger] later[j] && exists|q: int|
        edits_file(history, path, later[j], q) by {
        let other = pairs[k + 1 + j];
        assert(edit_pair(history, later[j]) == Some((path, other)));
        lemma_edit_pair_is_edit(history, later[j]);
    }
    assert forall|i: int, j: int| 0 <= i < j < later.len() implies later[i] < later[j] by {
        assert(pairs[k + 1 + i].call_idx < pairs[k + 1 + j].call_idx);
    }
    if m == history::worker_excludes(history[c].id, worker) && !pair.call_protected {
        assert(history[c].context_override == ContextOverride::Default);
    } else {
        assert(history[r].context_override == ContextOverride::Default);
    }
    (path, c, r, later)
}

proof fn lemma_later_positions(
    history: Seq<ChatEntry>,
    path: Seq<char>,
    c: int,
    k: int,
    later: Seq<int>,
)
    requires
        history.len() <= usize::MAX,
        later_edits(history, path, c, later),
        0 <= k < pairs_for(history, history.len() as int, path).len(),
        pairs_for(history, history.len() as int, path)[k].call_idx == c,
    ensures
        k + later.len() < pairs_for(history, history.len() as int, path).len(),
        later.len() > 0 ==> exists|x: int|
            k + later.len() <= x < pairs_for(history, history.len() as int, path).len() && (
            #[trigger] pairs_for(history, history.len() as int, path)[x]).call_idx == later.last(),
    decreases later.len(),
{
    let n = history.len() as int;
    let pairs = pairs_for(history, n, path);
    lemma_pairs_in_order(history, n, path);
    if later.len() > 0 {
        let init = later.drop_last();
        assert(later_edits(history, path, c, init)) by {
            assert forall|j: int| 0 <= j < init.len() implies c < #[trigger] init[j] && exists|r: int|
                edits_file(history, path, init[j], r) by {
                assert(later[j] == init[j]);
            }
        }
        lemma_later_positions(history, path, c, k, init);
        let last = later.last();
        assert(later[later.len() - 1] == last);
        let r = choose|r: int| edits_file(history, path, last, r);
        assert(edits_file(history, path, last, r));
        lemma_edit_pair_is_edit(history, last);
        let pair = edit_pair(history, last).unwrap().1;
        assert(pairs.contains(pair));
        let x = choose|x: int| 0 <= x < pairs.len() && pairs[x] == pair;
        let before = if init.len() > 0 {
            assert(later[init.len() - 1] == init.last());
            choose|y: int|
                k + init.len() <= y < pairs.len() && (#[trigger] pairs[y]).call_idx == init.last()
        } else {
            k
        };
        assert(pairs[before].call_idx < pairs[x].call_idx);
        if x <= before {
            if x < before {
                assert(pairs[x].call_idx < pairs[before].call_idx);
            }
        }
        assert(pairs[x].call_idx == later.last());
    }
}

/// An answered `edit` or `write` with at least `min_age` entries behind its
/// call and `max_file_edits` later ones of the same file loses each half that
/// has no override.
pub proof fn lemma_surplus_edit_is_excluded(
    history: Seq<ChatEntry>,
    max_file_edits: usize,
    min_age: usize,
    worker: Seq<char>,
    path: Seq<char>,
    c: int,
    r: int,
    later: Seq<int>,
)
    requires
        history::distinct_ids(history),
        history.len() <= usize::MAX,
        max_file_edits > 0,
        edits_file(history, path, c, r),
        later.len() == max_file_edits,
        later_edits(history, path, c, later),
        history.len() - c - 1 >= min_age,
    ensures
        forall|k: int|
            (k == c || k == r) && (#[trigger] history[k]).context_override
                == ContextOverride::Default ==> exclusions(
                history,
                max_file_edits,
                min_age,
                worker,
            ).contains(
                history::MutationView::SetContextOverride {
                    entry_id: history[k].id,
                    value: ContextOverride::ForcedExclude,
                    source: chat_entry::ChangeSourceView::Worker { name: worker },
                },
            ),
{
    let n = history.len() as int;
    let paths = touched_paths(history, n);
    let pairs = pairs_for(history, n, path);
    lemma_pairs_in_order(history, n, path);
    lemma_edit_pair_is_edit(history, c);
    let pair = edit_pair(history, c).unwrap().1;
    assert(pairs.contains(pair));
    let x = choose|x: int| 0 <= x < pairs.len() && pairs[x] == pair;
    lemma_later_positions(history, path, c, x, later);
    lemma_touched_paths(history, n);
    assert(paths.contains(path));
    let g = choose|g: int| 0 <= g < paths.len() && paths[g] == path;
    let q = choose|q: int| #[trigger]
        edits_file(history, path, c, q) && pair.result_entry_id == history[q].id
            && pair.result_protected == tool_pairs::id_protected(history, 0, history[q].id);
    assert(history[q].id == history[r].id);
    tool_pairs::lemma_id_protected_distinct(history, 0, r);
    let f = exclusions_at(history, max_file_edits, min_age, worker);
    let h = pair_exclusions(pairs, history.len() as usize, min_age, worker);
    let count = surplus(pairs.len(), max_file_edits);
    let asked = h(x);
    let call = history::worker_excludes(history[c].id, worker);
    let result = history::worker_excludes(history[r].id, worker);
    if history[c].context_override == ContextOverride::Default {
        assert(asked[0] == call);
        history::lemma_asked_is_targeted(count, h, x, call, history[c].id);
        history::lemma_asked_is_targeted(paths.len() as int, f, g, call, history[c].id);
    }
    if history[r].context_override == ContextOverride::Default {
        assert(asked[asked.len() - 1] == result);
        history::lemma_asked_is_targeted(count, h, x, result, history[r].id);
        history::lemma_asked_is_targeted(paths.len() as int, f, g, result, history[r].id);
    }
}

/// A history without answered `edit` or `write` calls is left alone, and so is
/// every history where the cap is off.
pub proof fn lemma_without_edits_nothing_is_excluded(
    history: Seq<ChatEntry>,
    max_file_edits: usize,
    min_age: usize,
    worker: Seq<char>,
)
    requires
        history::distinct_ids(history),
        history.len() <= usize::MAX,
        max_file_edits == 0 || forall|i: int|
            0 <= i < history.len() ==> !((#[trigger] history[i]).kind matches
                ChatEntryKind::ToolCall { name, .. } && (name@ == "edit"@ || name@ == "write"@)),
    ensures
        exclusions(history, max_file_edits, min_age, worker).len() == 0,
{
    let asked = exclusions(history, max_file_edits, min_age, worker);
    if asked.len() > 0 {
        assert(asked.contains(asked[0]));
        lemma_excluded_means_surplus_edit(history, max_file_edits, min_age, worker, asked[0]);
    }
}

/// The pairs that are collected for a file are its answered `edit` and `write`
/// calls and no others, in the order of the calls, and each file has one group.
pub proof fn lemma_groups_are_the_edits_of_files(
    history: &[ChatEntry],
    groups: Vec<PathGroup>,
    g: int,
    k: int,
) -> (found: (int, int))
    requires
        call_ensures(collect_edit_write_pairs_by_path, (history,), groups),
        0 <= g < groups@.len(),
        0 <= k < groups@[g].pairs@.len(),
    ensures
        ({
            let (c, r) = found;
            let pair = groups@[g].pairs@[k];
            &&& edits_file(history@, groups@[g].path@, c, r)
            &&& pair.call_idx == c
            &&& pair.call_entry_id == history@[c].id
            &&& pair.result_entry_id == history@[r].id
            &&& pair.call_protected <==> history@[c].context_override != ContextOverride::Default
            &&& k > 0 ==> groups@[g].pairs@[k - 1].call_idx < c
            &&& forall|h: int|
                0 <= h < groups@.len() && (#[trigger] groups@[h]).path@ == groups@[g].path@ ==> h
                    == g
        }),
{
    let n = history@.len() as int;
    assert(history.len() == history@.len());
    let path = groups@[g].path@;
    let pair = groups@[g].pairs@[k];
    lemma_pairs_in_order(history@, n, path);
    lemma_touched_paths(history@, n);
    let c = pair.call_idx as int;
    assert(pair == pairs_for(history@, n, path)[k]);
    assert(edit_pair(history@, c) == Some((path, pair)));
    lemma_edit_pair_is_edit(history@, c);
    let r = choose|r: int| #[trigger]
        edits_file(history@, path, c, r) && pair.result_entry_id == history@[r].id
            && pair.result_protected == tool_pairs::id_protected(history@, 0, history@[r].id);
    assert forall|h: int|
        0 <= h < groups@.len() && (#[trigger] groups@[h]).path@ == path implies h == g by {
        assert(touched_paths(history@, n)[h] == touched_paths(history@, n)[g]);
    }
    (c, r)
}

/// Every answered `edit` and `write` of a file is collected for it.
pub proof fn lemma_every_edit_is_collected(
    history: &[ChatEntry],
    groups: Vec<PathGroup>,
    path: Seq<char>,
    c: int,
    r: int,
)
    requires
        call_ensures(collect_edit_write_pairs_by_path, (history,), groups),
        edits_file(history@, path, c, r),
    ensures
        exists|g: int, k: int|
            #![trigger groups@[g].pairs@[k]]
            0 <= g < groups@.len() && groups@[g].path@ == path && 0 <= k < groups@[g].pairs@.len()
                && groups@[g].pairs@[k].call_idx == c && groups@[g].pairs@[k].result_entry_id
                == history@[r].id,
{
    let n = history@.len() as int;
    assert(history.len() == history@.len());
    lemma_pairs_in_order(history@, n, path);
    lemma_touched_paths(history@, n);
    lemma_edit_pair_is_edit(history@, c);
    let pair = edit_pair(history@, c).unwrap().1;
    let pairs = pairs_for(history@, n, path);
    assert(pairs.contains(pair));
    let k = choose|k: int| 0 <= k < pairs.len() && pairs[k] == pair;
    let paths = touched_paths(history@, n);
    assert(paths.contains(path));
    let g = choose|g: int| 0 <= g < paths.len() && paths[g] == path;
    assert(groups@[g].path@ == path);
    assert(groups@[g].pairs@[k] == pair);
}

/// Each change of the worker excludes one half, still without an override, of
/// an old edit of a file that enough later ones follow.
pub proof fn lemma_evaluate_touches_surplus_edits_alone(
    worker: &DoubleEditAutoPruneWorker,
    session_id: &SessionId,
    history: &[ChatEntry],
    mutations: Vec<HistoryMutation>,
    x: int,
) -> (found: (Seq<char>, int, int, Seq<int>, int))
    requires
        history::distinct_ids(history@),
        call_ensures(DoubleEditAutoPruneWorker::evaluate, (worker, session_id, history), mutations),
        0 <= x < mutations@.len(),
    ensures
        ({
            let (path, c, r, later, k) = found;
            &&& edits_file(history@, path, c, r)
            &&& later_edits(history@, path, c, later)
            &&& later.len() == worker.config.max_file_edits
            &&& history@.len() - c - 1 >= worker.config.min_age
            &&& k == c || k == r
            &&& history@[k].context_override == ContextOverride::Default
            &&& history::sets_override(
                mutations@[x],
                history@[k].id,
                ContextOverride::ForcedExclude,
                "auto-prune-double-edit"@,
            )
        }),
{
    let name = "auto-prune-double-edit"@;
    let views = history::mutation_views(mutations@);
    assert(history.len() == history@.len());
    assert(views[x] == mutations@[x]@);
    let (path, c, r, later) = lemma_excluded_means_surplus_edit(
        history@,
        worker.config.max_file_edits,
        worker.config.min_age,
        name,
        views[x],
    );
    let k = choose|k: int|
        (k == c || k == r) && (#[trigger] history@[k]).context_override == ContextOverride::Default
            && views[x] == (history::MutationView::SetContextOverride {
            entry_id: history@[k].id,
            value: ContextOverride::ForcedExclude,
            source: chat_entry::ChangeSourceView::Worker { name },
        });
    history::lemma_override_view(
        mutations@[x],
        history@[k].id,
        ContextOverride::ForcedExclude,
        name,
    );
    (path, c, r, later, k)
}

/// Each half of an old edit of a file that enough later ones follow is
/// excluded unless it has an override.
pub proof fn lemma_evaluate_finds_every_surplus_edit(
    worker: &DoubleEditAutoPruneWorker,
    session_id: &SessionId,
    history: &[ChatEntry],
    mutations: Vec<HistoryMutation>,
    path: Seq<char>,
    c: int,
    r: int,
    later: Seq<int>,
    k: int,
)
    requires
        history::distinct_ids(history@),
        call_ensures(DoubleEditAutoPruneWorker::evaluate, (worker, session_id, history), mutations),
        worker.config.max_file_edits > 0,
        edits_file(history@, path, c, r),
        later_edits(history@, path, c, later),
        later.len() == worker.config.max_file_edits,
        history@.len() - c - 1 >= worker.config.min_age,
        k == c || k == r,
        history@[k].context_override == ContextOverride::Default,
    ensures
        exists|x: int|
            0 <= x < mutations@.len() && history::sets_override(
                #[trigger] mutations@[x],
                history@[k].id,
                ContextOverride::ForcedExclude,
                "auto-prune-double-edit"@,
            ),
{
    let name = "auto-prune-double-edit"@;
    assert(history.len() == history@.len());
    lemma_surplus_edit_is_excluded(
        history@,
        worker.config.max_file_edits,
        worker.config.min_age,
        name,
        path,
        c,
        r,
        later,
    );
    history::lemma_views_hold_changes(
        mutations@,
        history@[k].id,
        ContextOverride::ForcedExclude,
        name,
    );
}

} // verus!
