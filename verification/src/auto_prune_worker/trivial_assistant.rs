//! Takes short assistant messages out of the prompt once they are old: the
//! narration between tool calls.
//!
//! Counts come from the tokenizer that the rest of the client uses, through a
//! cache that other workers share.

use crate::auto_prune_worker::entry_token_cache::HistoryWorkerChatEntryTokenCache;
use crate::auto_prune_worker::min_age;
use crate::auto_prune_worker::min_age::is_within_min_age;
use crate::chat_entry;
use crate::chat_entry::{ChatEntry, ChatEntryId, ChatEntryKind, ContextOverride, SessionId};
use crate::context::token_estimator::{TiktokenCounter, TokenCounter};
use crate::history;
use crate::history::HistoryMutation;
use vstd::prelude::*;

verus! {

/// Configuration of the trivial-assistant worker.
#[derive(Clone, Copy, Debug, PartialEq, Eq, Structural)]
pub struct TrivialAssistantAutoPruneConfig {
    pub enabled: bool,
    /// How many entries at the end of the history are left alone.
    pub min_age: usize,
    /// Up to how many tokens a message counts as trivial; at least 1.
    pub max_tokens: usize,
}

/// The trivial-assistant worker.
pub struct TrivialAssistantAutoPruneWorker {
    pub config: TrivialAssistantAutoPruneConfig,
    pub token_cache: HistoryWorkerChatEntryTokenCache,
    pub counter: TiktokenCounter,
}

/// Whether the entry at `i` is looked at: an assistant message with text, old
/// enough, neither pinned nor overridden.
pub open spec fn candidate(history: Seq<ChatEntry>, i: int, min_age: usize) -> bool {
    &&& min_age::age(history.len() as usize, i as usize) >= min_age
    &&& history[i].kind matches ChatEntryKind::Assistant(text) && text@.len() > 0
    &&& !history[i].pinned()
    &&& !history[i].protected_from_prune()
}

/// The token count of the assistant message.
pub open spec fn fresh_count(entry: ChatEntry, counter: TiktokenCounter) -> u32 {
    counter.count_of(entry.kind->Assistant_0@) as u32
}

/// The cache after the candidates below `n` were looked at.
pub open spec fn cache_after(
    history: Seq<ChatEntry>,
    n: int,
    min_age: usize,
    session_id: SessionId,
    counter: TiktokenCounter,
    cache: Map<(SessionId, ChatEntryId), u32>,
) -> Map<(SessionId, ChatEntryId), u32>
    decreases n,
{
    if n <= 0 {
        cache
    } else {
        let before = cache_after(history, n - 1, min_age, session_id, counter, cache);
        let key = (session_id, history[n - 1].id);
        if candidate(history, n - 1, min_age) && !before.contains_key(key) {
            before.insert(key, fresh_count(history[n - 1], counter))
        } else {
            before
        }
    }
}

/// The change asked for at index `i`: a candidate of at most `max_tokens`
/// tokens.
pub open spec fn exclusions_at(
    history: Seq<ChatEntry>,
    min_age: usize,
    max_tokens: u32,
    session_id: SessionId,
    counter: TiktokenCounter,
    cache: Map<(SessionId, ChatEntryId), u32>,
    worker: Seq<char>,
) -> spec_fn(int) -> Seq<history::MutationView> {
    |i: int|
        {
            let limit = if max_tokens == 0 {
                1u32
            } else {
                max_tokens
            };
            let tokens = cache_after(
                history,
                i + 1,
                min_age,
                session_id,
                counter,
                cache,
            )[(session_id, history[i].id)];
            if candidate(history, i, min_age) && tokens <= limit {
                seq![history::worker_excludes(history[i].id, worker)]
            } else {
                Seq::empty()
            }
        }
}

/// All changes the worker asks for.
pub open spec fn exclusions(
    history: Seq<ChatEntry>,
    min_age: usize,
    max_tokens: u32,
    session_id: SessionId,
    counter: TiktokenCounter,
    cache: Map<(SessionId, ChatEntryId), u32>,
    worker: Seq<char>,
) -> Seq<history::MutationView> {
    history::per_index(
        history.len() as int,
        exclusions_at(history, min_age, max_tokens, session_id, counter, cache, worker),
    )
}

/// Asks to exclude each old assistant message of at most `max_tokens` tokens.
pub fn build_trivial_assistant_mutations(
    history: &[ChatEntry],
    min_age: usize,
    max_tokens: u32,
    session_id: &SessionId,
    token_cache: &mut HistoryWorkerChatEntryTokenCache,
    counter: &TiktokenCounter,
    worker_name: &str,
) -> (mutations: Vec<HistoryMutation>)
    ensures
        history::mutation_views(mutations@) == exclusions(
            history@,
            min_age,
            max_tokens,
            *session_id,
            *counter,
            old(token_cache)@,
            worker_name@,
        ),
        final(token_cache)@ == cache_after(
            history@,
            history@.len() as int,
            min_age,
            *session_id,
            *counter,
            old(token_cache)@,
        ),
{
    let limit: u32 = if max_tokens == 0 {
        1
    } else {
        max_tokens
    };
    let ghost cache = token_cache@;
    let ghost f = exclusions_at(
        history@,
        min_age,
        max_tokens,
        *session_id,
        *counter,
        cache,
        worker_name@,
    );
    let mut mutations: Vec<HistoryMutation> = Vec::new();
    let mut i: usize = 0;
    while i < history.len()
        invariant
            i <= history@.len(),
            limit == (if max_tokens == 0 {
                1u32
            } else {
                max_tokens
            }),
            f == exclusions_at(
                history@,
                min_age,
                max_tokens,
                *session_id,
                *counter,
                cache,
                worker_name@,
            ),
            token_cache@ == cache_after(
                history@,
                i as int,
                min_age,
                *session_id,
                *counter,
                cache,
            ),
            history::mutation_views(mutations@) == history::per_index(i as int, f),
        decreases history@.len() - i,
    {
        let ghost before = mutations@;
        let entry = &history[i];
        if !is_within_min_age(history.len(), i, min_age) {
            if let ChatEntryKind::Assistant(text) = &entry.kind {
                if !text.as_str().is_empty() && !entry.is_pinned()
                    && !entry.is_protected_from_prune() {
                    let compute = || -> (count: u32)
                        ensures
                            count == counter.count_of(text@) as u32,
                        {
                            #[verifier::truncate]
                            (counter.count(text.as_str()) as u32)
                        };
                    let tokens: u32 = token_cache.get_or_insert_with(
                        session_id,
                        &entry.id,
                        compute,
                    );
                    if tokens <= limit {
                        let m = HistoryMutation::worker_exclude(entry.id, worker_name);
                        proof {
                            history::lemma_push_view(before, m);
                        }
                        mutations.push(m);
                    }
                }
            }
        }
        assert(history::mutation_views(mutations@) =~= history::mutation_views(before) + f(
            i as int,
        ));
        i += 1;
    }
    mutations
}

impl TrivialAssistantAutoPruneWorker {
    /// The worker's name, as recorded with each change.
    pub fn name(&self) -> (name: &'static str)
        ensures
            name@ == "auto-prune-trivial-assistant"@,
    {
        "auto-prune-trivial-assistant"
    }

    /// Asks to exclude the old trivial assistant messages.
    pub fn evaluate(&mut self, session_id: &SessionId, history: &[ChatEntry]) -> (mutations: Vec<
        HistoryMutation,
    >)
        ensures
            history::mutation_views(mutations@) == exclusions(
                history@,
                old(self).config.min_age,
                old(self).config.max_tokens as u32,
                *session_id,
                old(self).counter,
                old(self).token_cache@,
                "auto-prune-trivial-assistant"@,
            ),
            final(self).config == old(self).config,
            final(self).counter == old(self).counter,
            final(self).token_cache@ == cache_after(
                history@,
                history@.len() as int,
                old(self).config.min_age,
                *session_id,
                old(self).counter,
                old(self).token_cache@,
            ),
    {
        let counter = self.counter;
        build_trivial_assistant_mutations(
            history,
            self.config.min_age,
            #[verifier::truncate]
            (self.config.max_tokens as u32),
            session_id,
            &mut self.token_cache,
            &counter,
            "auto-prune-trivial-assistant",
        )
    }
}

/// Only old assistant messages with text, neither pinned nor overridden, are
/// excluded.
pub proof fn lemma_exclusions_are_candidates(
    history: Seq<ChatEntry>,
    min_age: usize,
    max_tokens: u32,
    session_id: SessionId,
    counter: TiktokenCounter,
    cache: Map<(SessionId, ChatEntryId), u32>,
    worker: Seq<char>,
    m: history::MutationView,
)
    requires
        exclusions(history, min_age, max_tokens, session_id, counter, cache, worker).contains(m),
    ensures
        exists|i: int|
            0 <= i < history.len() && #[trigger] candidate(history, i, min_age) && m
                == history::worker_excludes(history[i].id, worker),
{
    let f = exclusions_at(history, min_age, max_tokens, session_id, counter, cache, worker);
    history::lemma_per_index_contains(history.len() as int, f, m);
    let i = choose|i: int| 0 <= i < history.len() && (#[trigger] f(i)).contains(m);
    assert(candidate(history, i, min_age));
}

proof fn lemma_cache_grows(
    history: Seq<ChatEntry>,
    m: int,
    n: int,
    min_age: usize,
    session_id: SessionId,
    counter: TiktokenCounter,
    cache: Map<(SessionId, ChatEntryId), u32>,
    key: (SessionId, ChatEntryId),
)
    requires
        0 <= m <= n,
        cache_after(history, m, min_age, session_id, counter, cache).contains_key(key),
    ensures
        cache_after(history, n, min_age, session_id, counter, cache).contains_key(key),
        cache_after(history, n, min_age, session_id, counter, cache)[key] == cache_after(
            history,
            m,
            min_age,
            session_id,
            counter,
            cache,
        )[key],
    decreases n - m,
{
    if m < n {
        lemma_cache_grows(history, m, n - 1, min_age, session_id, counter, cache, key);
    }
}

/// The cache changes no answer: where the counts it holds are those of the
/// tokenizer, each candidate is judged by its own count.
pub proof fn lemma_cache_is_transparent(
    history: Seq<ChatEntry>,
    min_age: usize,
    session_id: SessionId,
    counter: TiktokenCounter,
    cache: Map<(SessionId, ChatEntryId), u32>,
    n: int,
    i: int,
)
    requires
        history::distinct_ids(history),
        0 <= i < n <= history.len(),
        candidate(history, i, min_age),
        forall|j: int|
            0 <= j < history.len() && #[trigger] candidate(history, j, min_age)
                && cache.contains_key((session_id, history[j].id)) ==> cache[(
                session_id,
                history[j].id,
            )] == fresh_count(history[j], counter),
    ensures
        cache_after(history, n, min_age, session_id, counter, cache)[(session_id, history[i].id)]
            == fresh_count(history[i], counter),
{
    let key = (session_id, history[i].id);
    lemma_absent_until_own_turn(history, min_age, session_id, counter, cache, i, i);
    lemma_cache_grows(history, i + 1, n, min_age, session_id, counter, cache, key);
    if cache.contains_key(key) {
        lemma_cache_grows(history, 0, n, min_age, session_id, counter, cache, key);
    }
}

proof fn lemma_absent_until_own_turn(
    history: Seq<ChatEntry>,
    min_age: usize,
    session_id: SessionId,
    counter: TiktokenCounter,
    cache: Map<(SessionId, ChatEntryId), u32>,
    i: int,
    n: int,
)
    requires
        history::distinct_ids(history),
        0 <= n <= i < history.len(),
    ensures
        cache_after(history, n, min_age, session_id, counter, cache).contains_key(
            (session_id, history[i].id),
        ) == cache.contains_key((session_id, history[i].id)),
    decreases n,
{
    if n > 0 {
        lemma_absent_until_own_turn(history, min_age, session_id, counter, cache, i, n - 1);
        assert(history[n - 1].id != history[i].id);
    }
}

/// Once the changes are made, a second look with the filled cache asks for
/// nothing more.
pub proof fn lemma_exclusions_idempotent(
    history: Seq<ChatEntry>,
    min_age: usize,
    max_tokens: u32,
    session_id: SessionId,
    counter: TiktokenCounter,
    cache: Map<(SessionId, ChatEntryId), u32>,
    worker: Seq<char>,
)
    ensures
        exclusions(
            history::with_overrides(
                history,
                exclusions(history, min_age, max_tokens, session_id, counter, cache, worker),
            ),
            min_age,
            max_tokens,
            session_id,
            counter,
            cache_after(history, history.len() as int, min_age, session_id, counter, cache),
            worker,
        ).len() == 0,
{
    let n = history.len() as int;
    let asked = exclusions(history, min_age, max_tokens, session_id, counter, cache, worker);
    let f = exclusions_at(history, min_age, max_tokens, session_id, counter, cache, worker);
    assert forall|k: int| 0 <= k < asked.len() implies (#[trigger] asked[k] matches
        history::MutationView::SetContextOverride { value, .. } && value
        == ContextOverride::ForcedExclude) by {
        assert(asked.contains(asked[k]));
        history::lemma_per_index_contains(n, f, asked[k]);
    }
    let later = history::with_overrides(history, asked);
    history::lemma_with_overrides(history, asked, ContextOverride::ForcedExclude);
    let full = cache_after(history, n, min_age, session_id, counter, cache);
    let g = exclusions_at(later, min_age, max_tokens, session_id, counter, full, worker);
    assert forall|i: int| 0 <= i < n implies (#[trigger] g(i)).len() == 0 by {
        assert(later[i].id == history[i].id && later[i].kind == history[i].kind);
        if candidate(later, i, min_age) {
            assert(candidate(history, i, min_age));
            let key = (session_id, history[i].id);
            lemma_cache_grows(history, i + 1, n, min_age, session_id, counter, cache, key);
            lemma_cache_grows(later, 0, i + 1, min_age, session_id, counter, full, key);
            let m = history::worker_excludes(history[i].id, worker);
            let here = f(i);
            if here.len() > 0 {
                assert(here[0] == m);
                history::lemma_asked_is_targeted(n, f, i, m, history[i].id);
            }
        }
    }
    history::lemma_per_index_empty(n, g);
}

/// Whether the entry at `i` is a short assistant message that may go: it has
/// some text of at most `max_tokens` tokens (one, where that is 0), neither
/// pin nor override, and at least `min_age` entries behind it.
pub open spec fn old_and_short(
    history: Seq<ChatEntry>,
    min_age: usize,
    max_tokens: u32,
    counter: TiktokenCounter,
    i: int,
) -> bool {
    &&& 0 <= i < history.len()
    &&& history.len() - i - 1 >= min_age
    &&& history[i].pin_position is None
    &&& history[i].context_override == ContextOverride::Default
    &&& history[i].kind matches ChatEntryKind::Assistant(text) && text@.len() > 0 && {
        let tokens = counter.count_of(text@) as u32;
        tokens <= max_tokens || tokens <= 1
    }
}

/// Whether the cache holds nothing but the tokenizer's own counts of the
/// history's assistant messages.
pub open spec fn holds_own_counts(
    history: Seq<ChatEntry>,
    session_id: SessionId,
    counter: TiktokenCounter,
    cache: Map<(SessionId, ChatEntryId), u32>,
) -> bool {
    forall|j: int|
        0 <= j < history.len() && cache.contains_key((session_id, (#[trigger] history[j]).id)) ==> (
        history[j].kind matches ChatEntryKind::Assistant(text) ==> cache[(
            session_id,
            history[j].id,
        )] == counter.count_of(text@) as u32)
}

/// A change is asked for exactly if it excludes an old and short assistant
/// message, whatever the cache has counted before.
pub proof fn lemma_exactly_old_and_short(
    history: Seq<ChatEntry>,
    min_age: usize,
    max_tokens: u32,
    session_id: SessionId,
    counter: TiktokenCounter,
    cache: Map<(SessionId, ChatEntryId), u32>,
    worker: Seq<char>,
    m: history::MutationView,
)
    requires
        history::distinct_ids(history),
        history.len() <= usize::MAX,
        holds_own_counts(history, session_id, counter, cache),
    ensures
        exclusions(history, min_age, max_tokens, session_id, counter, cache, worker).contains(m)
            <==> exists|i: int| #[trigger]
            old_and_short(history, min_age, max_tokens, counter, i) && m
                == (history::MutationView::SetContextOverride {
                entry_id: history[i].id,
                value: ContextOverride::ForcedExclude,
                source: chat_entry::ChangeSourceView::Worker { name: worker },
            }),
{
    let n = history.len() as int;
    let f = exclusions_at(history, min_age, max_tokens, session_id, counter, cache, worker);
    history::lemma_per_index_contains(n, f, m);
    assert forall|i: int| 0 <= i < n implies ((#[trigger] f(i)).contains(m) <==> old_and_short(
        history,
        min_age,
        max_tokens,
        counter,
        i,
    ) && m == history::worker_excludes(history[i].id, worker)) by {
        if candidate(history, i, min_age) {
            assert forall|j: int|
                0 <= j < history.len() && #[trigger] candidate(history, j, min_age)
                    && cache.contains_key((session_id, history[j].id)) implies cache[(
                session_id,
                history[j].id,
            )] == fresh_count(history[j], counter) by {}
            lemma_cache_is_transparent(
                history,
                min_age,
                session_id,
                counter,
                cache,
                i + 1,
                i,
            );
            if f(i).len() > 0 {
                assert(f(i)[0] == history::worker_excludes(history[i].id, worker));
            }
        }
    }
    if exists|i: int| #[trigger]
        old_and_short(history, min_age, max_tokens, counter, i) && m == history::worker_excludes(
            history[i].id,
            worker,
        ) {
        let i = choose|i: int| #[trigger]
            old_and_short(history, min_age, max_tokens, counter, i) && m
                == history::worker_excludes(history[i].id, worker);
        assert(f(i).contains(m));
    }
}

/// The worker excludes exactly the old and short assistant messages, as long
/// as its cache holds its own counts.
pub proof fn lemma_evaluate_excludes_old_and_short(
    session_id: &SessionId,
    history: &[ChatEntry],
    mutations: Vec<HistoryMutation>,
    i: int,
)
    requires
        history::distinct_ids(history@),
        0 <= i < history@.len(),
    ensures
        forall|worker: &mut TrivialAssistantAutoPruneWorker|
            #[trigger] call_ensures(
                TrivialAssistantAutoPruneWorker::evaluate,
                (worker, session_id, history),
                mutations,
            ) && holds_own_counts(
                history@,
                *session_id,
                worker.counter,
                worker.token_cache@,
            ) ==> ((exists|x: int|
                0 <= x < mutations@.len() && history::sets_override(
                    #[trigger] mutations@[x],
                    history@[i].id,
                    ContextOverride::ForcedExclude,
                    "auto-prune-trivial-assistant"@,
                )) <==> old_and_short(
                history@,
                worker.config.min_age,
                worker.config.max_tokens as u32,
                worker.counter,
                i,
            )),
{
    let name = "auto-prune-trivial-assistant"@;
    let m = history::MutationView::SetContextOverride {
        entry_id: history@[i].id,
        value: ContextOverride::ForcedExclude,
        source: chat_entry::ChangeSourceView::Worker { name },
    };
    assert(history.len() == history@.len());
    history::lemma_views_hold_changes(
        mutations@,
        history@[i].id,
        ContextOverride::ForcedExclude,
        name,
    );
    assert forall|worker: &mut TrivialAssistantAutoPruneWorker|
        #[trigger] call_ensures(
            TrivialAssistantAutoPruneWorker::evaluate,
            (worker, session_id, history),
            mutations,
        ) && holds_own_counts(
            history@,
            *session_id,
            worker.counter,
            worker.token_cache@,
        ) implies (history::mutation_views(mutations@).contains(m) <==> old_and_short(
        history@,
        worker.config.min_age,
        worker.config.max_tokens as u32,
        worker.counter,
        i,
    )) by {
        lemma_exactly_old_and_short(
            history@,
            worker.config.min_age,
            worker.config.max_tokens as u32,
            *session_id,
            worker.counter,
            worker.token_cache@,
            name,
            m,
        );
    }
}

proof fn lemma_cache_keeps_own_counts(
    history: Seq<ChatEntry>,
    n: int,
    min_age: usize,
    session_id: SessionId,
    counter: TiktokenCounter,
    cache: Map<(SessionId, ChatEntryId), u32>,
)
    requires
        history::distinct_ids(history),
        n <= history.len(),
        holds_own_counts(history, session_id, counter, cache),
    ensures
        holds_own_counts(
            history,
            session_id,
            counter,
            cache_after(history, n, min_age, session_id, counter, cache),
        ),
    decreases n,
{
    if n > 0 {
        lemma_cache_keeps_own_counts(history, n - 1, min_age, session_id, counter, cache);
        let before = cache_after(history, n - 1, min_age, session_id, counter, cache);
        let after = cache_after(history, n, min_age, session_id, counter, cache);
        assert forall|j: int|
            0 <= j < history.len() && after.contains_key(
                (session_id, (#[trigger] history[j]).id),
            ) implies (history[j].kind matches ChatEntryKind::Assistant(text) ==> after[(
            session_id,
            history[j].id,
        )] == counter.count_of(text@) as u32) by {
            if history[j].id == history[n - 1].id {
                assert(j == n - 1);
            }
        }
    }
}

/// A worker whose cache holds its own counts keeps it so, and keeps its
/// settings and its tokenizer.
pub proof fn lemma_evaluate_keeps_own_counts(
    session_id: &SessionId,
    history: &[ChatEntry],
    mutations: Vec<HistoryMutation>,
)
    requires
        history::distinct_ids(history@),
    ensures
        forall|worker: &mut TrivialAssistantAutoPruneWorker|
            #[trigger] call_ensures(
                TrivialAssistantAutoPruneWorker::evaluate,
                (worker, session_id, history),
                mutations,
            ) && holds_own_counts(
                history@,
                *session_id,
                (*worker).counter,
                (*worker).token_cache@,
            ) ==> {
                &&& holds_own_counts(
                    history@,
                    *session_id,
                    (*final(worker)).counter,
                    (*final(worker)).token_cache@,
                )
                &&& (*final(worker)).counter == (*worker).counter
                &&& (*final(worker)).config == (*worker).config
            },
{
    assert forall|worker: &mut TrivialAssistantAutoPruneWorker|
        #[trigger] call_ensures(
            TrivialAssistantAutoPruneWorker::evaluate,
            (worker, session_id, history),
            mutations,
        ) && holds_own_counts(
            history@,
            *session_id,
            (*worker).counter,
            (*worker).token_cache@,
        ) implies holds_own_counts(
        history@,
        *session_id,
        (*final(worker)).counter,
        (*final(worker)).token_cache@,
    ) by {
        lemma_cache_keeps_own_counts(
            history@,
            history@.len() as int,
            (*worker).config.min_age,
            *session_id,
            (*worker).counter,
            (*worker).token_cache@,
        );
    }
}

} // verus!
