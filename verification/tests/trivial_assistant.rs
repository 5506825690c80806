use jinn_domain::auto_prune_worker::entry_token_cache::HistoryWorkerChatEntryTokenCache;
use jinn_domain::auto_prune_worker::trivial_assistant::{
    TrivialAssistantAutoPruneConfig, TrivialAssistantAutoPruneWorker,
};
use jinn_domain::chat_entry::{ChangeSource, ChatEntry, ChatEntryId, ChatEntryKind, ContextOverride, PinPosition, SessionId};
use jinn_domain::history::HistoryMutation;
use jinn_domain::context::token_estimator::{TiktokenCounter, TokenCounter};

/// Build a worker with the given thresholds (enabled = true).
fn worker(min_age: usize, max_tokens: usize) -> TrivialAssistantAutoPruneWorker {
    TrivialAssistantAutoPruneWorker {
        config: TrivialAssistantAutoPruneConfig {
            enabled: true,
            min_age,
            max_tokens,
        },
        token_cache: HistoryWorkerChatEntryTokenCache::new(),
        counter: TiktokenCounter::o200k_base(),
    }
}

/// Build N plain user entries (all in-context).
fn users(n: usize) -> Vec<ChatEntry> {
    (0..n)
        .map(|i| ChatEntry::user(&format!("user msg {i}")))
        .collect()
}

/// Build a trivial (≤80 tiktoken tokens) assistant entry.
fn trivial_assistant(text: &str) -> ChatEntry {
    ChatEntry::assistant(text)
}

/// Build an assistant entry whose token count is reliably greater
/// than 80 under the `o200k_base` encoding.
fn large_assistant() -> ChatEntry {
    // ~500 chars of varied English prose → comfortably >80 o200k_base
    // tokens. Verified by the sanity assertion in
    // `large_assistant_outside_window_is_not_pruned`.
    let body = "This is a substantial assistant response with multiple sentences and \
         enough vocabulary to comfortably exceed eighty tiktoken tokens under \
         the o200k_base encoding used throughout the codebase. ";
    ChatEntry::assistant(&body.repeat(4))
}

/// Evaluate the worker on a history snapshot.
fn evaluate(
    w: &mut TrivialAssistantAutoPruneWorker,
    history: Vec<ChatEntry>,
) -> Vec<HistoryMutation> {
    w.evaluate(&SessionId::new(), &history)
}

/// Collect the entry ids targeted by `SetContextOverride::ForcedExclude` mutations.
fn excluded_ids(mutations: &[HistoryMutation]) -> std::collections::HashSet<ChatEntryId> {
    let mut out = std::collections::HashSet::new();
    for m in mutations {
        if let HistoryMutation::SetContextOverride {
            entry_id,
            value: ContextOverride::ForcedExclude,
            ..
        } = m
        {
            out.insert(entry_id.clone());
        }
    }
    out
}

#[test]
fn trivial_assistant_empty_history_produces_no_mutations() {
    let mut w = worker(100, 80);
    assert!(evaluate(&mut w, Vec::new()).is_empty());
}

#[test]
fn trivial_assistant_history_under_threshold_produces_no_mutations() {
    let mut w = worker(100, 80);
    let mut history = users(50);
    history.insert(0, trivial_assistant("ok"));
    assert!(evaluate(&mut w, history).is_empty());
}

// 100 entries total. Trivial assistant at idx 0 is inside the window
// → not pruned.
#[test]
fn trivial_assistant_history_exactly_at_threshold_produces_no_mutations() {
    let mut w = worker(100, 80);
    let mut history = Vec::new();
    history.push(trivial_assistant("ok"));
    history.extend(users(99));
    assert_eq!(history.len(), 100);
    assert!(evaluate(&mut w, history).is_empty());
}

#[test]
fn trivial_assistant_outside_window_is_pruned() {
    let mut w = worker(100, 80);
    let mut history = Vec::new();
    let asst = trivial_assistant("done");
    let asst_id = asst.id.clone();
    history.push(asst);
    // 100 user entries → total 101. Window covers last 100
    // (positions 1..=100). Position 0 (the assistant) is outside.
    history.extend(users(100));

    let mutations = evaluate(&mut w, history);
    let excluded = excluded_ids(&mutations);
    assert_eq!(mutations.len(), 1);
    assert!(excluded.contains(&asst_id));
}

// Sanity-check the test helper: ensure the "large" assistant text
// actually exceeds 80 tiktoken tokens, then verify the worker leaves
// it alone.
#[test]
fn large_assistant_outside_window_is_not_pruned() {
    let counter = TiktokenCounter::o200k_base();
    let asst = large_assistant();
    let text = match &asst.kind {
        ChatEntryKind::Assistant(t) => t.clone(),
        _ => panic!("expected assistant"),
    };
    let tokens = counter.count(&text);
    assert!(
        tokens > 80,
        "test helper must produce >80 tokens, got {tokens}"
    );

    let mut w = worker(100, 80);
    let mut history = Vec::new();
    let asst = large_assistant();
    let asst_id = asst.id.clone();
    history.push(asst);
    history.extend(users(100));

    let mutations = evaluate(&mut w, history);
    let excluded = excluded_ids(&mutations);
    assert!(
        !excluded.contains(&asst_id),
        "large assistant outside window must NOT be pruned"
    );
    assert!(mutations.is_empty());
}

// Place the assistant AFTER 100 user entries so it is inside the
// window.
#[test]
fn trivial_assistant_inside_window_is_not_pruned() {
    let mut w = worker(100, 80);
    let mut history = users(100);
    let asst = trivial_assistant("ok");
    let asst_id = asst.id.clone();
    history.push(asst);
    // total = 101 entries. Window is last 100 (positions 1..=100).
    // The assistant at idx 100 is inside the window.
    let mutations = evaluate(&mut w, history);
    let excluded = excluded_ids(&mutations);
    assert!(!excluded.contains(&asst_id));
    assert!(mutations.is_empty());
}

#[test]
fn empty_assistant_outside_window_is_not_targeted() {
    let mut w = worker(100, 80);
    let mut history = Vec::new();
    history.push(trivial_assistant(""));
    history.extend(users(100));
    let mutations = evaluate(&mut w, history);
    assert!(mutations.is_empty(), "empty assistant must not be targeted");
}

// Old user/tool entries plus one trivial assistant. Only the
// assistant should be pruned.
#[test]
fn non_assistant_entries_in_prune_window_are_not_targeted() {
    let mut w = worker(100, 80);
    let mut history = Vec::new();
    let old_user = ChatEntry::user("old user");
    let old_user_id = old_user.id.clone();
    history.push(old_user);
    let asst = trivial_assistant("done");
    let asst_id = asst.id.clone();
    history.push(asst);
    history.extend(users(100));

    let mutations = evaluate(&mut w, history);
    let excluded = excluded_ids(&mutations);
    assert_eq!(mutations.len(), 1);
    assert!(excluded.contains(&asst_id));
    assert!(
        !excluded.contains(&old_user_id),
        "non-assistant entry must not be pruned"
    );
}

#[test]
fn already_excluded_assistant_does_not_get_duplicate_mutation() {
    let mut w = worker(100, 80);
    let mut history = Vec::new();
    let mut asst = trivial_assistant("done");
    asst.apply_context_override(
        ContextOverride::ForcedExclude,
        ChangeSource::Internal {
            label: "test".into(),
        },
    );
    let asst_id = asst.id.clone();
    history.push(asst);
    history.extend(users(100));

    let mutations = evaluate(&mut w, history);
    assert!(
        mutations.is_empty(),
        "already-excluded entry must not receive duplicate mutation"
    );
    // The assistant id should not appear in any mutation.
    let excluded = excluded_ids(&mutations);
    assert!(!excluded.contains(&asst_id));
}

// 9b. forced_included_assistant_does_not_get_mutation
#[test]
fn forced_included_assistant_does_not_get_mutation() {
    let mut w = worker(100, 80);
    let mut history = Vec::new();
    let mut asst = trivial_assistant("done");
    asst.context_override = ContextOverride::ForcedInclude;
    let asst_id = asst.id.clone();
    history.push(asst);
    history.extend(users(100));

    let mutations = evaluate(&mut w, history);
    // No mutation for the ForcedInclude entry.
    let excluded = excluded_ids(&mutations);
    assert!(
        !excluded.contains(&asst_id),
        "ForcedInclude entry must not receive ForcedExclude mutation"
    );
}

// min_age = 0 means "protect nothing" — every entry is a candidate.
// Two entries (trivial assistant, user). Trivial assistant at idx 0
// is NOT protected → pruned.
#[test]
fn min_age_zero_prunes_old_entries() {
    let mut w = worker(0, 80);
    let mut history = Vec::new();
    let asst = trivial_assistant("done");
    let asst_id = asst.id.clone();
    history.push(asst);
    history.push(ChatEntry::user("after"));

    let mutations = evaluate(&mut w, history);
    let excluded = excluded_ids(&mutations);
    assert!(excluded.contains(&asst_id));
}


// Trivial assistant at idx 0 in a 2-entry history has age 1.
// With min_age = 5, age 1 < 5 → protected → not pruned.
#[test]
fn min_age_protects_recent_trivial_assistant() {
    let mut w = worker(5, 80);
    let mut history = Vec::new();
    let asst = trivial_assistant("done");
    let asst_id = asst.id.clone();
    history.push(asst);
    history.push(ChatEntry::user("after"));

    let mutations = evaluate(&mut w, history);
    assert!(
        !excluded_ids(&mutations).contains(&asst_id),
        "recent trivial assistant must be protected by min_age"
    );
}


// age = history_len - idx - 1.
// history_len = 100, trivial_assistant at idx 95 → age = 4. With
// min_age = 5: 4 < 5 → protected. With min_age = 4: 4 < 4 → not protected.
#[test]
fn min_age_boundary_strict_less_than() {
    // Protected case: age 4 < min_age 5.
    let mut w = worker(5, 80);
    let mut history = users(95); // 95 user entries
    let asst = trivial_assistant("done");
    let asst_id = asst.id.clone();
    history.push(asst);
    history.extend(users(4)); // total 100, assistant at idx 95, age = 4

    let mutations = evaluate(&mut w, history);
    assert!(
        !excluded_ids(&mutations).contains(&asst_id),
        "age = min_age - 1 must be protected"
    );

    // Not-protected case: age 4 = min_age 4.
    let mut w = worker(4, 80);
    let mut history = users(95);
    let asst = trivial_assistant("done");
    let asst_id = asst.id.clone();
    history.push(asst);
    history.extend(users(4));

    let mutations = evaluate(&mut w, history);
    assert!(
        excluded_ids(&mutations).contains(&asst_id),
        "age = min_age must NOT be protected (strict less-than)"
    );
}

// max_tokens = 0 → clamped to 1. "Prune if tokens <= 1". A
// single-word assistant like "ok" is exactly 1 o200k_base token.
#[test]
fn max_tokens_clamped_to_1() {
    let counter = TiktokenCounter::o200k_base();
    let text = "ok";
    let tokens = counter.count(text);
    assert_eq!(tokens, 1, "test assumes 'ok' is 1 token under o200k_base");

    let mut w = worker(100, 0);
    let mut history = Vec::new();
    let asst = trivial_assistant(text);
    let asst_id = asst.id.clone();
    history.push(asst);
    history.extend(users(100));

    let mutations = evaluate(&mut w, history);
    let excluded = excluded_ids(&mutations);
    assert!(
        excluded.contains(&asst_id),
        "with max_tokens clamped to 1, 'ok' (1 token) is pruned"
    );
}

// 5 trivial assistants scattered in the first 100 positions of a
// 200-entry history. All 5 should be excluded.
#[test]
fn multiple_trivial_assistants_all_pruned_when_old() {
    let mut w = worker(100, 80);
    let mut history = Vec::new();
    let mut expected_ids = Vec::new();
    for i in 0..5 {
        let asst = trivial_assistant(&format!("narration {i}"));
        expected_ids.push(asst.id.clone());
        history.push(asst);
    }
    // 195 user entries → total 200 entries. Window covers last 100.
    history.extend(users(195));

    let mutations = evaluate(&mut w, history);
    let excluded = excluded_ids(&mutations);
    assert_eq!(mutations.len(), 5);
    for id in &expected_ids {
        assert!(excluded.contains(id), "expected {id:?} to be pruned");
    }
}

// First evaluate populates the shared cache; verify by direct read.
#[test]
fn token_cache_populated_after_evaluate() {
    let mut w = worker(100, 80);
    let session_id = SessionId::new();
    let asst = trivial_assistant("done");
    let asst_id = asst.id.clone();
    let mut history = vec![asst];
    history.extend(users(100));

    w.evaluate(&session_id, &history);

    assert_eq!(
        w.token_cache.get(&session_id, &asst_id),
        Some(1),
        "'done' is 1 o200k_base token and must be cached after evaluate"
    );
}

// Sabotage the cache between two evaluate calls. The sabotage value
// is `max_tokens + 1` (81), which causes the worker to SKIP (since
// `tokens <= max_tokens` is `81 <= 80` = false). If the worker
// recomputed, it would see 1 token and PRUNE. So a passing test
// proves the cache was consulted.
#[test]
fn second_evaluate_uses_cached_tokens_not_recomputed() {
    let mut w = worker(100, 80);
    let session_id = SessionId::new();
    let asst = trivial_assistant("done");
    let asst_id = asst.id.clone();
    let mut history = vec![asst];
    history.extend(users(100));

    // Sanity: first call prunes the entry.
    let first = w.evaluate(&session_id, &history);
    assert!(
        excluded_ids(&first).contains(&asst_id),
        "first evaluate must prune 'done' (1 token, outside window)"
    );

    // Sabotage cache: 81 > 80 = max_tokens → "too large to be trivial".
    // If the worker reads from cache on second evaluate, it will skip;
    // if it recomputes, it will see 1 token and prune.
    w.token_cache.insert(&session_id, &asst_id, 81);

    // Reset context_override so the idempotency skip doesn't hide the result.
    let mut history2 = history.clone();
    for e in &mut history2 {
        e.apply_context_override(
            ContextOverride::Default,
            ChangeSource::Internal {
                label: "test".into(),
            },
        );
    }

    let second = w.evaluate(&session_id, &history2);
    assert!(
        !excluded_ids(&second).contains(&asst_id),
        "second evaluate must read sabotaged cache (81 > 80) and skip; \"
         if it recomputed it would see 1 token and prune"
    );
}

// The new pin-skip guard must prevent a pinned trivial assistant from
// receiving a ForcedExclude mutation, even when the entry is well
// outside the keep window and would otherwise qualify for pruning.
#[test]
fn pinned_trivial_assistant_outside_window_is_not_pruned() {
    let mut w = worker(100, 80);
    let mut asst = trivial_assistant("done");
    asst.pin_position = Some(PinPosition::Top);
    let asst_id = asst.id.clone();
    let mut history = vec![asst];
    history.extend(users(100));

    let mutations = evaluate(&mut w, history);
    assert!(
        !excluded_ids(&mutations).contains(&asst_id),
        "pinned trivial assistant must not be pruned even outside window"
    );
}
