use jinn_domain::auto_prune_worker::tool_age_window::{
    ToolAgeWindowAutoPruneConfig, ToolAgeWindowAutoPruneWorker,
};
use jinn_domain::chat_entry::{ChangeSource, ChatEntry, ChatEntryId, ContextOverride, SessionId, ToolResultStatus};
use jinn_domain::history::HistoryMutation;

/// Build a worker with the given `min_age` (enabled = true).
fn worker(min_age: usize) -> ToolAgeWindowAutoPruneWorker {
    ToolAgeWindowAutoPruneWorker {
        config: ToolAgeWindowAutoPruneConfig {
            enabled: true,
            min_age,
        },
    }
}

/// Build N plain user entries (all in-context).
fn users(n: usize) -> Vec<ChatEntry> {
    (0..n)
        .map(|i| ChatEntry::user(&format!("user msg {i}")))
        .collect()
}

/// Build a bash ToolCall + successful ToolResult pair.
fn bash_pair(call_id: &str, command: &str, output: &str) -> [ChatEntry; 2] {
    [
        ChatEntry::tool_call(call_id, "bash", &format!(r#"{{"command": "{command}"}}"#)),
        ChatEntry::tool_result(call_id, "bash", output, ToolResultStatus::Success),
    ]
}

/// Build a bash ToolCall + pending ToolResult pair.
fn bash_pending_pair(call_id: &str, command: &str) -> [ChatEntry; 2] {
    [
        ChatEntry::tool_call(call_id, "bash", &format!(r#"{{"command": "{command}"}}"#)),
        ChatEntry::tool_result(call_id, "bash", "", ToolResultStatus::Pending),
    ]
}

/// Evaluate the worker on a history snapshot.
fn evaluate(w: &ToolAgeWindowAutoPruneWorker, history: Vec<ChatEntry>) -> Vec<HistoryMutation> {
    w.evaluate(&SessionId::new(), &history)
}

/// Collect the entry ids targeted by `SetContextOverride::ForcedExclude` mutations.
fn excluded_ids(mutations: &[HistoryMutation]) -> std::collections::HashSet<ChatEntryId> {
    let mut out = std::collections::HashSet::new();
    for m in mutations {
        if let HistoryMutation::SetContextOverride {
            entry_id,
            value: ContextOverride::ForcedExclude,
            ..
        } = m
        {
            out.insert(entry_id.clone());
        }
    }
    out
}

#[test]
fn tool_age_window_empty_history_produces_no_mutations() {
    let w = worker(100);
    assert!(evaluate(&w, Vec::new()).is_empty());
}

#[test]
fn tool_age_window_history_under_threshold_produces_no_mutations() {
    let w = worker(100);
    let history = users(50);
    assert!(evaluate(&w, history).is_empty());
}

// history.len() == min_age → every entry is protected.
#[test]
fn tool_age_window_history_exactly_at_threshold_produces_no_mutations() {
    let w = worker(100);
    let history = users(100);
    assert!(evaluate(&w, history).is_empty());
}

// Old tool pair (positions 0, 1) + 100 user entries = 102 entries.
// min_age = 100 → prune_region_start = 102 - 100 = 2. Pair at 0,1 is
// in prune region → both pruned (pair-atomic).
#[test]
fn history_one_over_threshold_prunes_oldest_pair() {
    let w = worker(100);
    let mut history = Vec::new();

    // Old tool pair (positions 0, 1) — should be pruned.
    let p = bash_pair("tc-1", "ls", "out");
    history.push(p[0].clone());
    history.push(p[1].clone());
    let call_id = history[0].id.clone();
    let result_id = history[1].id.clone();

    // 100 user entries → total entries = 102. Prune region start = 2.
    // Pair at positions 0,1 is in the prune region.
    history.extend(users(100));

    let mutations = evaluate(&w, history);
    let excluded = excluded_ids(&mutations);
    assert_eq!(mutations.len(), 2, "exactly the pair should be pruned");
    assert!(excluded.contains(&call_id));
    assert!(excluded.contains(&result_id));
}

// Fixture: 100 user entries + ToolCall + 99 user entries + ToolResult
// = 201 entries total. With min_age = 100, prune_region_start = 101.
// The call at index 100 is in the prune region (100 < 101); the
// result at index 200 is inside the protection floor. Both must be
// excluded (pair-atomic): the call is pruned because it's in the
// prune region; the result is pruned because
// `find_completed_matching_result` forwards from the call and finds
// the matching result regardless of the protection boundary.
#[test]
fn pair_atomicity_when_result_straddles_cutoff() {
    let w = worker(100);
    let mut history = Vec::new();

    // 100 filler user entries (positions 0..=99).
    history.extend(users(100));

    // The tool call at index 100 (in prune region: 100 < start = 101).
    let call = ChatEntry::tool_call("tc-straddle", "bash", r#"{"command": "ls"}"#);
    let call_id = call.id.clone();
    history.push(call);

    // 99 more user entries (positions 101..=199).
    history.extend(users(99));

    // The matching result at index 200 (inside protection floor).
    // Still excluded because pair-atomicity pulls it in via the
    // forward scan from the call.
    let result =
        ChatEntry::tool_result("tc-straddle", "bash", "out", ToolResultStatus::Success);
    let result_id = result.id.clone();
    history.push(result);

    let mutations = evaluate(&w, history);
    let excluded = excluded_ids(&mutations);
    assert!(
        excluded.contains(&call_id),
        "call must be excluded (in prune region)"
    );
    assert!(
        excluded.contains(&result_id),
        "result must be excluded (pair-atomic with pruned call)"
    );
}

// Fixture: 100 user entries + call + result = 102 entries.
// min_age = 100 → prune_region_start = 2. Loop runs `for i in 0..2`:
// examines only the first two users, neither is a ToolCall, so no
// mutations are emitted. The pair (positions 100, 101) is inside
// the protection floor and never even examined.
#[test]
fn pair_at_protection_boundary_is_not_pruned() {
    let w = worker(100);
    let mut history = Vec::new();

    // 100 user entries (positions 0..=99).
    history.extend(users(100));

    // Tool pair at positions 100, 101 — inside protection floor.
    let call = ChatEntry::tool_call("tc-boundary", "bash", r#"{"command": "ls"}"#);
    let call_id = call.id.clone();
    history.push(call);
    let result =
        ChatEntry::tool_result("tc-boundary", "bash", "out", ToolResultStatus::Success);
    let result_id = result.id.clone();
    history.push(result);

    let mutations = evaluate(&w, history);
    let excluded = excluded_ids(&mutations);
    assert!(
        !excluded.contains(&call_id),
        "call inside protection floor must not be pruned"
    );
    assert!(
        !excluded.contains(&result_id),
        "result inside protection floor must not be pruned"
    );
    assert!(mutations.is_empty());
}

#[test]
fn pending_result_pair_is_skipped() {
    let w = worker(100);
    let mut history = Vec::new();

    // Old pending pair at positions 0, 1.
    let p = bash_pending_pair("tc-pending", "ls");
    history.push(p[0].clone());
    history.push(p[1].clone());

    // Push the prune region past the pair.
    history.extend(users(100));

    let mutations = evaluate(&w, history);
    assert!(mutations.is_empty(), "pending pair must never be pruned");
}

#[test]
fn orphaned_call_with_no_result_is_skipped() {
    let w = worker(100);
    let mut history = Vec::new();

    let call = ChatEntry::tool_call("tc-orphan", "bash", r#"{"command": "ls"}"#);
    history.push(call);

    history.extend(users(100));

    let mutations = evaluate(&w, history);
    assert!(mutations.is_empty(), "orphaned call must not be pruned");
}

// Old pair where the call is already ForcedExclude but the result is
// not. Expect exactly 1 mutation (for the result only).
#[test]
fn already_excluded_call_does_not_get_duplicate_mutation() {
    let w = worker(100);
    let mut history = Vec::new();

    let p = bash_pair("tc-1", "ls", "out");
    let mut call = p[0].clone();
    call.apply_context_override(
        ContextOverride::ForcedExclude,
        ChangeSource::Internal {
            label: "test".into(),
        },
    );
    let call_id = call.id.clone();
    history.push(call);
    let result = p[1].clone();
    let result_id = result.id.clone();
    history.push(result);

    history.extend(users(100));

    let mutations = evaluate(&w, history);
    assert_eq!(mutations.len(), 1, "only the non-excluded result mutates");
    let excluded = excluded_ids(&mutations);
    assert!(excluded.contains(&result_id));
    assert!(!excluded.contains(&call_id));
}

// 9b. forced_included_call_does_not_get_mutation
// Same as test 9 but with ForcedInclude. The call is protected,
// the result is not. Expect exactly 1 mutation (for the result only).
#[test]
fn forced_included_call_does_not_get_mutation() {
    let w = worker(100);
    let mut history = Vec::new();

    let p = bash_pair("tc-1", "ls", "out");
    let mut call = p[0].clone();
    call.context_override = ContextOverride::ForcedInclude;
    let call_id = call.id.clone();
    history.push(call);
    let result = p[1].clone();
    let result_id = result.id.clone();
    history.push(result);

    history.extend(users(100));

    let mutations = evaluate(&w, history);
    assert_eq!(mutations.len(), 1, "only the non-protected result mutates");
    let excluded = excluded_ids(&mutations);
    assert!(excluded.contains(&result_id));
    assert!(!excluded.contains(&call_id));
}

// Config min_age = 0 (clamped to 1). Single complete pair = 2
// entries. Prune region start = 2 - 1 = 1. Loop runs `for i in 0..1`,
// examines the call. Forward scan finds the result at index 1.
// Both halves excluded (pair-atomic).
#[test]
fn min_age_clamped_to_1() {
    let w = worker(0);
    let history: Vec<ChatEntry> = bash_pair("tc-clamp", "ls", "out").into();
    // 2 entries. min_age=0 → clamped to 1. Prune region starts at
    // index 1 (the result). Loop runs `for i in 0..1`, examines the
    // call. find_completed_matching_result finds the result at index 1.
    // Both excluded.
    let mutations = evaluate(&w, history);
    assert_eq!(
        mutations.len(),
        2,
        "with min_age clamped to 1, the only pair is pruned"
    );
}

// 5 tool pairs scattered in the first 100 positions of a 200-entry
// history. All 5 should be excluded (10 mutations).
#[test]
fn multiple_tool_pairs_all_pruned_when_old() {
    let w = worker(100);
    let mut history = Vec::new();

    // 5 tool pairs (10 entries) at the start.
    for i in 0..5 {
        let p = bash_pair(&format!("tc-{i}"), "ls", "out");
        history.push(p[0].clone());
        history.push(p[1].clone());
    }

    // 190 user entries to push the total to 200.
    history.extend(users(190));

    let mutations = evaluate(&w, history);
    // 5 pairs * 2 mutations each = 10.
    assert_eq!(
        mutations.len(),
        10,
        "all 5 old pairs must be pruned, 2 mutations each"
    );
}

// Build history with old user/assistant entries plus one tool pair.
// Only the tool pair should be excluded; user/assistant entries in
// the prune region must NOT receive SetContextOverride mutations.
#[test]
fn non_tool_entries_in_prune_window_are_not_targeted() {
    let w = worker(100);
    let mut history = Vec::new();

    // User and Assistant at the start.
    history.push(ChatEntry::user("old user"));
    let asst = ChatEntry::assistant("old assistant");
    let asst_id = asst.id.clone();
    history.push(asst);

    // Tool pair.
    let p = bash_pair("tc-mix", "ls", "out");
    history.push(p[0].clone());
    history.push(p[1].clone());

    // 100 user entries → total entries = 104, prune region covers
    // positions 0..=3 (user, assistant, call, result). Only the pair
    // (positions 2, 3) should mutate.
    history.extend(users(100));

    let mutations = evaluate(&w, history);
    let excluded = excluded_ids(&mutations);
    assert_eq!(mutations.len(), 2);
    assert!(
        !excluded.contains(&asst_id),
        "non-tool assistant entry must not be pruned"
    );
}

// With min_age=0 every completed tool pair is eligible for pruning
// (no protection).
#[test]
fn min_age_zero_prunes_everything() {
    let w = worker(0);
    let mut history = Vec::new();

    // 3 tool pairs (6 entries).
    for i in 0..3 {
        let p = bash_pair(&format!("tc-{i}"), "ls", "out");
        history.push(p[0].clone());
        history.push(p[1].clone());
    }

    // 10 trailing user entries so history.len() > 0.
    history.extend(users(10));

    let mutations = evaluate(&w, history);
    // 3 pairs * 2 mutations each = 6.
    assert_eq!(
        mutations.len(),
        6,
        "min_age=0 must permit pruning of all completed pairs"
    );
}
