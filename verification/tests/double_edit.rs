use jinn_domain::auto_prune_worker::double_edit::{
    DoubleEditAutoPruneConfig, DoubleEditAutoPruneWorker,
};
use jinn_domain::chat_entry::{ChangeSource, ChatEntry, ChatEntryId, ContextOverride, SessionId, ToolResultStatus};
use jinn_domain::history::HistoryMutation;

/// Helper: create an edit ToolCall + ToolResult pair.
fn edit_call_result(call_id: &str, path: &str, content: &str) -> [ChatEntry; 2] {
    [
        ChatEntry::tool_call(call_id, "edit", &format!(r#"{{"path": "{path}"}}"#)),
        ChatEntry::tool_result(call_id, "edit", content, ToolResultStatus::Success),
    ]
}

/// Helper: create a write ToolCall + ToolResult pair.
fn write_call_result(call_id: &str, path: &str, content: &str) -> [ChatEntry; 2] {
    [
        ChatEntry::tool_call(call_id, "write", &format!(r#"{{"path": "{path}"}}"#)),
        ChatEntry::tool_result(call_id, "write", content, ToolResultStatus::Success),
    ]
}

fn worker_with_max(max: usize) -> DoubleEditAutoPruneWorker {
    DoubleEditAutoPruneWorker {
        config: DoubleEditAutoPruneConfig {
            enabled: true,
            max_file_edits: max,
            min_age: 0,
        },
    }
}

fn worker_with_max_and_min_age(max: usize, min_age: usize) -> DoubleEditAutoPruneWorker {
    DoubleEditAutoPruneWorker {
        config: DoubleEditAutoPruneConfig {
            enabled: true,
            max_file_edits: max,
            min_age,
        },
    }
}

fn evaluate(
    worker: &DoubleEditAutoPruneWorker,
    history: Vec<ChatEntry>,
) -> Vec<HistoryMutation> {
    worker.evaluate(&SessionId::new(), &history)
}

fn collect_pruned_ids(mutations: Vec<HistoryMutation>) -> Vec<ChatEntryId> {
    let mut ids: Vec<_> = mutations
        .into_iter()
        .map(|m| match m {
            HistoryMutation::SetContextOverride {
                entry_id, value, ..
            } => {
                assert_eq!(value, ContextOverride::ForcedExclude);
                entry_id
            }
            other => panic!("expected SetContextOverride, got {other:?}"),
        })
        .collect();
    ids.sort_by_key(|id| id.0);
    ids
}

#[test]
fn no_edit_write_produces_no_mutations() {
    let history = vec![
        ChatEntry::user("hello"),
        ChatEntry::assistant("hi"),
        ChatEntry::user("what is 2+2?"),
        ChatEntry::assistant("4"),
    ];
    let worker = worker_with_max(2);
    let mutations = evaluate(&worker, history);
    assert!(mutations.is_empty());
}

#[test]
fn under_max_produces_no_mutations() {
    let mut history = Vec::new();
    let e1 = edit_call_result("tc-1", "/foo.rs", "edit 1");
    history.push(e1[0].clone());
    history.push(e1[1].clone());
    let e2 = edit_call_result("tc-2", "/foo.rs", "edit 2");
    history.push(e2[0].clone());
    history.push(e2[1].clone());

    let worker = worker_with_max(2);
    let mutations = evaluate(&worker, history);
    assert!(mutations.is_empty());
}

#[test]
fn over_max_prunes_oldest() {
    let mut history = Vec::new();
    let e1 = edit_call_result("tc-1", "/foo.rs", "edit 1");
    history.push(e1[0].clone());
    history.push(e1[1].clone());
    let e2 = edit_call_result("tc-2", "/foo.rs", "edit 2");
    history.push(e2[0].clone());
    history.push(e2[1].clone());
    let e3 = edit_call_result("tc-3", "/foo.rs", "edit 3");
    history.push(e3[0].clone());
    history.push(e3[1].clone());

    let expected_call_id = history[0].id.clone();
    let expected_result_id = history[1].id.clone();

    let worker = worker_with_max(2);
    let mutations = evaluate(&worker, history);
    let pruned_ids = collect_pruned_ids(mutations);

    let mut expected = vec![expected_call_id, expected_result_id];
    expected.sort_by_key(|id| id.0);
    assert_eq!(pruned_ids, expected);
}

#[test]
fn mixed_edit_and_write_count_together() {
    let mut history = Vec::new();
    // edit (oldest) + write + write = 3, max=2 → prune the edit
    let e1 = edit_call_result("tc-1", "/foo.rs", "edit 1");
    history.push(e1[0].clone());
    history.push(e1[1].clone());
    let w1 = write_call_result("tc-2", "/foo.rs", "write 1");
    history.push(w1[0].clone());
    history.push(w1[1].clone());
    let w2 = write_call_result("tc-3", "/foo.rs", "write 2");
    history.push(w2[0].clone());
    history.push(w2[1].clone());

    let expected_call_id = history[0].id.clone();
    let expected_result_id = history[1].id.clone();

    let worker = worker_with_max(2);
    let mutations = evaluate(&worker, history);
    let pruned_ids = collect_pruned_ids(mutations);

    let mut expected = vec![expected_call_id, expected_result_id];
    expected.sort_by_key(|id| id.0);
    assert_eq!(pruned_ids, expected);
}

#[test]
fn different_files_independent() {
    let mut history = Vec::new();
    // 3 edits to /foo.rs, 1 edit to /bar.rs, max=2
    let e1 = edit_call_result("tc-1", "/foo.rs", "edit 1");
    history.push(e1[0].clone());
    history.push(e1[1].clone());
    let b1 = edit_call_result("tc-2", "/bar.rs", "bar edit 1");
    history.push(b1[0].clone());
    history.push(b1[1].clone());
    let e2 = edit_call_result("tc-3", "/foo.rs", "edit 2");
    history.push(e2[0].clone());
    history.push(e2[1].clone());
    let e3 = edit_call_result("tc-4", "/foo.rs", "edit 3");
    history.push(e3[0].clone());
    history.push(e3[1].clone());

    // Only the oldest /foo.rs pair should be pruned.
    let expected_call_id = history[0].id.clone();
    let expected_result_id = history[1].id.clone();

    let worker = worker_with_max(2);
    let mutations = evaluate(&worker, history);
    let pruned_ids = collect_pruned_ids(mutations);

    let mut expected = vec![expected_call_id, expected_result_id];
    expected.sort_by_key(|id| id.0);
    assert_eq!(pruned_ids, expected);
}

#[test]
fn already_excluded_skipped() {
    // 3 pairs total, max=2 -> prune oldest 1.
    // The oldest call is already ForcedExclude -> only its non-excluded
    // result gets a mutation.
    let mut history = Vec::new();
    let e1 = edit_call_result("tc-1", "/foo.rs", "edit 1");
    let mut e1_call = e1[0].clone();
    e1_call.apply_context_override(
        ContextOverride::ForcedExclude,
        ChangeSource::Internal {
            label: "test".into(),
        },
    );
    history.push(e1_call);
    let oldest_result_id = e1[1].id.clone();
    history.push(e1[1].clone());
    let e2 = edit_call_result("tc-2", "/foo.rs", "edit 2");
    history.push(e2[0].clone());
    history.push(e2[1].clone());
    let e3 = edit_call_result("tc-3", "/foo.rs", "edit 3");
    history.push(e3[0].clone());
    history.push(e3[1].clone());

    let worker = worker_with_max(2);
    let mutations = evaluate(&worker, history);

    assert_eq!(mutations.len(), 1, "only the non-excluded result mutates");
    match &mutations[0] {
        HistoryMutation::SetContextOverride {
            entry_id, value, ..
        } => {
            assert_eq!(*entry_id, oldest_result_id);
            assert_eq!(*value, ContextOverride::ForcedExclude);
        }
        other => panic!("expected SetContextOverride, got {other:?}"),
    }
}

#[test]
fn forced_included_skipped() {
    // Same shape as `already_excluded_skipped` but with ForcedInclude on
    // the oldest call. Proves ForcedInclude is treated symmetrically at
    // the mutation-emission step.
    let mut history = Vec::new();
    let e1 = edit_call_result("tc-1", "/foo.rs", "edit 1");
    let mut e1_call = e1[0].clone();
    e1_call.context_override = ContextOverride::ForcedInclude;
    history.push(e1_call);
    let oldest_result_id = e1[1].id.clone();
    history.push(e1[1].clone());
    let e2 = edit_call_result("tc-2", "/foo.rs", "edit 2");
    history.push(e2[0].clone());
    history.push(e2[1].clone());
    let e3 = edit_call_result("tc-3", "/foo.rs", "edit 3");
    history.push(e3[0].clone());
    history.push(e3[1].clone());

    let worker = worker_with_max(2);
    let mutations = evaluate(&worker, history);

    assert_eq!(mutations.len(), 1, "only the non-protected result mutates");
    match &mutations[0] {
        HistoryMutation::SetContextOverride {
            entry_id, value, ..
        } => {
            assert_eq!(*entry_id, oldest_result_id);
            assert_eq!(*value, ContextOverride::ForcedExclude);
        }
        other => panic!("expected SetContextOverride, got {other:?}"),
    }
}

#[test]
fn tool_call_without_result_ignored() {
    let mut history = Vec::new();
    // Orphan edit ToolCall (no result).
    history.push(ChatEntry::tool_call(
        "tc-orphan",
        "edit",
        r#"{"path": "/foo.rs"}"#,
    ));
    // Two complete edits.
    let e1 = edit_call_result("tc-1", "/foo.rs", "edit 1");
    history.push(e1[0].clone());
    history.push(e1[1].clone());
    let e2 = edit_call_result("tc-2", "/foo.rs", "edit 2");
    history.push(e2[0].clone());
    history.push(e2[1].clone());

    // Only 2 complete pairs, max=2 → nothing pruned.
    let worker = worker_with_max(2);
    let mutations = evaluate(&worker, history);
    assert!(mutations.is_empty());
}

#[test]
fn exact_max_no_prune() {
    let mut history = Vec::new();
    let e1 = edit_call_result("tc-1", "/foo.rs", "edit 1");
    history.push(e1[0].clone());
    history.push(e1[1].clone());
    let e2 = edit_call_result("tc-2", "/foo.rs", "edit 2");
    history.push(e2[0].clone());
    history.push(e2[1].clone());

    let worker = worker_with_max(2);
    let mutations = evaluate(&worker, history);
    assert!(mutations.is_empty());
}

#[test]
fn max_zero_means_no_limit() {
    let mut history = Vec::new();
    for i in 0..5 {
        let e = edit_call_result(&format!("tc-{i}"), "/foo.rs", &format!("edit {i}"));
        history.push(e[0].clone());
        history.push(e[1].clone());
    }

    let worker = worker_with_max(0);
    let mutations = evaluate(&worker, history);
    assert!(mutations.is_empty());
}

#[test]
fn five_edits_prune_three_oldest() {
    let mut history = Vec::new();
    let mut oldest_ids = Vec::new();
    for i in 0..5 {
        let e = edit_call_result(&format!("tc-{i}"), "/foo.rs", &format!("edit {i}"));
        if i < 3 {
            oldest_ids.push(e[0].id.clone());
            oldest_ids.push(e[1].id.clone());
        }
        history.push(e[0].clone());
        history.push(e[1].clone());
    }

    let worker = worker_with_max(2);
    let mutations = evaluate(&worker, history);
    assert_eq!(mutations.len(), 6, "3 oldest pairs × 2 = 6 mutations");

    let pruned_ids = collect_pruned_ids(mutations);
    oldest_ids.sort_by_key(|id| id.0);
    assert_eq!(pruned_ids, oldest_ids);
}

#[test]
fn multiple_files_both_overflow() {
    let mut history = Vec::new();
    // 4 edits to /a.rs
    for i in 0..4 {
        let e = edit_call_result(&format!("tc-a{i}"), "/a.rs", &format!("a{i}"));
        history.push(e[0].clone());
        history.push(e[1].clone());
    }
    // 3 edits to /b.rs
    for i in 0..3 {
        let e = edit_call_result(&format!("tc-b{i}"), "/b.rs", &format!("b{i}"));
        history.push(e[0].clone());
        history.push(e[1].clone());
    }

    // /a.rs: 4 entries, keep 2 → prune 2 oldest (4 mutations)
    // /b.rs: 3 entries, keep 2 → prune 1 oldest (2 mutations)
    // Total: 6 mutations
    let worker = worker_with_max(2);
    let mutations = evaluate(&worker, history);
    assert_eq!(mutations.len(), 6);
}

// `min_age` protection tests
// The `min_age` floor suppresses mutation emission for pairs whose
// call_idx is within `min_age` of history.len(). Pair-atomicity is
// preserved: a protected pair emits no mutations for either half.
// Suppressed pairs still count toward the per-file total, so a file
// may temporarily exceed `max_file_edits` while young entries age out
// — this matches the "be less aggressive" design intent.

#[test]
fn min_age_protects_young_file_with_many_writes() {
    // 3 writes to the same file with max_file_edits=2.
    // Without min_age the oldest pair would be pruned. With min_age=20
    // and a short history (the writes themselves occupy indices 0..6,
    // so the oldest call is at age = 6 − 0 − 1 = 5 < 20) all three
    // pairs are protected.
    let mut history = Vec::new();
    for i in 0..3 {
        let w = write_call_result(&format!("tc-{i}"), "/file.rs", &format!("v{i}"));
        history.push(w[0].clone());
        history.push(w[1].clone());
    }
    // history.len() = 6; every call is age < 20.
    let worker = worker_with_max_and_min_age(2, 20);
    let mutations = evaluate(&worker, history);
    assert_eq!(
        mutations.len(),
        0,
        "young file with all writes within min_age should not be pruned"
    );
}

#[test]
fn min_age_zero_prunes_as_before() {
    // min_age=0 protects nothing: oldest pair pruned when
    // the file exceeds max_file_edits.
    let mut history = Vec::new();
    for i in 0..3 {
        let w = write_call_result(&format!("tc-{i}"), "/file.rs", &format!("v{i}"));
        history.push(w[0].clone());
        history.push(w[1].clone());
    }
    let worker = worker_with_max_and_min_age(2, 0);
    let mutations = evaluate(&worker, history);
    // 3 writes / max 2 → prune oldest call+result pair (2 mutations).
    assert_eq!(mutations.len(), 2);
}

#[test]
fn mixed_young_and_old_writes() {
    // Oldest write at the start of a long history (age ≫ min_age, prunable);
    // 3 more writes near the end (age < min_age, protected).
    // max_file_edits=2 + min_age=20 means: we have 4 writes total,
    // would normally prune the 2 oldest, but only the very oldest is
    // outside the protection floor.
    let mut history = Vec::new();

    // Write #0 at indices 0,1 — age will be ≫ 20.
    let w0 = write_call_result("tc-0", "/file.rs", "v0");
    history.push(w0[0].clone());
    history.push(w0[1].clone());

    // Pad with 50 user entries → history.len() = 52; write #0 call age = 51.
    for i in 0..50 {
        history.push(ChatEntry::user(&format!("padding {i}")));
    }

    // Writes #1, #2, #3 at the end — all young.
    for i in 1..=3 {
        let w = write_call_result(&format!("tc-{i}"), "/file.rs", &format!("v{i}"));
        history.push(w[0].clone());
        history.push(w[1].clone());
    }

    // history.len() = 60. Write #0 call at idx 0 has age 59 (≥ 20, prunable).
    // Writes #1..#3 have ages 7, 5, 3 (all < 20, protected).
    // With max_file_edits=2, the worker would prune 2 oldest if it could,
    // but only write #0 is eligible → exactly 2 mutations (call+result).
    let worker = worker_with_max_and_min_age(2, 20);
    let mutations = evaluate(&worker, history);
    assert_eq!(
        mutations.len(),
        2,
        "only the unprotected oldest write should be pruned; young writes stay"
    );

    let pruned_ids: std::collections::HashSet<_> = mutations
        .iter()
        .map(|m| match m {
            HistoryMutation::SetContextOverride { entry_id, .. } => entry_id.clone(),
            _ => panic!("expected SetContextOverride mutations"),
        })
        .collect();
    assert!(pruned_ids.contains(&w0[0].id), "oldest call must be pruned");
    assert!(
        pruned_ids.contains(&w0[1].id),
        "oldest result must be pruned"
    );
}
