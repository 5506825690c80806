use jinn_domain::auto_prune_worker::broken_edit::{
    BrokenEditAutoPruneConfig, BrokenEditAutoPruneWorker,
};
use jinn_domain::chat_entry::{ChangeSource, ChatEntry, ContextOverride, SessionId, ToolResultStatus};
use jinn_domain::history::HistoryMutation;

/// Helper: create a failed edit ToolCall + ToolResult pair.
fn failed_edit_call_result(call_id: &str, path: &str, error_msg: &str) -> [ChatEntry; 2] {
    [
        ChatEntry::tool_call(call_id, "edit", &format!(r#"{{"path": "{path}"}}"#)),
        ChatEntry::tool_result(call_id, "edit", error_msg, ToolResultStatus::Failure),
    ]
}

/// Helper: create a successful edit ToolCall + ToolResult pair.
fn successful_edit_call_result(call_id: &str, path: &str, msg: &str) -> [ChatEntry; 2] {
    [
        ChatEntry::tool_call(call_id, "edit", &format!(r#"{{"path": "{path}"}}"#)),
        ChatEntry::tool_result(call_id, "edit", msg, ToolResultStatus::Success),
    ]
}

/// Build a history with a failed edit pair followed by N user entries (in-context).
fn history_with_failed_edit_and_tail(path: &str, tail_count: usize) -> Vec<ChatEntry> {
    let mut history = Vec::new();
    let edit = failed_edit_call_result("tc-1", path, "edit failed: stale anchor");
    history.push(edit[0].clone());
    history.push(edit[1].clone());
    for i in 0..tail_count {
        history.push(ChatEntry::user(&format!("tail message {i}")));
    }
    history
}

/// Build a worker with the given `min_age`.
fn worker_with_min_age(min_age: usize) -> BrokenEditAutoPruneWorker {
    BrokenEditAutoPruneWorker {
        config: BrokenEditAutoPruneConfig {
            enabled: true,
            min_age,
        },
    }
}

fn evaluate(
    worker: &BrokenEditAutoPruneWorker,
    history: Vec<ChatEntry>,
) -> Vec<HistoryMutation> {
    worker.evaluate(&SessionId::new(), &history)
}

#[test]
fn no_edit_produces_no_mutations() {
    let history = vec![
        ChatEntry::user("hello"),
        ChatEntry::assistant("hi"),
        ChatEntry::user("what is 2+2?"),
        ChatEntry::assistant("4"),
    ];
    let worker = worker_with_min_age(0);
    let mutations = evaluate(&worker, history);
    assert!(mutations.is_empty());
}

#[test]
fn successful_edit_produces_no_mutations() {
    let mut history = Vec::new();
    let edit = successful_edit_call_result("tc-1", "/foo.rs", "edit applied");
    history.push(edit[0].clone());
    history.push(edit[1].clone());
    for i in 0..100 {
        history.push(ChatEntry::user(&format!("tail message {i}")));
    }
    let worker = worker_with_min_age(50);
    let mutations = evaluate(&worker, history);
    assert!(mutations.is_empty());
}

#[test]
fn min_age_zero_prunes_old_failed_edit() {
    // With min_age = 0, the failed edit is pruned even when it is recent.
    let history = history_with_failed_edit_and_tail("/foo.rs", 1);
    let worker = worker_with_min_age(0);
    let mutations = evaluate(&worker, history);
    assert_eq!(mutations.len(), 2);
}

#[test]
fn min_age_protects_recent_failed_edit() {
    // Failed edit at idx 0, history len = 12, age = 11. With min_age = 50, protected.
    let history = history_with_failed_edit_and_tail("/foo.rs", 10);
    let worker = worker_with_min_age(50);
    let mutations = evaluate(&worker, history);
    assert!(mutations.is_empty());
}

#[test]
fn min_age_zero_prunes_old_failed_edit_with_long_history() {
    // Long history, failed edit far back, min_age = 0 → prune.
    let history = history_with_failed_edit_and_tail("/foo.rs", 100);
    let worker = worker_with_min_age(0);
    let mutations = evaluate(&worker, history);
    assert_eq!(mutations.len(), 2);
}

#[test]
fn failed_edit_at_boundary_protected() {
    // Failed edit at idx 0. history.len() = 51 (edit + result + 49 user).
    // age = 51 - 0 - 1 = 50. min_age = 50 → 50 < 50 false → NOT protected → prunes.
    let history = history_with_failed_edit_and_tail("/foo.rs", 49);
    let worker = worker_with_min_age(50);
    let mutations = evaluate(&worker, history);
    assert_eq!(mutations.len(), 2, "age == min_age is not protected");
}

#[test]
fn failed_edit_one_below_boundary_not_protected() {
    // history.len() = 50, age = 49. min_age = 50 → 49 < 50 → protected.
    let history = history_with_failed_edit_and_tail("/foo.rs", 48);
    let worker = worker_with_min_age(50);
    let mutations = evaluate(&worker, history);
    assert!(mutations.is_empty(), "age = min_age - 1 is protected");
}

#[test]
fn already_excluded_call_produces_no_duplicate_mutation() {
    let mut history = history_with_failed_edit_and_tail("/foo.rs", 100);
    // Mark the edit ToolCall as already excluded.
    history[0].apply_context_override(
        ContextOverride::ForcedExclude,
        ChangeSource::Internal {
            label: "test".into(),
        },
    );

    let worker = worker_with_min_age(0);
    let mutations = evaluate(&worker, history);
    assert!(mutations.is_empty());
}

#[test]
fn already_excluded_result_produces_no_duplicate_mutation() {
    let mut history = history_with_failed_edit_and_tail("/foo.rs", 100);
    // Mark the edit ToolResult as already excluded.
    history[1].apply_context_override(
        ContextOverride::ForcedExclude,
        ChangeSource::Internal {
            label: "test".into(),
        },
    );

    let worker = worker_with_min_age(0);
    let mutations = evaluate(&worker, history);
    assert!(mutations.is_empty());
}

#[test]
fn forced_included_call_produces_no_mutation() {
    let mut history = history_with_failed_edit_and_tail("/foo.rs", 100);
    // Mark the edit ToolCall as force-included.
    history[0].context_override = ContextOverride::ForcedInclude;
    let call_id = history[0].id.clone();
    let result_id = history[1].id.clone();

    let worker = worker_with_min_age(0);
    let mutations = evaluate(&worker, history);
    // broken_edit is pair-atomic: if either half is protected, neither mutates.
    // So protecting the call protects the entire pair.
    assert!(
        mutations.is_empty(),
        "pair-atomic: protecting call protects result"
    );
    let _ = (call_id, result_id);
}

#[test]
fn forced_included_result_produces_no_mutation() {
    let mut history = history_with_failed_edit_and_tail("/foo.rs", 100);
    // Mark the edit ToolResult as force-included.
    history[1].context_override = ContextOverride::ForcedInclude;
    let call_id = history[0].id.clone();
    let result_id = history[1].id.clone();

    let worker = worker_with_min_age(0);
    let mutations = evaluate(&worker, history);
    // pair-atomic: protecting the result also protects the call.
    assert!(
        mutations.is_empty(),
        "pair-atomic: protecting result protects call"
    );
    let _ = (call_id, result_id);
}

#[test]
fn multiple_failed_edits_all_pruned_when_old_enough() {
    let mut history = Vec::new();

    // First failed edit.
    let edit1 = failed_edit_call_result("tc-1", "/a.rs", "failed a");
    history.push(edit1[0].clone());
    history.push(edit1[1].clone());

    // Second failed edit.
    let edit2 = failed_edit_call_result("tc-2", "/b.rs", "failed b");
    history.push(edit2[0].clone());
    history.push(edit2[1].clone());

    // Tail entries after last edit.
    for i in 0..100 {
        history.push(ChatEntry::user(&format!("tail {i}")));
    }

    let worker = worker_with_min_age(50);
    let mutations = evaluate(&worker, history);
    assert_eq!(
        mutations.len(),
        4,
        "both failed edits should be pruned (2 entries each)"
    );
}

#[test]
fn edit_without_result_produces_no_mutation() {
    let mut history = Vec::new();
    // Edit tool call but no corresponding tool result.
    history.push(ChatEntry::tool_call(
        "tc-orphan",
        "edit",
        r#"{"path": "/foo.rs"}"#,
    ));
    for i in 0..100 {
        history.push(ChatEntry::user(&format!("tail {i}")));
    }

    let worker = worker_with_min_age(0);
    let mutations = evaluate(&worker, history);
    assert!(mutations.is_empty());
}

#[test]
fn only_failed_edits_are_pruned_not_successful_ones() {
    let mut history = Vec::new();

    // Successful edit.
    let ok_edit = successful_edit_call_result("tc-1", "/a.rs", "ok");
    history.push(ok_edit[0].clone());
    history.push(ok_edit[1].clone());

    // Failed edit.
    let fail_edit = failed_edit_call_result("tc-2", "/b.rs", "failed");
    history.push(fail_edit[0].clone());
    history.push(fail_edit[1].clone());

    // Tail entries.
    for i in 0..100 {
        history.push(ChatEntry::user(&format!("tail {i}")));
    }

    let worker = worker_with_min_age(50);
    let mutations = evaluate(&worker, history);
    assert_eq!(
        mutations.len(),
        2,
        "only the failed edit pair should be pruned"
    );
}
