use jinn_domain::auto_prune_worker::todo_prune::{TodoAutoPruneConfig, TodoAutoPruneWorker};
use jinn_domain::chat_entry::{ChangeSource, ChatEntry, ChatEntryId, ContextOverride, PinPosition, SessionId, ToolResultStatus};
use jinn_domain::history::HistoryMutation;

/// Helper: create a `todo_get_task_list` ToolCall + ToolResult pair.
fn get_task_list_call_result(call_id: &str, content: &str) -> [ChatEntry; 2] {
    [
        ChatEntry::tool_call(call_id, "todo_get_task_list", r#"{"phase_id":"p1"}"#),
        ChatEntry::tool_result(
            call_id,
            "todo_get_task_list",
            content,
            ToolResultStatus::Success,
        ),
    ]
}

/// Helper: create a `todo_complete_task` ToolCall + ToolResult pair.
fn complete_task_call_result(call_id: &str, content: &str) -> [ChatEntry; 2] {
    [
        ChatEntry::tool_call(call_id, "todo_complete_task", r#"{"task_id":"t1"}"#),
        ChatEntry::tool_result(
            call_id,
            "todo_complete_task",
            content,
            ToolResultStatus::Success,
        ),
    ]
}

/// Helper: create a `todo_add_phase` ToolCall + ToolResult pair.
fn add_phase_call_result(call_id: &str, content: &str) -> [ChatEntry; 2] {
    [
        ChatEntry::tool_call(call_id, "todo_add_phase", r#"{"description":"Build"}"#),
        ChatEntry::tool_result(
            call_id,
            "todo_add_phase",
            content,
            ToolResultStatus::Success,
        ),
    ]
}

/// Helper: create a `todo_add_task` ToolCall + ToolResult pair.
fn add_task_call_result(call_id: &str, content: &str) -> [ChatEntry; 2] {
    [
        ChatEntry::tool_call(
            call_id,
            "todo_add_task",
            r#"{"phase_id":"p1","description":"Write code"}"#,
        ),
        ChatEntry::tool_result(call_id, "todo_add_task", content, ToolResultStatus::Success),
    ]
}

fn worker() -> TodoAutoPruneWorker {
    worker_with_protect_latest(true)
}

/// Build a worker with `min_age = 0` and the given `protect_latest` flag.
fn worker_with_protect_latest(protect_latest: bool) -> TodoAutoPruneWorker {
    TodoAutoPruneWorker {
        config: TodoAutoPruneConfig {
            enabled: true,
            min_age: 0,
            protect_latest,
        },
    }
}

/// Evaluate the worker synchronously for tests.
fn evaluate(history: Vec<ChatEntry>) -> Vec<HistoryMutation> {
    worker().evaluate(&SessionId::new(), &history)
}

/// Evaluate with an explicit `protect_latest` flag.
fn evaluate_with_protect_latest(
    history: Vec<ChatEntry>,
    protect_latest: bool,
) -> Vec<HistoryMutation> {
    worker_with_protect_latest(protect_latest).evaluate(&SessionId::new(), &history)
}

/// Whether the mutation targets the entry with a `ForcedInclude`.
fn targets_include(m: &HistoryMutation, id: &ChatEntryId) -> bool {
    matches!(
        m,
        HistoryMutation::SetContextOverride {
            entry_id,
            value: ContextOverride::ForcedInclude,
            ..
        } if entry_id == id
    )
}

/// Whether the mutation targets the entry with a `ForcedExclude`.
fn targets_exclude(m: &HistoryMutation, id: &ChatEntryId) -> bool {
    matches!(
        m,
        HistoryMutation::SetContextOverride {
            entry_id,
            value: ContextOverride::ForcedExclude,
            ..
        } if entry_id == id
    )
}

/// Whether the mutation targets the entry with a `Default` (demote).
fn targets_demote(m: &HistoryMutation, id: &ChatEntryId) -> bool {
    matches!(
        m,
        HistoryMutation::SetContextOverride {
            entry_id,
            value: ContextOverride::Default,
            ..
        } if entry_id == id
    )
}

/// Whether any mutation includes the entry.
fn any_include(mutations: &[HistoryMutation], id: &ChatEntryId) -> bool {
    mutations.iter().any(|m| targets_include(m, id))
}

/// Whether any mutation excludes the entry.
fn any_exclude(mutations: &[HistoryMutation], id: &ChatEntryId) -> bool {
    mutations.iter().any(|m| targets_exclude(m, id))
}

/// Whether any mutation demotes the entry.
fn any_demote(mutations: &[HistoryMutation], id: &ChatEntryId) -> bool {
    mutations.iter().any(|m| targets_demote(m, id))
}

#[test]
fn no_todo_calls_produces_no_mutations() {
    let history = vec![
        ChatEntry::user("hello"),
        ChatEntry::assistant("hi"),
        ChatEntry::user("what is 2+2?"),
        ChatEntry::assistant("4"),
    ];
    let mutations = evaluate(history);
    assert!(mutations.is_empty());
}

#[test]
fn single_get_task_list_is_force_included() {
    // Given a history with exactly one todo call+result pair.
    let call_result = get_task_list_call_result("tc-1", "task list here");
    let history = vec![call_result[0].clone(), call_result[1].clone()];

    // When evaluating with protect_latest on (the default).
    let mutations = evaluate(history);

    // Then both halves of the pair are force-included.
    assert!(any_include(&mutations, &call_result[0].id));
    assert!(any_include(&mutations, &call_result[1].id));
}

#[test]
fn single_complete_task_is_force_included() {
    // Given a history with exactly one todo_complete_task pair.
    let call_result = complete_task_call_result("tc-1", "task completed");
    let history = vec![call_result[0].clone(), call_result[1].clone()];

    // When evaluating with protect_latest on (the default).
    let mutations = evaluate(history);

    // Then both halves of the pair are force-included.
    assert!(any_include(&mutations, &call_result[0].id));
    assert!(any_include(&mutations, &call_result[1].id));
}

#[test]
fn multiple_get_task_list_prunes_older() {
    let mut history = Vec::new();
    // First call (older — should be pruned).
    let cr1 = get_task_list_call_result("tc-1", "list v1");
    history.push(cr1[0].clone());
    history.push(cr1[1].clone());
    // Second call (most recent — should be kept).
    let cr2 = get_task_list_call_result("tc-2", "list v2");
    history.push(cr2[0].clone());
    history.push(cr2[1].clone());

    let mutations = evaluate(history);
    // Should emit: 2 includes for tc-2 (the latest) + 2 excludes for tc-1.
    assert_eq!(mutations.len(), 4);

    // tc-1 (superseded) is excluded; tc-2 (latest) is included.
    assert!(any_exclude(&mutations, &cr1[0].id));
    assert!(any_exclude(&mutations, &cr1[1].id));
    assert!(any_include(&mutations, &cr2[0].id));
    assert!(any_include(&mutations, &cr2[1].id));
}

#[test]
fn multiple_complete_task_prunes_older() {
    let mut history = Vec::new();
    let cr1 = complete_task_call_result("tc-1", "completed t1");
    history.push(cr1[0].clone());
    history.push(cr1[1].clone());
    let cr2 = complete_task_call_result("tc-2", "completed t2");
    history.push(cr2[0].clone());
    history.push(cr2[1].clone());

    let mutations = evaluate(history);
    // 2 includes for tc-2 (latest) + 2 excludes for tc-1.
    assert_eq!(mutations.len(), 4);

    assert!(any_exclude(&mutations, &cr1[0].id));
    assert!(any_exclude(&mutations, &cr1[1].id));
    assert!(any_include(&mutations, &cr2[0].id));
    assert!(any_include(&mutations, &cr2[1].id));
}

#[test]
fn interleaved_todo_tools_pruned_as_group() {
    let mut history = Vec::new();
    // get_task_list v1 (older — should be pruned)
    let g1 = get_task_list_call_result("g-1", "list v1");
    history.push(g1[0].clone());
    history.push(g1[1].clone());
    // complete_task v1 (older — should be pruned)
    let c1 = complete_task_call_result("c-1", "completed t1");
    history.push(c1[0].clone());
    history.push(c1[1].clone());
    // get_task_list v2 (older — should be pruned)
    let g2 = get_task_list_call_result("g-2", "list v2");
    history.push(g2[0].clone());
    history.push(g2[1].clone());
    // complete_task v2 (most recent — kept)
    let c2 = complete_task_call_result("c-2", "completed t2");
    history.push(c2[0].clone());
    history.push(c2[1].clone());

    let mutations = evaluate(history);
    // Unified pruning: only c-2 survives. g-1, c-1, g-2 are pruned
    // (6 excludes) and c-2 is force-included (2 includes) = 8.
    assert_eq!(mutations.len(), 8);

    // g-1, c-1, and g-2 should be pruned.
    assert!(any_exclude(&mutations, &g1[0].id));
    assert!(any_exclude(&mutations, &g1[1].id));
    assert!(any_exclude(&mutations, &c1[0].id));
    assert!(any_exclude(&mutations, &c1[1].id));
    assert!(any_exclude(&mutations, &g2[0].id));
    assert!(any_exclude(&mutations, &g2[1].id));
    // c-2 (most recent) should be included, not pruned.
    assert!(any_include(&mutations, &c2[0].id));
    assert!(any_include(&mutations, &c2[1].id));
    assert!(!any_exclude(&mutations, &c2[0].id));
    assert!(!any_exclude(&mutations, &c2[1].id));
}

#[test]
fn already_excluded_no_duplicate_mutation() {
    let mut history = Vec::new();
    let cr1 = get_task_list_call_result("tc-1", "list v1");
    // Mark both as already excluded.
    let mut call = cr1[0].clone();
    call.apply_context_override(
        ContextOverride::ForcedExclude,
        ChangeSource::Internal {
            label: "test".into(),
        },
    );
    let mut result = cr1[1].clone();
    result.apply_context_override(
        ContextOverride::ForcedExclude,
        ChangeSource::Internal {
            label: "test".into(),
        },
    );
    history.push(call);
    history.push(result);

    let cr2 = get_task_list_call_result("tc-2", "list v2");
    history.push(cr2[0].clone());
    history.push(cr2[1].clone());

    let mutations = evaluate(history);
    // tc-1 halves are already excluded → their re-excludes are emitted
    // but are apply-time no-ops; tc-2 gets its 2 includes.
    assert_eq!(mutations.len(), 4);
    assert!(any_include(&mutations, &cr2[0].id));
    assert!(any_include(&mutations, &cr2[1].id));
    assert!(any_exclude(&mutations, &cr1[0].id));
    assert!(any_exclude(&mutations, &cr1[1].id));
}

#[test]
fn user_included_previous_pair_is_not_demoted_or_excluded() {
    // Given an older pair whose halves were force-included by the user.
    let mut history = Vec::new();
    let cr1 = get_task_list_call_result("tc-1", "list v1");
    let mut call = cr1[0].clone();
    call.apply_context_override(ContextOverride::ForcedInclude, ChangeSource::User);
    let mut result = cr1[1].clone();
    result.apply_context_override(ContextOverride::ForcedInclude, ChangeSource::User);
    history.push(call);
    history.push(result);
    // A newer pair arrives — tc-1 is now superseded.
    let cr2 = get_task_list_call_result("tc-2", "list v2");
    history.push(cr2[0].clone());
    history.push(cr2[1].clone());

    // When evaluating with protect_latest on.
    let mutations = evaluate(history);

    // Then the user's include on tc-1 is respected: no demote, no exclude.
    assert!(!any_demote(&mutations, &cr1[0].id));
    assert!(!any_demote(&mutations, &cr1[1].id));
    assert!(!any_exclude(&mutations, &cr1[0].id));
    assert!(!any_exclude(&mutations, &cr1[1].id));
    // And the latest pair is still included.
    assert!(any_include(&mutations, &cr2[0].id));
    assert!(any_include(&mutations, &cr2[1].id));
}

#[test]
fn tool_call_without_result_still_prunes_call() {
    let mut history = Vec::new();
    // Orphan ToolCall with no corresponding ToolResult.
    history.push(ChatEntry::tool_call(
        "tc-orphan",
        "todo_get_task_list",
        "{}",
    ));
    let orphan_id = history[0].id.clone();
    // Most recent call with result.
    let cr2 = get_task_list_call_result("tc-2", "list v2");
    history.push(cr2[0].clone());
    history.push(cr2[1].clone());

    let mutations = evaluate(history);
    // 3 mutations: 2 includes for tc-2 (latest, protected) + the orphan
    // ToolCall exclude (it has no result half to prune).
    assert_eq!(mutations.len(), 3);
    assert!(any_include(&mutations, &cr2[0].id));
    assert!(any_include(&mutations, &cr2[1].id));
    let orphan_excludes: Vec<_> = mutations
        .iter()
        .filter(|m| targets_exclude(m, &orphan_id))
        .collect();
    match orphan_excludes.first() {
        Some(HistoryMutation::SetContextOverride {
            entry_id, value, ..
        }) => {
            assert_eq!(entry_id, &orphan_id);
            assert_eq!(*value, ContextOverride::ForcedExclude);
        }
        other => panic!("expected orphan exclude mutation, got {other:?}"),
    }
}

#[test]
fn three_calls_prunes_first_two() {
    let mut history = Vec::new();
    let cr1 = get_task_list_call_result("tc-1", "v1");
    history.push(cr1[0].clone());
    history.push(cr1[1].clone());
    let cr2 = get_task_list_call_result("tc-2", "v2");
    history.push(cr2[0].clone());
    history.push(cr2[1].clone());
    let cr3 = get_task_list_call_result("tc-3", "v3");
    history.push(cr3[0].clone());
    history.push(cr3[1].clone());

    let mutations = evaluate(history);
    // tc-1 + tc-2 excluded (4) and tc-3 included (2) = 6 mutations.
    assert_eq!(mutations.len(), 6);

    // tc-1 and tc-2 pruned.
    assert!(any_exclude(&mutations, &cr1[0].id));
    assert!(any_exclude(&mutations, &cr1[1].id));
    assert!(any_exclude(&mutations, &cr2[0].id));
    assert!(any_exclude(&mutations, &cr2[1].id));
    // tc-3 (most recent) included, not pruned.
    assert!(any_include(&mutations, &cr3[0].id));
    assert!(any_include(&mutations, &cr3[1].id));
    assert!(!any_exclude(&mutations, &cr3[0].id));
    assert!(!any_exclude(&mutations, &cr3[1].id));
}

#[test]
fn other_tool_calls_not_affected() {
    let mut history = Vec::new();
    // A read tool call (should not be touched).
    history.push(ChatEntry::tool_call(
        "rc-1",
        "read",
        r#"{"path": "/foo.rs"}"#,
    ));
    history.push(ChatEntry::tool_result(
        "rc-1",
        "read",
        "contents",
        ToolResultStatus::Success,
    ));
    // A todo_get_task_list call.
    let cr = get_task_list_call_result("tc-1", "list");
    history.push(cr[0].clone());
    history.push(cr[1].clone());

    let mutations = evaluate(history);
    // The single todo pair is the latest → 2 includes. Non-todo tools
    // are untouched.
    assert_eq!(mutations.len(), 2);
    assert!(any_include(&mutations, &cr[0].id));
    assert!(any_include(&mutations, &cr[1].id));
}

#[test]
fn different_todo_tools_prunes_older() {
    let mut history = Vec::new();
    // add_task (older — should be pruned)
    let a1 = add_task_call_result("a-1", "created t1");
    history.push(a1[0].clone());
    history.push(a1[1].clone());
    // add_phase (newer — should be kept)
    let a2 = add_phase_call_result("a-2", "created phase");
    history.push(a2[0].clone());
    history.push(a2[1].clone());

    let mutations = evaluate(history);
    // a-1 excluded (2) + a-2 included (2) = 4 mutations.
    assert_eq!(mutations.len(), 4);

    assert!(any_exclude(&mutations, &a1[0].id));
    assert!(any_exclude(&mutations, &a1[1].id));
    assert!(any_include(&mutations, &a2[0].id));
    assert!(any_include(&mutations, &a2[1].id));
}

#[test]
fn mixed_todo_tools_keeps_only_last() {
    let mut history = Vec::new();
    // add_task (oldest)
    let a1 = add_task_call_result("a-1", "created t1");
    history.push(a1[0].clone());
    history.push(a1[1].clone());
    // add_phase (middle)
    let a2 = add_phase_call_result("a-2", "created phase");
    history.push(a2[0].clone());
    history.push(a2[1].clone());
    // get_task_list (newest — should be kept)
    let g1 = get_task_list_call_result("g-1", "list v1");
    history.push(g1[0].clone());
    history.push(g1[1].clone());

    let mutations = evaluate(history);
    // a-1 + a-2 excluded (4) and g-1 included (2) = 6 mutations.
    assert_eq!(mutations.len(), 6);

    // a-1 and a-2 pruned.
    assert!(any_exclude(&mutations, &a1[0].id));
    assert!(any_exclude(&mutations, &a1[1].id));
    assert!(any_exclude(&mutations, &a2[0].id));
    assert!(any_exclude(&mutations, &a2[1].id));
    // g-1 (most recent) included, not pruned.
    assert!(any_include(&mutations, &g1[0].id));
    assert!(any_include(&mutations, &g1[1].id));
    assert!(!any_exclude(&mutations, &g1[0].id));
    assert!(!any_exclude(&mutations, &g1[1].id));
}

/// Evaluate with explicit min_age (protect_latest on, the default).
fn evaluate_with_min_age(history: Vec<ChatEntry>, min_age: usize) -> Vec<HistoryMutation> {
    let w = TodoAutoPruneWorker {
        config: TodoAutoPruneConfig {
            enabled: true,
            min_age,
            protect_latest: true,
        },
    };
    w.evaluate(&SessionId::new(), &history)
}

/// Build a history with two get_task_list pairs (oldest at idx 0) plus
/// padding to history_len = 52. With 2 pairs the oldest call_idx is 0 →
/// age = 51.
fn history_with_two_todo_pairs_and_tail() -> Vec<ChatEntry> {
    let mut history = Vec::new();
    let cr1 = get_task_list_call_result("tc-1", "list v1");
    history.push(cr1[0].clone());
    history.push(cr1[1].clone());
    let cr2 = get_task_list_call_result("tc-2", "list v2");
    history.push(cr2[0].clone());
    history.push(cr2[1].clone());
    // Pad to history_len = 52 with trivial assistant entries.
    // history.len() is currently 4; need 48 more.
    history.extend(std::iter::repeat_n(ChatEntry::assistant("tail"), 48));
    history
}

#[test]
fn min_age_zero_prunes_older_todo_pair() {
    // Given a history with two get_task_list pairs padded to history_len = 52.
    // With min_age=0, the older pair should be pruned.
    let history = history_with_two_todo_pairs_and_tail();

    // When evaluating with min_age=0.
    let mutations = evaluate_with_min_age(history, 0);

    // Then 4 mutations are emitted: 2 excludes for the older pair
    // (min_age=0 baseline) + 2 includes for the latest pair.
    assert_eq!(
        mutations.len(),
        4,
        "min_age=0 must prune the older todo pair and include the latest"
    );
}

#[test]
fn min_age_protects_recent_todo_pair() {
    // Given a history with three get_task_list pairs padded to 52 entries:
    // call_idx 0 (age 51), call_idx 2 (age 49), call_idx 4 (age 47).
    // With protect_latest on, the superseded pair (idx 2) bypasses min_age
    // — only two pairs may ever share context — so the boundary applies
    // to the oldest pair alone.
    let mut history = Vec::new();
    let cr1 = get_task_list_call_result("tc-1", "list v1");
    history.push(cr1[0].clone());
    history.push(cr1[1].clone());
    let cr2 = get_task_list_call_result("tc-2", "list v2");
    history.push(cr2[0].clone());
    history.push(cr2[1].clone());
    let cr3 = get_task_list_call_result("tc-3", "list v3");
    history.push(cr3[0].clone());
    history.push(cr3[1].clone());
    history.extend(std::iter::repeat_n(ChatEntry::assistant("tail"), 46));

    // When evaluating with min_age=60 (every age < 60).
    let mutations = evaluate_with_min_age(history, 60);

    // Then tc-1 is protected by min_age, but the superseded pair tc-2
    // bypasses it (exactly two pairs may share context) and tc-3 gets
    // its includes: 2 excludes for tc-2 + 2 includes for tc-3 = 4.
    assert_eq!(mutations.len(), 4);
    assert!(any_exclude(&mutations, &cr2[0].id));
    assert!(any_exclude(&mutations, &cr2[1].id));
    assert!(any_include(&mutations, &cr3[0].id));
    assert!(any_include(&mutations, &cr3[1].id));
    assert!(!any_exclude(&mutations, &cr1[0].id));
    assert!(!any_exclude(&mutations, &cr1[1].id));
}

#[test]
fn min_age_boundary_strict_less_than_todo() {
    // Three pairs padded to 52 entries: oldest call_idx 0 (age 51),
    // superseded call_idx 2 (age 49), latest call_idx 4 (age 47).
    //
    // is_within_min_age returns true when age < min_age (strict
    // less-than). The superseded pair bypasses min_age (protect_latest);
    // the boundary is observable on the oldest pair:
    //   min_age = 52: age 51 < 52 → protected (no exclude for tc-1).
    //   min_age = 51: age 51 < 51 is false → NOT protected (tc-1 excluded).
    let mut history = Vec::new();
    let cr1 = get_task_list_call_result("tc-1", "list v1");
    history.push(cr1[0].clone());
    history.push(cr1[1].clone());
    let cr2 = get_task_list_call_result("tc-2", "list v2");
    history.push(cr2[0].clone());
    history.push(cr2[1].clone());
    let cr3 = get_task_list_call_result("tc-3", "list v3");
    history.push(cr3[0].clone());
    history.push(cr3[1].clone());
    history.extend(std::iter::repeat_n(ChatEntry::assistant("tail"), 46));

    // Protected: age = 51 < min_age = 52 → only the 2 latest includes
    // (the superseded pair's demote+exclude bypasses min_age).
    let mutations = evaluate_with_min_age(history.clone(), 52);
    assert_eq!(
        mutations.len(),
        4,
        "age = min_age - 1 must protect only the oldest pair"
    );
    assert!(mutations.iter().all(|m| !targets_exclude(m, &cr1[0].id)));
    assert!(mutations.iter().all(|m| !targets_exclude(m, &cr1[1].id)));

    // Not protected: age = 51 = min_age → oldest pair excluded too
    // (2 excludes for tc-1 + 2 excludes for tc-2 + 2 includes = 6).
    let mutations = evaluate_with_min_age(history, 51);
    assert_eq!(
        mutations.len(),
        6,
        "age = min_age must NOT be protected (strict less-than)"
    );
    assert!(any_exclude(&mutations, &cr1[0].id));
    assert!(any_exclude(&mutations, &cr1[1].id));
}

// protect_latest tests

#[test]
fn protect_latest_force_includes_most_recent_todo_pair() {
    // Given a history with two todo pairs (min_age = 0).
    let mut history = Vec::new();
    let cr1 = get_task_list_call_result("tc-1", "list v1");
    history.push(cr1[0].clone());
    history.push(cr1[1].clone());
    let cr2 = get_task_list_call_result("tc-2", "list v2");
    history.push(cr2[0].clone());
    history.push(cr2[1].clone());

    // When evaluating.
    let mutations = evaluate(history);

    // Then the most recent pair carries ForcedInclude mutations.
    assert!(any_include(&mutations, &cr2[0].id));
    assert!(any_include(&mutations, &cr2[1].id));
}

#[test]
fn superseded_pair_is_demoted_then_excluded() {
    // Given two todo pairs where the older one was previously included
    // by this worker (the state left by the prior evaluation).
    let mut history = Vec::new();
    let cr1 = get_task_list_call_result("tc-1", "list v1");
    let mut call = cr1[0].clone();
    call.apply_context_override(
        ContextOverride::ForcedInclude,
        ChangeSource::Worker {
            name: "auto-prune-todo".to_owned(),
        },
    );
    let mut result = cr1[1].clone();
    result.apply_context_override(
        ContextOverride::ForcedInclude,
        ChangeSource::Worker {
            name: "auto-prune-todo".to_owned(),
        },
    );
    history.push(call);
    history.push(result);
    let cr2 = get_task_list_call_result("tc-2", "list v2");
    history.push(cr2[0].clone());
    history.push(cr2[1].clone());

    // When evaluating.
    let mutations = evaluate(history);

    // Then the superseded pair is demoted (Default) and excluded.
    assert!(any_demote(&mutations, &cr1[0].id));
    assert!(any_demote(&mutations, &cr1[1].id));
    assert!(any_exclude(&mutations, &cr1[0].id));
    assert!(any_exclude(&mutations, &cr1[1].id));
    // And the demote precedes the exclude within the batch — the
    // apply-time sticky-include guard would refuse a bare exclude.
    let positions = |pred: &dyn Fn(&HistoryMutation) -> bool| {
        mutations
            .iter()
            .position(pred)
            .expect("mutation must exist")
    };
    let demote_pos = positions(&|m| targets_demote(m, &cr1[0].id));
    let exclude_pos = positions(&|m| targets_exclude(m, &cr1[0].id));
    assert!(demote_pos < exclude_pos, "demote must precede exclude");
}

#[test]
fn older_pairs_excluded_unchanged() {
    // Given three todo pairs.
    let mut history = Vec::new();
    let cr1 = get_task_list_call_result("tc-1", "v1");
    history.push(cr1[0].clone());
    history.push(cr1[1].clone());
    let cr2 = get_task_list_call_result("tc-2", "v2");
    history.push(cr2[0].clone());
    history.push(cr2[1].clone());
    let cr3 = get_task_list_call_result("tc-3", "v3");
    history.push(cr3[0].clone());
    history.push(cr3[1].clone());

    // When evaluating.
    let mutations = evaluate(history);

    // Then the oldest pair gets exactly the same exclude treatment the
    // age pass always applies: ForcedExclude, worker-sourced.
    let excludes: Vec<_> = mutations
        .iter()
        .filter(|m| targets_exclude(m, &cr1[0].id))
        .collect();
    assert_eq!(excludes.len(), 1);
    match &excludes[0] {
        HistoryMutation::SetContextOverride {
            value: ContextOverride::ForcedExclude,
            source: ChangeSource::Worker { name },
            ..
        } => assert_eq!(name, "auto-prune-todo"),
        other => panic!("expected worker exclude, got {other:?}"),
    }
}

#[test]
fn user_excluded_latest_pair_is_not_force_included() {
    // Given a latest pair whose halves the user excluded with `x`.
    let mut history = Vec::new();
    let cr = get_task_list_call_result("tc-1", "list");
    let mut call = cr[0].clone();
    call.apply_context_override(ContextOverride::ForcedExclude, ChangeSource::User);
    let mut result = cr[1].clone();
    result.apply_context_override(ContextOverride::ForcedExclude, ChangeSource::User);
    history.push(call);
    history.push(result);

    // When evaluating.
    let mutations = evaluate(history);

    // Then no include is emitted — user intent wins.
    assert!(mutations.is_empty());
}

#[test]
fn pinned_latest_pair_receives_no_include() {
    // Given a latest pair whose halves are pinned.
    let mut history = Vec::new();
    let cr = get_task_list_call_result("tc-1", "list");
    let mut call = cr[0].clone();
    call.pin_position = Some(PinPosition::Top);
    let mut result = cr[1].clone();
    result.pin_position = Some(PinPosition::Top);
    history.push(call);
    history.push(result);

    // When evaluating.
    let mutations = evaluate(history);

    // Then the pin already guarantees inclusion — no include emitted.
    assert!(mutations.is_empty());
}

#[test]
fn protect_latest_false_preserves_legacy_behavior() {
    // Given two todo pairs and the protect_latest flag off.
    let mut history = Vec::new();
    let cr1 = get_task_list_call_result("tc-1", "list v1");
    history.push(cr1[0].clone());
    history.push(cr1[1].clone());
    let cr2 = get_task_list_call_result("tc-2", "list v2");
    history.push(cr2[0].clone());
    history.push(cr2[1].clone());

    // When evaluating.
    let mutations = evaluate_with_protect_latest(history, false);

    // Then only the excludes exist: 2 mutations, no includes.
    assert_eq!(mutations.len(), 2);
    assert!(any_exclude(&mutations, &cr1[0].id));
    assert!(any_exclude(&mutations, &cr1[1].id));
    assert!(!any_include(&mutations, &cr2[0].id));
    assert!(!any_include(&mutations, &cr2[1].id));
}

#[test]
fn protect_latest_false_keeps_single_pair_untouched() {
    // Given a single todo pair and the flag off.
    let call_result = get_task_list_call_result("tc-1", "list");
    let history = vec![call_result[0].clone(), call_result[1].clone()];

    // When evaluating.
    let mutations = evaluate_with_protect_latest(history, false);

    // Then nothing happens.
    assert!(mutations.is_empty());
}

#[test]
fn a_latest_call_without_a_result_is_not_included() {
    // Given a complete pair and a newer call that has no result yet.
    let cr1 = get_task_list_call_result("tc-1", "list v1");
    let orphan = ChatEntry::tool_call("tc-2", "todo_get_task_list", "{}");
    let orphan_id = orphan.id;
    let history = vec![cr1[0].clone(), cr1[1].clone(), orphan];

    // When evaluating.
    let mutations = evaluate(history);

    // Then the orphan is left alone and the pair before it is excluded.
    assert_eq!(mutations.len(), 2);
    assert!(!any_include(&mutations, &orphan_id));
    assert!(!any_exclude(&mutations, &orphan_id));
    assert!(any_exclude(&mutations, &cr1[0].id));
    assert!(any_exclude(&mutations, &cr1[1].id));
}

#[test]
fn an_inclusion_of_another_worker_is_left_alone() {
    // Given a superseded pair that another worker has included.
    let mut cr1 = get_task_list_call_result("tc-1", "list v1");
    for half in cr1.iter_mut() {
        half.apply_context_override(
            ContextOverride::ForcedInclude,
            ChangeSource::Worker {
                name: "auto-prune-anchor-shield".to_owned(),
            },
        );
    }
    let cr2 = get_task_list_call_result("tc-2", "list v2");
    let history = vec![
        cr1[0].clone(),
        cr1[1].clone(),
        cr2[0].clone(),
        cr2[1].clone(),
    ];

    // When evaluating.
    let mutations = evaluate(history);

    // Then only the latest pair is touched.
    assert_eq!(mutations.len(), 2);
    assert!(any_include(&mutations, &cr2[0].id));
    assert!(any_include(&mutations, &cr2[1].id));
}
