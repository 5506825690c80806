use jinn_domain::auto_prune_worker::anchor_shield::{
    AnchorShieldAutoPruneWorker, AnchorShieldConfig,
};
use jinn_domain::chat_entry::{ChangeSource, ChatEntry, ChatEntryId, ContextOverride, PinPosition, SessionId, ToolResultStatus};
use jinn_domain::history::HistoryMutation;
use std::collections::HashSet;

/// Build a worker with the given radius (enabled = true).
fn worker(radius: usize) -> AnchorShieldAutoPruneWorker {
    AnchorShieldAutoPruneWorker {
        config: AnchorShieldConfig {
            enabled: true,
            radius,
        },
    }
}

/// Evaluate the worker on a history snapshot.
fn evaluate(w: &AnchorShieldAutoPruneWorker, history: Vec<ChatEntry>) -> Vec<HistoryMutation> {
    w.evaluate(&SessionId::new(), &history)
}

/// Collect the entry ids targeted by `SetContextOverride::ForcedInclude` mutations.
fn included_ids(mutations: &[HistoryMutation]) -> HashSet<ChatEntryId> {
    let mut out = HashSet::new();
    for m in mutations {
        if let HistoryMutation::SetContextOverride {
            entry_id,
            value: ContextOverride::ForcedInclude,
            ..
        } = m
        {
            out.insert(entry_id.clone());
        }
    }
    out
}

/// Build a ToolCall + ToolResult pair with matching tool-call id.
fn tool_pair(call_id: &str, name: &str) -> (ChatEntry, ChatEntry) {
    let call = ChatEntry::tool_call(call_id, name, "{}");
    let result = ChatEntry::tool_result(call_id, name, "done", ToolResultStatus::Success);
    (call, result)
}

#[test]
fn anchor_shield_empty_history_produces_no_mutations() {
    // Given an empty history.
    let w = worker(20);

    // When evaluating.
    let mutations = evaluate(&w, Vec::new());

    // Then no mutations are produced.
    assert!(mutations.is_empty());
}

#[test]
fn single_user_entry_is_anchor_and_shielded() {
    // Given a single user entry (anchor, since it's User kind).
    let w = worker(20);
    let entry = ChatEntry::user("hello");
    let entry_id = entry.id.clone();

    // When evaluating.
    let mutations = evaluate(&w, vec![entry]);

    // Then the entry is ForcedInclude'd.
    let included = included_ids(&mutations);
    assert!(included.contains(&entry_id));
}
#[test]
fn single_non_user_entry_without_anchors_is_not_shielded() {
    // Given a single assistant entry — no User anchors exist.
    let w = worker(20);
    let entry = ChatEntry::assistant("hello");
    let entry_id = entry.id.clone();

    // When evaluating.
    let mutations = evaluate(&w, vec![entry]);

    // Then no entries are shielded (no User anchors to measure from).
    let included = included_ids(&mutations);
    assert!(
        !included.contains(&entry_id),
        "non-User entry with no anchors must not be shielded"
    );
}

#[test]
fn assistant_within_radius_is_forced_included() {
    // Given a user entry at idx 0 (anchor) and an assistant at idx 1.
    let w = worker(5);
    let asst = ChatEntry::assistant("nearby");
    let asst_id = asst.id.clone();
    let history = vec![ChatEntry::user("anchor"), asst];

    // When evaluating.
    let mutations = evaluate(&w, history);

    // Then the assistant (distance 1 ≤ 5) is ForcedInclude'd.
    let included = included_ids(&mutations);
    assert!(included.contains(&asst_id));
}

#[test]
fn assistant_outside_radius_is_not_shielded() {
    // Given a user entry at idx 0 (anchor) and an assistant at idx 6
    // (distance 6 from the nearest anchor). Use Assistant entries for
    // padding so they are NOT anchors.
    let w = worker(5);
    let mut history = vec![ChatEntry::user("anchor")]; // idx 0
    for i in 0..5 {
        history.push(ChatEntry::assistant(&format!("pad {i}")));
    }
    let asst = ChatEntry::assistant("far away");
    let asst_id = asst.id.clone();
    history.push(asst); // idx 6
    // Padding after to ensure no other User anchors nearby.
    for i in 0..10 {
        history.push(ChatEntry::assistant(&format!("tail {i}")));
    }
    // Anchor: idx 0 (User) — the only anchor (no boundary anchors).
    // Assistant at idx 6: distance 6 from anchor 0. > radius 5.
    // When evaluating.
    let mutations = evaluate(&w, history);

    // Then the assistant (nearest distance = 6 > 5) is NOT shielded.
    let included = included_ids(&mutations);
    assert!(
        !included.contains(&asst_id),
        "entry beyond radius must not be shielded"
    );
}

#[test]
fn tool_call_within_radius_shields_result_pair() {
    // Given a ToolCall within radius of an anchor, with its ToolResult
    // far from all anchors. The result must still be shielded via
    // pair atomicity.
    let mut history = vec![ChatEntry::user("anchor")]; // idx 0
    let (call, result) = tool_pair("tc-1", "write");
    let call_id = call.id.clone();
    let result_id = result.id.clone();
    history.push(call); // idx 1, distance 1 from anchor

    // Padding to push result far from all anchors.
    for i in 0..20 {
        history.push(ChatEntry::assistant(&format!("padding {i}")));
    }
    history.push(result); // idx 22
    // More padding so last-entry anchor is far from result.
    for i in 0..20 {
        history.push(ChatEntry::assistant(&format!("tail {i}")));
    }
    // Anchors: idx 0 (User), idx 43 (last entry).
    // Result at idx 22: distance 22 from anchor 0, distance 21 from
    // anchor 43. Both > radius 5.

    let w = worker(5);
    let mutations = evaluate(&w, history);

    // Then: call (idx 1, distance 1) is shielded.
    // Pair atomicity: result (idx 22, distance 22) is also shielded.
    let included = included_ids(&mutations);
    assert!(
        included.contains(&call_id),
        "call within radius must be shielded"
    );
    assert!(
        included.contains(&result_id),
        "result must be shielded via pair atomicity even though it's outside radius"
    );
}

#[test]
fn tool_result_within_radius_shields_call_pair() {
    // Given a ToolResult near a User anchor (distance 0),
    // and its ToolCall far from all anchors. Pair atomicity must
    // shield the call even though it's outside radius.
    let mut history = Vec::new();
    history.push(ChatEntry::user("first")); // idx 0, anchor

    for i in 0..30 {
        history.push(ChatEntry::assistant(&format!("pad {i}")));
    }
    // ToolCall at idx 31, distance 31 from anchor 0.
    let (call, result) = tool_pair("tc-1", "read");
    let call_id = call.id.clone();
    let result_id = result.id.clone();
    history.push(call); // idx 31

    for i in 0..29 {
        history.push(ChatEntry::assistant(&format!("pad2 {i}")));
    }
    // User anchor at idx 61.
    history.push(ChatEntry::user("second")); // idx 61, anchor
    // ToolResult at idx 62, distance 1 from anchor 61.
    history.push(result); // idx 62

    // Anchors: idx 0 (User), idx 61 (User).
    // Result at idx 62: distance 1 from anchor 61. Within radius 10.
    // Call at idx 31: distance 31 from anchor 0, distance 30 from
    // anchor 61. Both > radius 10.

    let w = worker(10);
    let mutations = evaluate(&w, history);

    let included = included_ids(&mutations);
    assert!(
        included.contains(&result_id),
        "result is near User anchor and must be shielded"
    );
    assert!(
        included.contains(&call_id),
        "call must be shielded via pair atomicity because its result is shielded"
    );
}

#[test]
fn user_entry_within_radius_is_shielded() {
    // Given two user entries with a non-user entry between them.
    let w = worker(5);
    let user1 = ChatEntry::user("first");
    let user1_id = user1.id.clone();
    let asst = ChatEntry::assistant("between");
    let user2 = ChatEntry::user("second");
    let user2_id = user2.id.clone();

    let history = vec![user1, asst, user2];

    // When evaluating.
    let mutations = evaluate(&w, history);

    // Then both user entries are shielded (they are anchors, distance 0).
    let included = included_ids(&mutations);
    assert!(included.contains(&user1_id));
    assert!(included.contains(&user2_id));
}

#[test]
fn system_entry_is_not_shielded() {
    // Given a system entry next to an anchor.
    let w = worker(20);
    let mut history = vec![ChatEntry::user("anchor")];
    let sys = ChatEntry::system("system message");
    let sys_id = sys.id.clone();
    history.push(sys);

    // When evaluating.
    let mutations = evaluate(&w, history);

    // Then the system entry is NOT shielded.
    let included = included_ids(&mutations);
    assert!(
        !included.contains(&sys_id),
        "system entries must not be shielded"
    );
}

#[test]
fn already_forced_included_entry_is_skipped() {
    // Given an entry that is already ForcedInclude.
    let w = worker(20);
    let mut entry = ChatEntry::assistant("already included");
    entry.context_override = ContextOverride::ForcedInclude;
    let entry_id = entry.id.clone();

    let history = vec![ChatEntry::user("anchor"), entry];

    // When evaluating.
    let mutations = evaluate(&w, history);

    // Then no mutation is emitted for the already-included entry.
    let included = included_ids(&mutations);
    assert!(
        !included.contains(&entry_id),
        "already ForcedInclude entry must not receive duplicate mutation"
    );
}

#[test]
fn already_forced_excluded_entry_is_overridden() {
    // Given an entry that is ForcedExclude but within the shield radius.
    let w = worker(20);
    let mut entry = ChatEntry::assistant("was excluded");
    entry.apply_context_override(
        ContextOverride::ForcedExclude,
        ChangeSource::Worker {
            name: "other-worker".into(),
        },
    );
    let entry_id = entry.id.clone();

    let history = vec![ChatEntry::user("anchor"), entry];

    // When evaluating.
    let mutations = evaluate(&w, history);

    // Then the shield emits ForcedInclude to override the exclusion.
    let included = included_ids(&mutations);
    assert!(
        included.contains(&entry_id),
        "ForcedExclude entry within radius must be upgraded to ForcedInclude"
    );
}

#[test]
fn multiple_anchors_shield_independent_neighborhoods() {
    // Given two user anchors with a gap between them.
    let w = worker(3);
    let mut history = Vec::new();

    history.push(ChatEntry::user("anchor-1")); // idx 0
    let near1 = ChatEntry::assistant("near anchor-1");
    let near1_id = near1.id.clone();
    history.push(near1); // idx 1

    // Entries between anchors — some near anchor-1, some not.
    for i in 0..10 {
        history.push(ChatEntry::assistant(&format!("mid {i}")));
    }

    let near2 = ChatEntry::assistant("near anchor-2");
    let near2_id = near2.id.clone();
    history.push(near2); // idx 12
    history.push(ChatEntry::user("anchor-2")); // idx 13

    // When evaluating.
    let mutations = evaluate(&w, history);

    // Then entries near each anchor are shielded independently.
    let included = included_ids(&mutations);
    assert!(
        included.contains(&near1_id),
        "entry near anchor-1 must be shielded"
    );
    assert!(
        included.contains(&near2_id),
        "entry near anchor-2 must be shielded"
    );
}

#[test]
fn boundary_at_exact_radius_is_included() {
    // Given an entry at exactly distance = radius from the nearest anchor.
    let w = worker(5);
    let mut history = vec![ChatEntry::user("anchor")]; // idx 0
    for i in 0..4 {
        history.push(ChatEntry::assistant(&format!("pad {i}")));
    }
    let boundary = ChatEntry::assistant("at radius");
    let boundary_id = boundary.id.clone();
    history.push(boundary); // idx 5, distance 5 = radius

    // When evaluating.
    let mutations = evaluate(&w, history);

    // Then the entry at distance = radius is shielded (≤).
    let included = included_ids(&mutations);
    assert!(
        included.contains(&boundary_id),
        "entry at exactly radius must be shielded (≤ not <)"
    );
}

#[test]
fn boundary_at_radius_plus_one_is_not_shielded() {
    // Given an entry at distance = radius + 1 from the nearest anchor.
    // History: User(0), pad(1..5), beyond(6), pad(7..12).
    // Anchors: idx 0 (User) and idx 12 (last entry).
    // Beyond at idx 6: distance from anchor 0 = 6, from anchor 12 = 6.
    // Both > radius 5. Not shielded.
    let w = worker(5);
    let mut history = vec![ChatEntry::user("anchor")]; // idx 0
    for i in 0..5 {
        history.push(ChatEntry::assistant(&format!("pad {i}")));
    }
    let beyond = ChatEntry::assistant("beyond radius");
    let beyond_id = beyond.id.clone();
    history.push(beyond); // idx 6
    // Padding so last-entry anchor is far from the beyond entry.
    for i in 0..6 {
        history.push(ChatEntry::assistant(&format!("tail {i}")));
    }
    // Last entry idx 12 is anchor. Beyond at idx 6: d=6 from both anchors.

    // When evaluating.
    let mutations = evaluate(&w, history);

    // Then the entry beyond radius is NOT shielded.
    let included = included_ids(&mutations);
    assert!(
        !included.contains(&beyond_id),
        "entry at radius + 1 must not be shielded"
    );
}

#[test]
fn idempotency_second_evaluate_no_new_mutations() {
    // Given a history with entries near anchors.
    let w = worker(20);
    let asst = ChatEntry::assistant("near anchor");
    let asst_id = asst.id.clone();
    let history = vec![ChatEntry::user("anchor"), asst];

    // When evaluating the first time.
    let mutations1 = evaluate(&w, history.clone());
    let included1 = included_ids(&mutations1);
    assert!(included1.contains(&asst_id));

    // Apply the mutations to the history.
    let mut history2 = history;
    for m in &mutations1 {
        if let HistoryMutation::SetContextOverride {
            entry_id,
            value,
            source,
        } = m
        {
            for e in &mut history2 {
                if e.id == *entry_id {
                    e.apply_context_override(*value, source.clone());
                }
            }
        }
    }

    // When evaluating again on the mutated history.
    let mutations2 = evaluate(&w, history2);

    // Then no new mutations are produced (entries already ForcedInclude).
    assert!(
        mutations2.is_empty(),
        "second evaluate must produce no new mutations"
    );
}

#[test]
fn pinned_entry_is_not_duplicated() {
    // Given a pinned entry near an anchor.
    let w = worker(20);
    let mut entry = ChatEntry::assistant("pinned");
    entry.pin_position = Some(PinPosition::Top);
    let entry_id = entry.id.clone();

    let history = vec![ChatEntry::user("anchor"), entry];

    // When evaluating.
    let mutations = evaluate(&w, history);

    // Pinned entries have context_override Default (not ForcedInclude),
    // so the shield WILL emit ForcedInclude. This is correct — the
    // shield protects entries near anchors. Pin and ForcedInclude
    // compose: pin means "always in context", ForcedInclude means
    // "worker says keep in context". Both true.
    //
    // Actually, let's check: does the pinned entry get a mutation?
    // The shield only skips entries with context_override == ForcedInclude.
    // Pinned entries have Default. So yes, the shield emits a mutation.
    // This is fine — it's a no-op in practice (pin already keeps it).
    let included = included_ids(&mutations);
    // The mutation is emitted but it's harmless.
    assert!(included.contains(&entry_id));
}

#[test]
fn without_a_user_message_nothing_is_shielded() {
    let (call, result) = tool_pair("t1", "read");
    let history = vec![ChatEntry::assistant("a"), call, result];
    assert!(worker(usize::MAX - 1).evaluate(&SessionId::new(), &history).is_empty());
    let unlimited = worker(usize::MAX).evaluate(&SessionId::new(), &history);
    assert_eq!(unlimited.len(), 3);
}
