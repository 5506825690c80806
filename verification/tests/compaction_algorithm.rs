use jinn_domain::chat_entry::{
    ChatEntry, ChatEntryId, ChatEntryKind, ContextOverride, ToolResultStatus,
};
use jinn_domain::compaction_worker::algorithm::{
    adjust_cut_to_boundary, compute_cut_index, find_start_boundary, gather_compactable_entries,
    is_valid_kept_opener,
};

#[test]
fn is_valid_kept_opener_accepts_only_user_and_system() {
    // Given every kind of entry.
    let user = ChatEntry::user("hello");
    let system = ChatEntry::system("ready");
    let empty_assistant = ChatEntry::assistant("");
    let text_assistant = ChatEntry::assistant("done");
    let tool_call = ChatEntry::tool_call("tc", "bash", "{}");
    let tool_result = ChatEntry::tool_result(
        "tc",
        "bash",
        "out",
        ToolResultStatus::Success,
    );
    let actor = ChatEntry::actor("src", "text");
    let thinking = ChatEntry::thinking("reasoning");
    let transient = ChatEntry::transient("welcome");
    let error = ChatEntry::error("boom");
    let compaction = ChatEntry {
        id: ChatEntryId::new(),
        kind: ChatEntryKind::Compaction {
            summary: "summary".to_owned(),
            tokens_before: 0,
            tokens_after: 0,
            entries_compacted: 0,
            model_used: "model".to_owned(),
        },
        pin_position: None,
        context_override: ContextOverride::Default,
        context_history: Vec::new(),
        token_count: None,
    };

    // Then only User and System are valid openers.
    assert!(
        is_valid_kept_opener(&user.kind),
        "User should be valid opener"
    );
    assert!(
        is_valid_kept_opener(&system.kind),
        "System should be valid opener"
    );

    // And every other kind is rejected, including a non-empty Assistant.
    assert!(
        !is_valid_kept_opener(&empty_assistant.kind),
        "empty Assistant must be invalid"
    );
    assert!(
        !is_valid_kept_opener(&text_assistant.kind),
        "non-empty Assistant must be invalid"
    );
    assert!(
        !is_valid_kept_opener(&tool_call.kind),
        "ToolCall must be invalid"
    );
    assert!(
        !is_valid_kept_opener(&tool_result.kind),
        "ToolResult must be invalid"
    );
    assert!(!is_valid_kept_opener(&actor.kind), "Actor must be invalid");
    assert!(
        !is_valid_kept_opener(&thinking.kind),
        "Thinking must be invalid"
    );
    assert!(
        !is_valid_kept_opener(&transient.kind),
        "Transient must be invalid"
    );
    assert!(!is_valid_kept_opener(&error.kind), "Error must be invalid");
    assert!(
        !is_valid_kept_opener(&compaction.kind),
        "Compaction must be invalid"
    );
}

#[test]
fn find_start_boundary_returns_zero_when_no_compaction() {
    let entries = vec![ChatEntry::user("hello"), ChatEntry::assistant("hi")];
    assert_eq!(find_start_boundary(&entries), 0);
}

#[test]
fn find_start_boundary_returns_after_last_compaction() {
    let entries = vec![
        ChatEntry::user("hello"),
        ChatEntry {
            id: ChatEntryId::new(),
            kind: ChatEntryKind::Compaction {
                summary: "summary1".to_owned(),
                tokens_before: 0,
                tokens_after: 0,
                entries_compacted: 0,
                model_used: "model".to_owned(),
            },
            pin_position: None,
            context_override: ContextOverride::Default,
            context_history: Vec::new(),
            token_count: None,
        },
        ChatEntry::user("world"),
    ];
    assert_eq!(find_start_boundary(&entries), 2);
}

#[test]
fn compute_cut_index_returns_len_for_compact_all() {
    let entries = vec![ChatEntry::user("hello"), ChatEntry::assistant("hi")];
    assert_eq!(compute_cut_index(&entries, 0, 100, true), 2);
}

#[test]
fn compute_cut_index_returns_start_when_all_fit() {
    let entries = vec![ChatEntry::user("hi")];
    // A short entry fits in 10000 tokens reserve.
    assert_eq!(compute_cut_index(&entries, 0, 10000, false), 0);
}

#[test]
fn gather_compactable_excludes_system() {
    let entries = vec![ChatEntry::system("ready"), ChatEntry::user("hello")];
    let (indices, _) = gather_compactable_entries(&entries, 0, 2);
    assert_eq!(indices.len(), 1);
    assert_eq!(indices[0], 1); // Only the user entry
}

#[test]
fn adjust_cut_walks_past_tool_call_group() {
    // Given history: [User, Assistant, ToolCall, ToolResult, Assistant, ToolCall]
    // Cut at index 2 lands on ToolCall - should walk forward past entire tool loop group.
    // The Assistant at index 4 starts an incomplete tool loop (ToolCall at 5 has no result),
    // so the adjustment walks past it to index 6 (history.len()).
    let entries = vec![
        ChatEntry::user("do something"),
        ChatEntry::assistant("let me check"),
        ChatEntry::tool_call("tc1", "bash", r#"{"command":"ls"}"#),
        ChatEntry::tool_result(
            "tc1",
            "bash",
            "file.txt",
            ToolResultStatus::Success,
        ),
        ChatEntry::assistant("here is the result"),
        ChatEntry::tool_call("tc2", "read", r#"{"path":"file.txt"}"#),
    ];

    // When adjusting cut at index 2 (lands on ToolCall).
    let adjusted = adjust_cut_to_boundary(&entries, 2);

    // Then it walks forward past both tool groups. The first group (tc1)
    // is complete, but the second group (tc2, no result) is incomplete.
    // The result is past the end of history (6 = len).
    assert_eq!(
        adjusted, 6,
        "should skip past both tool groups to end of history"
    );
}

#[test]
fn adjust_cut_advances_past_complete_tool_loop_to_valid_opener() {
    // Given history: [User, Assistant, ToolCall, ToolResult, Assistant("done")]
    // Cut at index 2 lands on ToolCall - the tool loop IS complete (result present).
    // Pass 1 walks to index 4 (Assistant). Pass 2 finds no tool calls, so the
    // Assistant at 4 is structurally clean - BUT Pass 3 rejects it as an opener
    // (Assistant needs a preceding user turn), advancing to index 5 (len).
    let entries = vec![
        ChatEntry::user("do something"),
        ChatEntry::assistant("let me check"),
        ChatEntry::tool_call("tc1", "bash", r#"{"command":"ls"}"#),
        ChatEntry::tool_result(
            "tc1",
            "bash",
            "file.txt",
            ToolResultStatus::Success,
        ),
        ChatEntry::assistant("done"),
    ];

    // When adjusting cut at index 2.
    let adjusted = adjust_cut_to_boundary(&entries, 2);

    // Then Pass 3 advances past the Assistant opener to end of history.
    assert_eq!(
        adjusted, 5,
        "complete tool loop whose opener is an Assistant must advance to a valid opener"
    );
}

#[test]
fn pass3_advances_past_empty_assistant_opener_complete_tool_loop() {
    // Given history ending: [empty Assistant, ToolCall, ToolResult, User("next")].
    // Cut lands on the empty Assistant (index 2). The tool loop is complete, but
    // an empty Assistant is not a valid opener - Pass 3 advances to the User.
    let entries = vec![
        ChatEntry::user("earlier"),
        ChatEntry::assistant("excluded"),
        ChatEntry::assistant(""),
        ChatEntry::tool_call("tc1", "bash", "{}"),
        ChatEntry::tool_result(
            "tc1",
            "bash",
            "out",
            ToolResultStatus::Success,
        ),
        ChatEntry::user("next"),
    ];

    // When adjusting cut at index 2 (the empty Assistant).
    let adjusted = adjust_cut_to_boundary(&entries, 2);

    // Then it advances past the empty-Assistant tool loop to the User at index 5.
    assert_eq!(adjusted, 5, "should advance to the User opener");
}

#[test]
fn pass3_advances_past_dangling_tool_result_whose_call_is_excluded() {
    // Given history: the cut lands on a ToolResult whose matching ToolCall is
    // on the excluded (pre-cut) side. Pass 1 walks past the ToolResult, then
    // Pass 3 mops up any further invalid opener. Here the entry after the
    // ToolResult is a User, so the cut lands on it.
    let entries = vec![
        ChatEntry::user("earlier"),
        ChatEntry::assistant("excluded"),
        ChatEntry::tool_call("tc1", "bash", "{}"), // excluded side
        ChatEntry::tool_result(
            "tc1",
            "bash",
            "out",
            ToolResultStatus::Success,
        ), // <- cut lands here (index 3)
        ChatEntry::user("next"),
    ];

    // When adjusting cut at index 3 (the dangling ToolResult).
    let adjusted = adjust_cut_to_boundary(&entries, 3);

    // Then it advances past the ToolResult to the User at index 4.
    assert_eq!(
        adjusted, 4,
        "should advance past dangling ToolResult to User"
    );
}

#[test]
fn pass3_advances_past_tool_call_whose_result_is_kept_group_split() {
    // Given history where the cut lands on a ToolCall whose ToolResult is in
    // the kept region (group split). Pass 1 walks past the whole ToolCall/
    // ToolResult run, landing on the User after it.
    let entries = vec![
        ChatEntry::user("earlier"),
        ChatEntry::assistant("excluded"),
        ChatEntry::tool_call("tc1", "bash", "{}"), // <- cut lands here (index 2)
        ChatEntry::tool_result(
            "tc1",
            "bash",
            "out",
            ToolResultStatus::Success,
        ),
        ChatEntry::user("next"),
    ];

    // When adjusting cut at index 2 (the split ToolCall).
    let adjusted = adjust_cut_to_boundary(&entries, 2);

    // Then it advances past the split tool group to the User at index 4.
    assert_eq!(adjusted, 4, "should advance past split tool group to User");
}

#[test]
fn pass3_leaves_cut_unchanged_when_opener_is_real_user() {
    // Given history where the cut already lands on a User entry - a valid opener.
    let entries = vec![
        ChatEntry::user("earlier"),
        ChatEntry::assistant("excluded"),
        ChatEntry::user("next"),
        ChatEntry::assistant("reply"),
    ];

    // When adjusting cut at index 2 (a User).
    let adjusted = adjust_cut_to_boundary(&entries, 2);

    // Then the cut is unchanged - no false advancement.
    assert_eq!(adjusted, 2, "valid User opener must not be advanced");
}

#[test]
fn pass3_advances_past_nonempty_standalone_assistant_opener() {
    // Given history where the cut lands on a non-empty standalone Assistant
    // (text only, no tool calls). Per the refined invariant this is an invalid
    // opener - the kept region must open with User/System.
    let entries = vec![
        ChatEntry::user("earlier"),
        ChatEntry::assistant("excluded"),
        ChatEntry::assistant("here is a standalone reply"), // <- cut (index 2)
        ChatEntry::user("next"),
    ];

    // When adjusting cut at index 2 (non-empty standalone Assistant).
    let adjusted = adjust_cut_to_boundary(&entries, 2);

    // Then it advances past the Assistant to the User at index 3.
    assert_eq!(
        adjusted, 3,
        "non-empty standalone Assistant is an invalid opener and must advance"
    );
}

#[test]
fn pass3_consumes_entire_remaining_history_when_no_valid_opener() {
    // Given history whose entire kept tail is invalid openers (Assistants and
    // tool entries) with no User/System after the cut.
    let entries = vec![
        ChatEntry::user("earlier"),
        ChatEntry::assistant("excluded"),
        ChatEntry::assistant("done"),
        ChatEntry::tool_call("tc1", "bash", "{}"),
        ChatEntry::tool_result(
            "tc1",
            "bash",
            "out",
            ToolResultStatus::Success,
        ),
    ];

    // When adjusting cut at index 2 (no valid opener anywhere after).
    let adjusted = adjust_cut_to_boundary(&entries, 2);

    // Then Pass 3 consumes the entire remaining history (5 = len).
    assert_eq!(
        adjusted,
        entries.len(),
        "should consume entire remaining history when no valid opener exists"
    );
}

#[test]
fn adjust_cut_walks_past_incomplete_tool_loop() {
    // Given history: [User, Assistant, ToolCall] (no ToolResult yet)
    // Cut at index 2 lands on ToolCall - incomplete loop should skip it.
    let entries = vec![
        ChatEntry::user("do something"),
        ChatEntry::assistant("let me check"),
        ChatEntry::tool_call("tc1", "bash", r#"{"command":"ls"}"#),
    ];

    // When adjusting cut at index 2.
    let adjusted = adjust_cut_to_boundary(&entries, 2);

    // Then it walks past the incomplete tool loop to the end of history.
    assert_eq!(adjusted, 3, "should skip past incomplete tool loop to end");
}

#[test]
fn compute_cut_index_walks_backwards_from_reserve() {
    // Given entries with enough text that they won't all fit in a tiny reserve.
    // Each entry ~70 chars = ~18 tokens via char-ratio (0.25 ratio).
    let entries = vec![
        ChatEntry::user("msg 0 is about twenty tokens long enough to be more than ten"),
        ChatEntry::assistant("resp 0 about twenty tokens long enough to be more than ten"),
        ChatEntry::user("msg 1 is about twenty tokens long enough to be more than ten"),
        ChatEntry::assistant("resp 1 about twenty tokens long enough to be more than ten"),
        ChatEntry::user("msg 2 is about twenty tokens long enough to be more than ten"),
        ChatEntry::assistant("resp 2 about twenty tokens long enough to be more than ten"),
    ];

    // When computing cut with a tiny reserve that can only hold ~2 entries.
    let cut = compute_cut_index(&entries, 0, 30, false);

    // Then the cut is past the start - older entries don't fit in reserve.
    assert!(
        cut > 0,
        "cut should be past start when entries exceed reserve"
    );
    assert!(
        cut < entries.len(),
        "cut should be before end when some entries fit"
    );
}

#[test]
fn a_later_cut_adjusts_to_no_earlier_boundary() {
    let history = vec![
        ChatEntry::user("one"),
        ChatEntry::assistant("two"),
        ChatEntry::tool_call("c1", "read", "{}"),
        ChatEntry::tool_result("c1", "read", "text", ToolResultStatus::Success),
        ChatEntry::user("three"),
        ChatEntry::assistant("four"),
    ];
    let cuts: Vec<usize> = (0..9)
        .map(|cut| adjust_cut_to_boundary(&history, cut))
        .collect();
    assert_eq!(cuts, vec![0, 4, 4, 4, 4, 6, 6, 7, 8]);
}
