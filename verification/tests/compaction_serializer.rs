use jinn_domain::chat_entry::{ChatEntry, ToolResultStatus};
use jinn_domain::compaction_worker::serializer::serialize_entries_for_compaction;

#[test]
fn serializes_user_entry() {
    let entries = vec![ChatEntry::user("Hello world")];
    let result = serialize_entries_for_compaction(&entries);
    assert_eq!(result, "[User]: Hello world");
}

#[test]
fn serializes_assistant_entry() {
    let entries = vec![ChatEntry::assistant("Hi there")];
    let result = serialize_entries_for_compaction(&entries);
    assert_eq!(result, "[Assistant]: Hi there");
}

#[test]
fn skips_tool_call_entry() {
    // Given a tool call.
    let entries = vec![ChatEntry::tool_call("id1", "bash", r#"{"command":"ls"}"#)];
    let result = serialize_entries_for_compaction(&entries);
    // Then it produces no output (tool calls are skipped).
    assert!(result.is_empty());
}

#[test]
fn truncates_long_tool_result() {
    let long_content = "x".repeat(5000);
    let entries = vec![ChatEntry::tool_result(
        "id1",
        "bash",
        &long_content,
        ToolResultStatus::Success,
    )];
    let result = serialize_entries_for_compaction(&entries);
    assert!(result.is_empty());
}

#[test]
fn skips_system_entry() {
    let entries = vec![ChatEntry::system("ready")];
    let result = serialize_entries_for_compaction(&entries);
    assert!(result.is_empty());
}

#[test]
fn skips_thinking_entry() {
    let entries = vec![ChatEntry::thinking("reasoning")];
    let result = serialize_entries_for_compaction(&entries);
    assert!(result.is_empty());
}

#[test]
fn serializes_mixed_entries() {
    let entries = vec![
        ChatEntry::user("fix the bug"),
        ChatEntry::assistant("let me check"),
        ChatEntry::tool_call("id1", "bash", r#"{"command":"ls"}"#),
        ChatEntry::tool_result(
            "id1",
            "bash",
            "file.rs",
            ToolResultStatus::Success,
        ),
        ChatEntry::assistant("done"),
    ];
    let result = serialize_entries_for_compaction(&entries);
    let lines: Vec<&str> = result.split('\n').collect();
    assert_eq!(lines.len(), 3);
    assert!(lines[0].starts_with("[User]"));
    assert!(lines[1].starts_with("[Assistant]"));
    assert!(lines[2].starts_with("[Assistant]"));
}

#[test]
fn truncates_tool_result_with_multibyte_at_boundary() {
    // Given content where byte 2000 falls in the middle of an em-dash (3 bytes).
    // 1999 ASCII 'x' chars + "-" (em-dash, 3 bytes) + more text.
    let mut content = "x".repeat(1999);
    content.push('-');
    content.push_str("more text");

    let entries = vec![ChatEntry::tool_result(
        "id1",
        "bash",
        &content,
        ToolResultStatus::Success,
    )];

    // When serializing for compaction.
    let result = serialize_entries_for_compaction(&entries);

    // Then it produces no output (tool results are skipped).
    assert!(result.is_empty());
}

#[test]
fn truncates_tool_result_with_emoji() {
    // Given content with emoji exceeding 2000 bytes.
    let content = "🎉".repeat(1000); // Each 🎉 is 4 bytes, so 4000 bytes total.

    let entries = vec![ChatEntry::tool_result(
        "id1",
        "bash",
        &content,
        ToolResultStatus::Success,
    )];

    // When serializing for compaction.
    let result = serialize_entries_for_compaction(&entries);

    // Then it produces no output (tool results are skipped).
    assert!(result.is_empty());
}

#[test]
fn skips_tool_result_with_content() {
    // Given a tool result with sensitive output.
    let entries = vec![ChatEntry::tool_result(
        "id1",
        "bash",
        "sensitive output that should never reach the LLM",
        ToolResultStatus::Success,
    )];

    // When serializing.
    let result = serialize_entries_for_compaction(&entries);

    // Then no output is produced.
    assert!(result.is_empty());
}

#[test]
fn two_lists_are_joined_by_a_newline_unless_one_is_silent() {
    let first = || vec![ChatEntry::user("one"), ChatEntry::assistant("two")];
    let second = || vec![ChatEntry::actor("bot", "three")];
    let silent = || vec![ChatEntry::system("note")];
    let joined = |mut a: Vec<ChatEntry>, b: Vec<ChatEntry>| {
        a.extend(b);
        serialize_entries_for_compaction(&a)
    };
    assert_eq!(
        joined(first(), second()),
        "[User]: one\n[Assistant]: two\n[Actor: bot]: three"
    );
    assert_eq!(joined(silent(), second()), "[Actor: bot]: three");
    assert_eq!(joined(second(), silent()), "[Actor: bot]: three");
    assert_eq!(joined(silent(), silent()), "");
}
