use jinn_domain::chat_entry::{
    Attachment, ChangeSource, ChatEntry, ChatEntryKind, ContextOverride, PinPosition,
    ToolResultStatus,
};
use jinn_domain::context::token_estimator::{
    estimate_entry_content_tokens, estimate_entry_tokens, estimate_tool_schema_tokens,
    CharRatioEstimator, TiktokenCounter, TokenCounter, TokenEstimator,
};

/// A simple estimator that returns the byte length of text.
struct ByteLenEstimator;

impl TokenEstimator for ByteLenEstimator {
    fn estimate(&self, text: &str) -> usize {
        text.len()
    }
    fn name(&self) -> &'static str {
        "byte_len"
    }
}

#[test]
fn estimate_entry_tokens_sums_name_and_content_for_tool_call() {
    // Given a ToolCall entry.
    let estimator = ByteLenEstimator;
    let entry = ChatEntry::tool_call("id-1", "read_file", "{\"path\": \"/tmp\"}");

    // When estimating tokens.
    let tokens = estimate_entry_tokens(&estimator, &entry);

    // Then the estimate is the SUM of name + arguments lengths.
    let name_len = estimator.estimate("read_file");
    let args_len = estimator.estimate("{\"path\": \"/tmp\"}");
    assert_eq!(
        tokens,
        name_len + args_len,
        "ToolCall tokens should be sum of name + arguments, not product"
    );
    assert!(tokens > 0, "should have non-zero token estimate");
}

#[test]
fn estimate_entry_tokens_sums_name_and_content_for_tool_result() {
    // Given a ToolResult entry.
    let estimator = ByteLenEstimator;
    let entry = ChatEntry::tool_result(
        "id-1",
        "read_file",
        "file contents here",
        ToolResultStatus::Success,
    );

    // When estimating tokens.
    let tokens = estimate_entry_tokens(&estimator, &entry);

    // Then the estimate is the SUM of name + content lengths.
    let name_len = estimator.estimate("read_file");
    let content_len = estimator.estimate("file contents here");
    assert_eq!(
        tokens,
        name_len + content_len,
        "ToolResult tokens should be sum of name + content, not product"
    );
    assert!(tokens > 0, "should have non-zero token estimate");
}

#[test]
fn estimate_entry_tokens_adds_image_cost_per_attachment() {
    // Given a user entry with two image attachments.
    let estimator = ByteLenEstimator;
    let mut entry = ChatEntry::user("describe");
    if let ChatEntryKind::User { attachments, .. } = &mut entry.kind {
        attachments.push(Attachment::image("image/png", vec![1]));
        attachments.push(Attachment::image("image/png", vec![2]));
    }

    // When estimating tokens.
    let tokens = estimate_entry_tokens(&estimator, &entry);

    // Then the estimate is text cost + 2 × flat image cost.
    assert_eq!(tokens, estimator.estimate("describe") + 765 + 765);
}

#[test]
fn content_estimator_counts_excluded_entry_but_budget_estimator_returns_zero() {
    // Given a user entry force-excluded from context.
    let estimator = ByteLenEstimator;
    let mut entry = ChatEntry::user("some excluded text");
    entry.apply_context_override(
        ContextOverride::ForcedExclude,
        ChangeSource::User,
    );

    // When estimating the entry's content tokens.
    let content = estimate_entry_content_tokens(&estimator, &entry);

    // Then the content count reflects the text despite exclusion.
    assert!(
        content > 0,
        "content count must ignore context membership, got {content}"
    );

    // And the budget-facing estimator still returns 0 for the same entry.
    assert_eq!(estimate_entry_tokens(&estimator, &entry), 0);
}

#[test]
fn patched_tiktoken_serves_o200k_base() {
    // Given the tiktoken build (o200k family only).

    // When requesting the o200k_base encoding by name.
    let enc = tiktoken::get_encoding("o200k_base");

    // Then the encoder is available (jinn's only encoding).
    assert!(enc.is_some(), "o200k_base must be available");
}

#[test]
fn patched_tiktoken_removed_encoding_is_unavailable() {
    // Given the tiktoken build (o200k family only).

    // When requesting an encoding whose vocabulary is not embedded.
    let enc = tiktoken::get_encoding("cl100k_base");

    // Then no encoder is returned (removed from the binary).
    assert!(enc.is_none(), "cl100k_base should be compiled out");
}

#[test]
fn tiktoken_counter_counts_real_bpe_tokens() {
    // Given a TiktokenCounter over the o200k_base encoding.

    // When counting a string with multiple BPE tokens.
    let counter = TiktokenCounter::o200k_base();
    let tokens = counter.count("hello world");

    // Then the count reflects real BPE segmentation (2 tokens), not a heuristic.
    assert_eq!(
        tokens, 2,
        "o200k_base should split 'hello world' into 2 tokens"
    );
}

/// The JSON text of a tool definition.
fn schema(name: &str, description: &str) -> String {
    let mut parameters = serde_json::Map::new();
    parameters.insert("type".to_owned(), "object".into());
    let mut tool = serde_json::Map::new();
    tool.insert("name".to_owned(), name.into());
    tool.insert("description".to_owned(), description.into());
    tool.insert("parameters".to_owned(), serde_json::Value::Object(parameters));
    serde_json::to_string(&tool).expect("serialize")
}

#[test]
fn char_ratio_returns_nonzero_for_empty_string() {
    // Given a char ratio estimator.
    let estimator = CharRatioEstimator;

    // When estimating an empty string.
    let tokens = estimator.estimate("");

    // Then at least 1 token is returned.
    assert!(tokens >= 1);
}

#[test]
fn char_ratio_estimates_reasonably() {
    // Given a char ratio estimator and a 100-character string.
    let estimator = CharRatioEstimator;
    let text = "a".repeat(100);

    // When estimating tokens.
    let tokens = estimator.estimate(&text);

    // Then approximately 25 tokens are returned (100/4 + 1 = 26).
    assert_eq!(tokens, 26);
}

#[test]
fn char_ratio_name() {
    // Given a char ratio estimator.
    let estimator = CharRatioEstimator;

    // Then its name is "char_ratio".
    assert_eq!(estimator.name(), "char_ratio");
}

#[test]
fn char_ratio_handles_unicode_correctly() {
    // Given a char ratio estimator and a string with multi-byte characters.
    let estimator = CharRatioEstimator;
    // "日本語" is 3 Unicode characters but 9 bytes in UTF-8.
    let text = "日本語";

    // When estimating tokens.
    let tokens = estimator.estimate(text);

    // Then it uses character count (3), not byte count (3 * 3/4 = 2, rounded = 1).
    assert_eq!(tokens, 1);
}

#[test]
fn estimate_entry_tokens_for_user() {
    // Given a char ratio estimator and a user entry.
    let estimator = CharRatioEstimator;
    let entry = ChatEntry::user("hello world");

    // When estimating entry tokens.
    let tokens = estimate_entry_tokens(&estimator, &entry);

    // Then it matches estimating the user text directly.
    assert_eq!(tokens, estimator.estimate("hello world"));
}

#[test]
fn estimate_entry_tokens_for_user_with_image_includes_flat_cost() {
    // Given a char ratio estimator and a user entry carrying one image attachment.
    let estimator = CharRatioEstimator;
    let mut entry = ChatEntry::user("hello world");
    if let ChatEntryKind::User { attachments, .. } = &mut entry.kind {
        attachments.push(Attachment::image("image/png", vec![1, 2, 3]));
    }

    // When estimating entry tokens.
    let tokens = estimate_entry_tokens(&estimator, &entry);

    // Then the estimate exceeds the text-only estimate by the flat image cost.
    let text_only = estimator.estimate("hello world");
    assert!(
        tokens > text_only,
        "image attachment should add token cost: got {tokens}, text-only {text_only}"
    );
}

#[test]
fn estimate_entry_tokens_for_tool_call() {
    // Given a char ratio estimator and a tool call entry.
    let estimator = CharRatioEstimator;
    let entry = ChatEntry::tool_call("call_1", "echo", r#"{"input":"hi"}"#);

    // When estimating entry tokens.
    let tokens = estimate_entry_tokens(&estimator, &entry);

    // Then it estimates name + arguments combined.
    assert_eq!(
        tokens,
        estimator.estimate("echo") + estimator.estimate(r#"{"input":"hi"}"#)
    );
}

#[test]
fn estimate_entry_tokens_for_system_is_zero() {
    // Given a char ratio estimator and an unpinned system entry.
    let estimator = CharRatioEstimator;
    let entry = ChatEntry::system("some status message");

    // When estimating entry tokens.
    let tokens = estimate_entry_tokens(&estimator, &entry);

    // Then unpinned system entries contribute 0 tokens.
    assert_eq!(tokens, 0);
}

#[test]
fn estimate_entry_tokens_for_pinned_system_is_nonzero() {
    // Given a char ratio estimator and a pinned system entry.
    let estimator = CharRatioEstimator;
    let entry = ChatEntry::system("important instruction").with_pin(PinPosition::Top);

    // When estimating entry tokens.
    let tokens = estimate_entry_tokens(&estimator, &entry);

    // Then pinned system entries contribute tokens equal to their text.
    assert_eq!(tokens, estimator.estimate("important instruction"));
    assert!(tokens > 0);
}

#[test]
fn estimate_entry_tokens_for_unpinned_actor_is_zero() {
    // Given a char ratio estimator and an unpinned actor entry.
    let estimator = CharRatioEstimator;
    let entry = ChatEntry::actor("echo", "HELLO");

    // When estimating entry tokens.
    let tokens = estimate_entry_tokens(&estimator, &entry);

    // Then unpinned actor entries contribute 0 tokens.
    assert_eq!(tokens, 0);
}

#[test]
fn estimate_entry_tokens_for_pinned_actor_is_nonzero() {
    // Given a char ratio estimator and a pinned actor entry.
    let estimator = CharRatioEstimator;
    let entry = ChatEntry::actor("echo", "HELLO").with_pin(PinPosition::Relative);

    // When estimating entry tokens.
    let tokens = estimate_entry_tokens(&estimator, &entry);

    // Then pinned actor entries contribute tokens matching the formatted output.
    assert_eq!(tokens, estimator.estimate("[Actor: echo] HELLO"));
    assert!(tokens > 0);
}

#[test]
fn tiktoken_counter_counts_hello_world() {
    // Given a tiktoken counter with o200k_base.
    let counter = TiktokenCounter::o200k_base();

    // When counting "hello world".
    let count = counter.count("hello world");

    // Then it returns 2 tokens.
    assert_eq!(count, 2);
}

#[test]
fn tiktoken_counter_returns_nonzero_for_empty_string() {
    // Given a tiktoken counter.
    let counter = TiktokenCounter::o200k_base();

    // When counting an empty string.
    let count = counter.count("");

    // Then it returns 0.
    assert_eq!(count, 0);
}

#[test]
fn tiktoken_counter_name_is_o200k_base() {
    // Given a tiktoken counter.
    let counter = TiktokenCounter::o200k_base();

    // Then its name is "o200k_base".
    assert_eq!(counter.name(), "o200k_base");
}

#[test]
fn tiktoken_counter_counts_multibyte_characters() {
    // Given a tiktoken counter.
    let counter = TiktokenCounter::o200k_base();

    // When counting Japanese text.
    let count = counter.count("日本語テスト");

    // Then it returns a nonzero count.
    assert!(count > 0);
}

#[test]
fn estimate_entry_tokens_for_thinking_is_zero() {
    // Given a char ratio estimator and a thinking entry.
    let estimator = CharRatioEstimator;
    let entry = ChatEntry::thinking("a long reasoning text that would normally cost tokens");

    // When estimating entry tokens.
    let tokens = estimate_entry_tokens(&estimator, &entry);

    // Then thinking entries contribute 0 tokens.
    assert_eq!(tokens, 0);
}

#[test]
fn estimate_entry_tokens_for_transient_is_zero() {
    // Given a char ratio estimator and a transient entry.
    let estimator = CharRatioEstimator;
    let entry = ChatEntry::transient("Welcome to jinn! Press i to start typing.");

    // When estimating entry tokens.
    let tokens = estimate_entry_tokens(&estimator, &entry);

    // Then transient entries contribute 0 tokens.
    assert_eq!(tokens, 0);
}

#[test]
fn estimate_entry_tokens_for_ignored_entry_is_zero() {
    // Given an ignored user entry.
    let estimator = CharRatioEstimator;
    let entry =
        ChatEntry::user("a fairly long message that would normally have tokens").with_ignored(true);

    // When estimating entry tokens.
    let tokens = estimate_entry_tokens(&estimator, &entry);

    // Then ignored entries contribute 0 tokens.
    assert_eq!(tokens, 0);
}

#[test]
fn estimate_entry_tokens_for_ignored_pinned_entry_is_nonzero() {
    // Given an ignored but pinned user entry.
    let estimator = CharRatioEstimator;
    let entry = ChatEntry::user("a fairly long message that would normally have tokens")
        .with_pin(PinPosition::Relative)
        .with_ignored(true);

    // When estimating entry tokens.
    let tokens = estimate_entry_tokens(&estimator, &entry);

    // Then pin overrides ignored - tokens are still counted.
    assert!(tokens > 0);
}

#[test]
fn estimate_tool_schema_tokens_returns_zero_for_empty_tools() {
    // Given a char ratio estimator and no tools.
    let estimator = CharRatioEstimator;
    let tools: Vec<String> = vec![];

    // When estimating tool schema tokens.
    let tokens = estimate_tool_schema_tokens(&estimator, &tools);

    // Then the result is 0.
    assert_eq!(tokens, 0);
}

#[test]
fn estimate_tool_schema_tokens_returns_nonzero_for_tools() {
    // Given a char ratio estimator and one tool definition.
    let estimator = CharRatioEstimator;
    let tools = vec![schema("bash", "Execute bash commands")];

    // When estimating tool schema tokens.
    let tokens = estimate_tool_schema_tokens(&estimator, &tools);

    // Then the result is nonzero (the serialized JSON has content).
    assert!(tokens > 0);
}

#[test]
fn estimate_tool_schema_tokens_sums_all_tools() {
    // Given a char ratio estimator and two tool definitions.
    let estimator = CharRatioEstimator;
    let tools = vec![
        schema("bash", "Execute bash commands"),
        schema("read", "Read file contents"),
    ];

    // When estimating tool schema tokens.
    let total = estimate_tool_schema_tokens(&estimator, &tools);

    // Then the result equals the sum of individual tool estimates.
    let first = estimate_tool_schema_tokens(&estimator, &tools[0..1]);
    let second = estimate_tool_schema_tokens(&estimator, &tools[1..2]);
    assert_eq!(total, first + second);
}

#[test]
fn estimate_entry_tokens_for_default_error_is_zero() {
    // Given a Default-override Error entry - Default Errors are excluded
    // from context by `is_in_context`, so the estimator returns 0.
    // This guards against any drift where the estimator's Default branch
    // computes a nonzero count for entries the renderer would skip.
    let estimator = CharRatioEstimator;
    let entry = ChatEntry::error("some failure");

    // When estimating entry tokens.
    let tokens = estimate_entry_tokens(&estimator, &entry);

    // Then it returns 0 because the entry is out of context.
    assert_eq!(tokens, 0);
}

#[test]
fn estimate_entry_tokens_for_forced_include_error_uses_actionable_framing() {
    // Given a ForcedInclude Error entry. The estimator must compute the
    // count for the actionable framing (not the `[Error]` prefix)
    // so budget estimates stay aligned with what the renderer emits.
    let estimator = CharRatioEstimator;
    let text = "merge conflict report";
    let entry = ChatEntry::error(text).with_context_override(ContextOverride::ForcedInclude);

    // When estimating entry tokens.
    let tokens = estimate_entry_tokens(&estimator, &entry);

    // Then the estimate equals the count of the rendered string,
    // not the count of `[Error] {text}`.
    let rendered =
        format!("The user has shared the following output for you to address:\n\n{text}");
    assert_eq!(tokens, estimator.estimate(&rendered));
    assert_ne!(tokens, estimator.estimate(&format!("[Error] {text}")));
}

#[test]
fn the_schemas_of_two_lists_cost_what_each_list_costs() {
    let first = vec![schema("read", "Reads a file."), schema("write", "Writes it.")];
    let second = vec![schema("bash", "Runs a command.")];
    let mut both = first.clone();
    both.extend(second.iter().cloned());
    assert_eq!(
        estimate_tool_schema_tokens(&CharRatioEstimator, &both),
        estimate_tool_schema_tokens(&CharRatioEstimator, &first)
            + estimate_tool_schema_tokens(&CharRatioEstimator, &second)
    );
}
