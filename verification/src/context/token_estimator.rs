//! Token estimation for prompt assembly budgeting.
//!
//! [`TokenEstimator`] is a rough heuristic for planning, [`TokenCounter`] a
//! tokenizer for counts that are recorded.

use crate::chat_entry::{Attachment, ChatEntry, ChatEntryKind, ContextOverride};
use crate::text;
use vstd::prelude::*;

verus! {

/// Estimates the token count of text.
pub trait TokenEstimator: Send + Sync {
    /// The estimate for a text: one token for each character, unless the
    /// estimator says otherwise.
    open spec fn estimate_of(&self, text: Seq<char>) -> nat {
        text.len()
    }

    /// A bound on the estimate for a text.
    open spec fn estimate_bound(&self, text: Seq<char>) -> nat {
        self.estimate_of(text)
    }

    /// Estimates the number of tokens in `text`.
    fn estimate(&self, text: &str) -> (tokens: usize)
        ensures
            tokens == self.estimate_of(text@),
            tokens <= self.estimate_bound(text@),
    ;

    /// The name of this estimator, for debugging.
    fn name(&self) -> (name: &'static str);
}

/// Counts tokens in text with a specific tokenizer.
pub trait TokenCounter: Send + Sync {
    /// The count for a text.
    spec fn count_of(&self, text: Seq<char>) -> nat;

    /// Counts the number of tokens in `text`.
    fn count(&self, text: &str) -> (tokens: usize)
        ensures
            tokens == self.count_of(text@),
    ;

    /// The name of this counter, for debugging.
    fn name(&self) -> (name: &'static str);
}

/// The flat token cost of one image attachment.
pub const IMAGE_ATTACHMENT_TOKENS: usize = 765;

/// The number of images among the attachments.
pub open spec fn image_count(attachments: Seq<Attachment>) -> nat
    decreases attachments.len(),
{
    if attachments.len() == 0 {
        0
    } else {
        image_count(attachments.drop_last()) + if attachments.last().image {
            1nat
        } else {
            0nat
        }
    }
}

/// How an actor message is put to the model.
pub open spec fn actor_framing(source: Seq<char>, text: Seq<char>) -> Seq<char> {
    "[Actor: "@ + source + "] "@ + text
}

/// How an error notice is put to the model: as a task when the user shared
/// it, as a plain notice otherwise.
pub open spec fn error_framing(value: ContextOverride, text: Seq<char>) -> Seq<char> {
    if value == ContextOverride::ForcedInclude {
        "The user has shared the following output for you to address:\n\n"@ + text
    } else {
        "[Error] "@ + text
    }
}

/// The cost of an entry's content when each text sent to the model costs
/// what `cost` says.
pub open spec fn content_cost(entry: ChatEntry, cost: spec_fn(Seq<char>) -> nat) -> nat {
    match entry.kind {
        ChatEntryKind::User { expanded, attachments, .. } => cost(expanded@)
            + IMAGE_ATTACHMENT_TOKENS as nat * image_count(attachments@),
        ChatEntryKind::Assistant(text) => cost(text@),
        ChatEntryKind::System(text) => cost(text@),
        ChatEntryKind::Compaction { summary, .. } => cost(summary@),
        ChatEntryKind::ToolCall { name, arguments, .. } => cost(name@) + cost(arguments@),
        ChatEntryKind::ToolResult { name, content, .. } => cost(name@) + cost(content@),
        ChatEntryKind::Actor { source, text } => cost(actor_framing(source@, text@)),
        ChatEntryKind::Error(text) => cost(error_framing(entry.context_override, text@)),
        ChatEntryKind::Thinking(text) => cost("[Thinking] "@ + text@),
        ChatEntryKind::Transient(text) => cost("[Transient] "@ + text@),
        ChatEntryKind::Annotation { .. } => 0,
    }
}

/// The estimate for an entry's content, whatever its place in the prompt.
pub open spec fn content_tokens<E: TokenEstimator>(estimator: E, entry: ChatEntry) -> nat {
    content_cost(entry, |text: Seq<char>| estimator.estimate_of(text))
}

/// A bound on [`content_tokens`].
pub open spec fn content_bound<E: TokenEstimator>(estimator: E, entry: ChatEntry) -> nat {
    content_cost(entry, |text: Seq<char>| estimator.estimate_bound(text))
}

/// The estimate for an entry's share of the prompt: nothing when the entry is
/// not part of it.
pub open spec fn entry_tokens<E: TokenEstimator>(estimator: E, entry: ChatEntry) -> nat {
    if entry.in_context() {
        content_tokens(estimator, entry)
    } else {
        0
    }
}

/// The cost of the images among the attachments.
fn image_attachment_tokens(attachments: &[Attachment]) -> (tokens: usize)
    requires
        IMAGE_ATTACHMENT_TOKENS * image_count(attachments@) <= usize::MAX,
    ensures
        tokens == IMAGE_ATTACHMENT_TOKENS * image_count(attachments@),
{
    let mut tokens: usize = 0;
    let mut i: usize = 0;
    while i < attachments.len()
        invariant
            i <= attachments.len(),
            tokens == IMAGE_ATTACHMENT_TOKENS * image_count(attachments@.take(i as int)),
            IMAGE_ATTACHMENT_TOKENS * image_count(attachments@) <= usize::MAX,
        decreases attachments.len() - i,
    {
        proof {
            assert(attachments@.take(i + 1).drop_last() =~= attachments@.take(i as int));
            lemma_image_count_grows(attachments@, i + 1);
        }
        if attachments[i].is_image() {
            tokens += IMAGE_ATTACHMENT_TOKENS;
        }
        i += 1;
    }
    assert(attachments@.take(i as int) =~= attachments@);
    tokens
}

proof fn lemma_image_count_grows(attachments: Seq<Attachment>, i: int)
    requires
        0 <= i <= attachments.len(),
    ensures
        image_count(attachments.take(i)) <= image_count(attachments),
    decreases attachments.len(),
{
    if i == attachments.len() {
        assert(attachments.take(i) =~= attachments);
    } else {
        lemma_image_count_grows(attachments.drop_last(), i);
        assert(attachments.drop_last().take(i) =~= attachments.take(i));
    }
}

/// Estimates the tokens of an entry's content, whatever its place in the
/// prompt.
pub fn estimate_entry_content_tokens<E: TokenEstimator>(
    estimator: &E,
    entry: &ChatEntry,
) -> (tokens: usize)
    requires
        content_bound(*estimator, *entry) <= usize::MAX,
    ensures
        tokens == content_tokens(*estimator, *entry),
        tokens <= content_bound(*estimator, *entry),
{
    match &entry.kind {
        ChatEntryKind::User { expanded, attachments, .. } => {
            let text_tokens: usize = estimator.estimate(expanded.as_str());
            let image_tokens: usize = image_attachment_tokens(attachments.as_slice());
            text_tokens + image_tokens
        },
        ChatEntryKind::Assistant(text) => estimator.estimate(text.as_str()),
        ChatEntryKind::System(text) => estimator.estimate(text.as_str()),
        ChatEntryKind::Compaction { summary, .. } => estimator.estimate(summary.as_str()),
        ChatEntryKind::ToolCall { name, arguments, .. } => {
            estimator.estimate(name.as_str()) + estimator.estimate(arguments.as_str())
        },
        ChatEntryKind::ToolResult { name, content, .. } => {
            estimator.estimate(name.as_str()) + estimator.estimate(content.as_str())
        },
        ChatEntryKind::Actor { source, text } => {
            let mut framed = "[Actor: ".to_owned();
            framed.append(source.as_str());
            framed.append("] ");
            framed.append(text.as_str());
            estimator.estimate(framed.as_str())
        },
        ChatEntryKind::Error(text) => {
            let mut framed = match entry.context_override() {
                ContextOverride::ForcedInclude => {
                    "The user has shared the following output for you to address:\n\n".to_owned()
                },
                ContextOverride::Default | ContextOverride::ForcedExclude => "[Error] ".to_owned(),
            };
            framed.append(text.as_str());
            estimator.estimate(framed.as_str())
        },
        ChatEntryKind::Thinking(text) => {
            let mut framed = "[Thinking] ".to_owned();
            framed.append(text.as_str());
            estimator.estimate(framed.as_str())
        },
        ChatEntryKind::Transient(text) => {
            let mut framed = "[Transient] ".to_owned();
            framed.append(text.as_str());
            estimator.estimate(framed.as_str())
        },
        ChatEntryKind::Annotation { .. } => 0,
    }
}

/// Estimates an entry's share of the prompt: 0 when it is not part of it.
pub fn estimate_entry_tokens<E: TokenEstimator>(estimator: &E, entry: &ChatEntry) -> (tokens: usize)
    requires
        content_bound(*estimator, *entry) <= usize::MAX,
    ensures
        tokens == entry_tokens(*estimator, *entry),
        tokens <= content_bound(*estimator, *entry),
{
    if !entry.is_in_context() {
        return 0;
    }
    estimate_entry_content_tokens(estimator, entry)
}

/// Estimates one token per four grapheme clusters, and at least one.
pub struct CharRatioEstimator;

impl TokenEstimator for CharRatioEstimator {
    open spec fn estimate_of(&self, text: Seq<char>) -> nat {
        text::grapheme_clusters(text).len() / 4 + 1
    }

    open spec fn estimate_bound(&self, text: Seq<char>) -> nat {
        text.len() / 4 + 1
    }

    fn estimate(&self, text: &str) -> (tokens: usize)
        ensures
            tokens >= 1,
    {
        let clusters = text::graphemes(text);
        proof {
            let t = text::texts(clusters@);
            assert forall|i: int| 0 <= i < t.len() implies (#[trigger] t[i]).len() > 0 by {
                assert(clusters@[i]@.len() > 0);
            }
            text::lemma_cluster_count(t);
            assert(t.len() == clusters@.len());
        }
        clusters.len() / 4 + 1
    }

    fn name(&self) -> (name: &'static str)
        ensures
            name@ == "char_ratio"@,
    {
        "char_ratio"
    }
}

/// An entry outside the prompt costs nothing.
pub proof fn lemma_excluded_entry_costs_nothing<E: TokenEstimator>(estimator: E, entry: ChatEntry)
    requires
        !entry.in_context(),
    ensures
        entry_tokens(estimator, entry) == 0,
{
}

/// The content estimate depends on the kind alone, not on pins or overrides;
/// only an error notice is also framed by a forced inclusion.
pub proof fn lemma_content_tokens_ignore_membership<E: TokenEstimator>(
    estimator: E,
    entry: ChatEntry,
    other: ChatEntry,
)
    requires
        entry.kind == other.kind,
        entry.kind is Error ==> (entry.context_override == ContextOverride::ForcedInclude) == (
        other.context_override == ContextOverride::ForcedInclude),
    ensures
        content_tokens(estimator, entry) == content_tokens(estimator, other),
{
}

/// The cost of serialised tool schemas: the sum of their estimates.
pub open spec fn schema_tokens(schemas: Seq<String>, cost: spec_fn(Seq<char>) -> nat) -> nat
    decreases schemas.len(),
{
    if schemas.len() == 0 {
        0
    } else {
        schema_tokens(schemas.drop_last(), cost) + cost(schemas.last()@)
    }
}

/// The tool schemas of two lists cost together what each list costs.
pub proof fn lemma_schema_tokens_add(
    first: Seq<String>,
    second: Seq<String>,
    cost: spec_fn(Seq<char>) -> nat,
)
    ensures
        schema_tokens(first + second, cost) == schema_tokens(first, cost) + schema_tokens(
            second,
            cost,
        ),
    decreases second.len(),
{
    if second.len() == 0 {
        assert(first + second =~= first);
    } else {
        lemma_schema_tokens_add(first, second.drop_last(), cost);
        assert((first + second).drop_last() =~= first + second.drop_last());
    }
}

proof fn lemma_schema_tokens_grow(schemas: Seq<String>, cost: spec_fn(Seq<char>) -> nat, i: int)
    requires
        0 <= i <= schemas.len(),
    ensures
        schema_tokens(schemas.take(i), cost) <= schema_tokens(schemas, cost),
{
    lemma_schema_tokens_add(schemas.take(i), schemas.skip(i), cost);
    assert(schemas.take(i) + schemas.skip(i) =~= schemas);
}

/// Estimates the cost of tool definitions, each given as the JSON text that
/// is sent to the provider.
pub fn estimate_tool_schema_tokens<E: TokenEstimator>(estimator: &E, schemas: &[String]) -> (total:
    usize)
    requires
        schema_tokens(schemas@, |text: Seq<char>| estimator.estimate_bound(text)) <= usize::MAX,
    ensures
        total == schema_tokens(schemas@, |text: Seq<char>| estimator.estimate_of(text)),
{
    let ghost cost = |text: Seq<char>| estimator.estimate_of(text);
    let ghost bound = |text: Seq<char>| estimator.estimate_bound(text);
    let mut total: usize = 0;
    let mut i: usize = 0;
    while i < schemas.len()
        invariant
            i <= schemas.len(),
            cost == (|text: Seq<char>| estimator.estimate_of(text)),
            bound == (|text: Seq<char>| estimator.estimate_bound(text)),
            schema_tokens(schemas@, bound) <= usize::MAX,
            total == schema_tokens(schemas@.take(i as int), cost),
            total <= schema_tokens(schemas@.take(i as int), bound),
        decreases schemas.len() - i,
    {
        proof {
            assert(schemas@.take(i + 1).drop_last() =~= schemas@.take(i as int));
            lemma_schema_tokens_grow(schemas@, bound, i + 1);
        }
        total += estimator.estimate(schemas[i].as_str());
        i += 1;
    }
    assert(schemas@.take(i as int) =~= schemas@);
    total
}

/// The number of tokens of a text in the named encoding, if the tokenizer
/// knows that encoding.
pub uninterp spec fn bpe_token_count(encoding: Seq<char>, text: Seq<char>) -> Option<usize>;

/// Looks the encoding up with `tiktoken::get_encoding` and counts with
/// `CoreBpe::count`.
///
/// Trusted: the count is a function of the encoding's name and the text, and
/// the encoding `o200k_base` is known.
#[verifier::external_body]
fn count_with_encoding(encoding: &str, text: &str) -> (tokens: Option<usize>)
    ensures
        tokens == bpe_token_count(encoding@, text@),
        encoding@ == "o200k_base"@ ==> tokens is Some,
{
    tiktoken::get_encoding(encoding).map(|bpe| bpe.count(text))
}

/// Counts tokens with a fixed `tiktoken` encoding.
#[derive(Clone, Copy)]
pub struct TiktokenCounter {
    encoding_name: &'static str,
}

impl TiktokenCounter {
    #[verifier::type_invariant]
    spec fn known_encoding(self) -> bool {
        self.encoding_name@ == "o200k_base"@
    }

    /// The name of the encoding.
    pub closed spec fn encoding(self) -> Seq<char> {
        self.encoding_name@
    }

    /// A counter for the `o200k_base` encoding.
    pub fn o200k_base() -> (counter: TiktokenCounter)
        ensures
            counter.encoding() == "o200k_base"@,
    {
        TiktokenCounter { encoding_name: "o200k_base" }
    }
}

impl TokenCounter for TiktokenCounter {
    open spec fn count_of(&self, text: Seq<char>) -> nat {
        bpe_token_count(self.encoding(), text).unwrap() as nat
    }

    fn count(&self, text: &str) -> (tokens: usize) {
        proof {
            use_type_invariant(self);
        }
        count_with_encoding(self.encoding_name, text).unwrap()
    }

    fn name(&self) -> (name: &'static str)
        ensures
            name@ == self.encoding(),
    {
        self.encoding_name
    }
}

/// The content of an entry costs what its text costs as it is sent to the
/// model: a user message in its expanded form and a flat share for each image,
/// a tool's name together with its arguments or its output, other kinds in
/// their framing. Citations are not sent.
pub proof fn lemma_content_costs_what_is_sent<E: TokenEstimator>(estimator: E, entry: ChatEntry)
    ensures
        content_tokens(estimator, entry) == match entry.kind {
            ChatEntryKind::User { expanded, attachments, .. } => estimator.estimate_of(expanded@)
                + 765 * attachments@.filter(|a: Attachment| a.image).len(),
            ChatEntryKind::Assistant(text) => estimator.estimate_of(text@),
            ChatEntryKind::System(text) => estimator.estimate_of(text@),
            ChatEntryKind::Compaction { summary, .. } => estimator.estimate_of(summary@),
            ChatEntryKind::ToolCall { name, arguments, .. } => estimator.estimate_of(name@)
                + estimator.estimate_of(arguments@),
            ChatEntryKind::ToolResult { name, content, .. } => estimator.estimate_of(name@)
                + estimator.estimate_of(content@),
            ChatEntryKind::Actor { source, text } => estimator.estimate_of(
                "[Actor: "@ + source@ + "] "@ + text@,
            ),
            ChatEntryKind::Error(text) => estimator.estimate_of(
                if entry.context_override == ContextOverride::ForcedInclude {
                    "The user has shared the following output for you to address:\n\n"@ + text@
                } else {
                    "[Error] "@ + text@
                },
            ),
            ChatEntryKind::Thinking(text) => estimator.estimate_of("[Thinking] "@ + text@),
            ChatEntryKind::Transient(text) => estimator.estimate_of("[Transient] "@ + text@),
            ChatEntryKind::Annotation { .. } => 0nat,
        },
{
    if let ChatEntryKind::User { attachments, .. } = entry.kind {
        lemma_images_counted(attachments@);
    }
}

proof fn lemma_images_counted(attachments: Seq<Attachment>)
    ensures
        image_count(attachments) == attachments.filter(|a: Attachment| a.image).len(),
    decreases attachments.len(),
{
    reveal(Seq::filter);
    if attachments.len() > 0 {
        lemma_images_counted(attachments.drop_last());
    }
}

/// An entry's share of the prompt is its whole content or nothing: nothing for
/// an excluded entry, everything for a pinned or force-included one, and
/// without an override everything for user messages, assistant messages with
/// text, tool traffic and summaries.
pub proof fn lemma_share_is_content_or_nothing<E: TokenEstimator>(estimator: E, entry: ChatEntry)
    ensures
        entry_tokens(estimator, entry) == if entry.pin_position is Some {
            content_tokens(estimator, entry)
        } else if entry.context_override == ContextOverride::ForcedExclude {
            0
        } else if entry.context_override == ContextOverride::ForcedInclude {
            content_tokens(estimator, entry)
        } else {
            match entry.kind {
                ChatEntryKind::User { .. }
                | ChatEntryKind::ToolCall { .. }
                | ChatEntryKind::ToolResult { .. }
                | ChatEntryKind::Compaction { .. } => content_tokens(estimator, entry),
                ChatEntryKind::Assistant(text) => if text@.len() > 0 {
                    content_tokens(estimator, entry)
                } else {
                    0
                },
                _ => 0,
            }
        },
{
}

/// The rough estimate is one token for every four grapheme clusters, and one
/// more.
pub proof fn lemma_char_ratio(text: Seq<char>)
    ensures
        ({
            let clusters = text::grapheme_clusters(text).len() as int;
            let tokens = CharRatioEstimator.estimate_of(text) as int;
            4 * (tokens - 1) <= clusters < 4 * tokens
        }),
{
}

/// A single tool schema costs what its text costs, and none cost nothing.
pub proof fn lemma_single_schema_tokens(schema: String, cost: spec_fn(Seq<char>) -> nat)
    ensures
        schema_tokens(Seq::empty(), cost) == 0,
        schema_tokens(seq![schema], cost) == cost(schema@),
{
    let one = seq![schema];
    assert(one.drop_last() =~= Seq::empty());
    assert(one.last() == schema);
    reveal_with_fuel(schema_tokens, 2);
}

/// What an entry's content is estimated at: the estimate of the text that is
/// sent for it, and a flat cost for each image of a user message.
pub proof fn lemma_estimated_content<E: TokenEstimator>(
    estimator: &E,
    entry: &ChatEntry,
    tokens: usize,
)
    requires
        call_ensures(estimate_entry_content_tokens::<E>, (estimator, entry), tokens),
    ensures
        tokens == match entry.kind {
            ChatEntryKind::User { expanded, attachments, .. } => estimator.estimate_of(expanded@)
                + 765 * attachments@.filter(|a: Attachment| a.image).len(),
            ChatEntryKind::Assistant(text) => estimator.estimate_of(text@),
            ChatEntryKind::System(text) => estimator.estimate_of(text@),
            ChatEntryKind::Compaction { summary, .. } => estimator.estimate_of(summary@),
            ChatEntryKind::ToolCall { name, arguments, .. } => estimator.estimate_of(name@)
                + estimator.estimate_of(arguments@),
            ChatEntryKind::ToolResult { name, content, .. } => estimator.estimate_of(name@)
                + estimator.estimate_of(content@),
            ChatEntryKind::Actor { source, text } => estimator.estimate_of(
                "[Actor: "@ + source@ + "] "@ + text@,
            ),
            ChatEntryKind::Error(text) => estimator.estimate_of(
                if entry.context_override == ContextOverride::ForcedInclude {
                    "The user has shared the following output for you to address:\n\n"@ + text@
                } else {
                    "[Error] "@ + text@
                },
            ),
            ChatEntryKind::Thinking(text) => estimator.estimate_of("[Thinking] "@ + text@),
            ChatEntryKind::Transient(text) => estimator.estimate_of("[Transient] "@ + text@),
            ChatEntryKind::Annotation { .. } => 0nat,
        },
{
    lemma_content_costs_what_is_sent(*estimator, *entry);
}

/// An entry's share of the prompt is its content where it is part of the
/// prompt and nothing where it is not.
pub proof fn lemma_estimated_share<E: TokenEstimator>(
    estimator: &E,
    entry: &ChatEntry,
    content: usize,
    share: usize,
    part: bool,
)
    requires
        call_ensures(estimate_entry_content_tokens::<E>, (estimator, entry), content),
        call_ensures(estimate_entry_tokens::<E>, (estimator, entry), share),
        call_ensures(ChatEntry::is_in_context, (entry,), part),
    ensures
        share == if part {
            content
        } else {
            0
        },
{
}

/// The schemas of two lists are estimated together at what each list is, and a
/// single one at what its text is.
pub proof fn lemma_estimated_schemas<E: TokenEstimator>(
    estimator: &E,
    first: &[String],
    second: &[String],
    whole: &[String],
    of_first: usize,
    of_second: usize,
    of_whole: usize,
)
    requires
        whole@ == first@ + second@,
        call_ensures(estimate_tool_schema_tokens::<E>, (estimator, first), of_first),
        call_ensures(estimate_tool_schema_tokens::<E>, (estimator, second), of_second),
        call_ensures(estimate_tool_schema_tokens::<E>, (estimator, whole), of_whole),
    ensures
        of_whole == of_first + of_second,
        first@.len() == 0 ==> of_first == 0,
        first@.len() == 1 ==> of_first == estimator.estimate_of(first@[0]@),
{
    let cost = |text: Seq<char>| estimator.estimate_of(text);
    lemma_schema_tokens_add(first@, second@, cost);
    if first@.len() == 1 {
        assert(first@ =~= seq![first@[0]]);
        lemma_single_schema_tokens(first@[0], cost);
    }
}

} // verus!
