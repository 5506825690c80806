//! Chat history entries and the rules that decide which of them reach the
//! assembled prompt.

use crate::text::copy_option;
use vstd::prelude::*;

verus! {

/// Whether a number is a random UUID, most significant byte first: the version
/// is 4, and the variant bits are those of RFC 9562.
pub open spec fn is_random_uuid(id: u128) -> bool {
    &&& (id >> 76u128) & 0xfu128 == 4
    &&& (id >> 62u128) & 3u128 == 2
}

/// Draws a fresh identifier with `uuid::Uuid::new_v4`, as the number that
/// `Uuid::as_u128` packs it into.
///
/// Trusted: version and variant are set in every outcome. The other bits are
/// random, so that two draws differ is likely and not claimed. The call panics
/// where the operating system has no random bytes to give.
#[verifier::external_body]
fn random_id() -> (id: u128)
    ensures
        is_random_uuid(id),
{
    uuid::Uuid::new_v4().as_u128()
}

/// Identifies one entry of a chat history.
#[derive(Clone, Copy, Debug, PartialEq, Eq, Hash, Structural)]
pub struct ChatEntryId(pub u128);

impl ChatEntryId {
    /// A fresh random identifier.
    pub fn new() -> (id: ChatEntryId)
        ensures
            is_random_uuid(id.0),
    {
        ChatEntryId(random_id())
    }
}

/// Identifies one chat session.
#[derive(Clone, Copy, Debug, PartialEq, Eq, Hash, Structural)]
pub struct SessionId(pub u128);

impl SessionId {
    /// A fresh random identifier.
    pub fn new() -> (id: SessionId)
        ensures
            is_random_uuid(id.0),
    {
        SessionId(random_id())
    }
}

/// How a tool invocation ended.
#[derive(Clone, Copy, Debug, PartialEq, Eq, Structural)]
pub enum ToolResultStatus {
    Success,
    Failure,
    /// The tool has not finished yet.
    Pending,
}

/// Where a pinned entry is placed in the assembled prompt.
#[derive(Clone, Copy, Debug, PartialEq, Eq, Structural)]
pub enum PinPosition {
    Top,
    Bottom,
    /// The entry keeps its place in the conversation.
    Relative,
}

/// Overrides the default decision whether an entry is part of the prompt.
#[derive(Clone, Copy, Debug, PartialEq, Eq, Structural)]
pub enum ContextOverride {
    /// The entry's kind decides.
    Default,
    ForcedInclude,
    ForcedExclude,
}

/// Who changed an entry's context override.
#[derive(Clone, Debug, PartialEq, Eq)]
pub enum ChangeSource {
    User,
    /// A background worker, by name.
    Worker { name: String },
    /// The client itself, for the labelled reason.
    Internal { label: String },
}

/// The value of a [`ChangeSource`].
pub ghost enum ChangeSourceView {
    User,
    Worker { name: Seq<char> },
    Internal { label: Seq<char> },
}

impl View for ChangeSource {
    type V = ChangeSourceView;

    open spec fn view(&self) -> ChangeSourceView {
        match self {
            ChangeSource::User => ChangeSourceView::User,
            ChangeSource::Worker { name } => ChangeSourceView::Worker { name: name@ },
            ChangeSource::Internal { label } => ChangeSourceView::Internal { label: label@ },
        }
    }
}

impl ChangeSource {
    /// An equal copy.
    pub fn copy(&self) -> (copy: ChangeSource)
        ensures
            copy == *self,
    {
        match self {
            ChangeSource::User => ChangeSource::User,
            ChangeSource::Worker { name } => ChangeSource::Worker { name: name.clone() },
            ChangeSource::Internal { label } => ChangeSource::Internal { label: label.clone() },
        }
    }
}

/// One recorded change of an entry's context override.
#[derive(Clone, Debug, PartialEq, Eq)]
pub struct ContextChange {
    pub to: ContextOverride,
    pub source: ChangeSource,
}

impl ContextChange {
    /// An equal copy.
    pub fn copy(&self) -> (copy: ContextChange)
        ensures
            copy == *self,
    {
        ContextChange { to: self.to, source: self.source.copy() }
    }
}

/// Binary data sent along with a user message.
#[derive(Clone, Debug, PartialEq, Eq)]
pub struct Attachment {
    pub mime: String,
    pub data: Vec<u8>,
    pub image: bool,
}

/// The value of an [`Attachment`].
pub ghost struct AttachmentView {
    pub mime: String,
    pub data: Seq<u8>,
    pub image: bool,
}

impl View for Attachment {
    type V = AttachmentView;

    open spec fn view(&self) -> AttachmentView {
        AttachmentView { mime: self.mime, data: self.data@, image: self.image }
    }
}

/// The values of a sequence of attachments.
pub open spec fn attachment_views(attachments: Seq<Attachment>) -> Seq<AttachmentView> {
    attachments.map_values(|a: Attachment| a@)
}

impl Attachment {
    /// An equal copy.
    pub fn copy(&self) -> (copy: Attachment)
        ensures
            copy@ == self@,
    {
        let data = self.data.clone();
        assert(data@ =~= self.data@);
        Attachment { mime: self.mime.clone(), data, image: self.image }
    }

    /// An image attachment.
    pub fn image(mime: &str, data: Vec<u8>) -> (attachment: Attachment)
        ensures
            attachment.mime@ == mime@,
            attachment.data == data,
            attachment.image,
    {
        Attachment { mime: mime.to_owned(), data, image: true }
    }

    /// Whether this attachment is an image.
    pub fn is_image(&self) -> (image: bool)
        ensures
            image == self.image,
    {
        self.image
    }
}

/// A web page cited by the model.
#[derive(Clone, Debug, PartialEq, Eq)]
pub struct UrlCitation {
    pub url: String,
    pub title: String,
    pub content: Option<String>,
    pub start_index: Option<u64>,
    pub end_index: Option<u64>,
}

impl UrlCitation {
    /// An equal copy.
    pub fn copy(&self) -> (copy: UrlCitation)
        ensures
            copy == *self,
    {
        UrlCitation {
            url: self.url.clone(),
            title: self.title.clone(),
            content: copy_option(&self.content),
            start_index: self.start_index,
            end_index: self.end_index,
        }
    }
}

/// What a history entry is.
#[derive(Clone, Debug, PartialEq, Eq)]
pub enum ChatEntryKind {
    /// A user message: as shown, and as sent after template expansion.
    User { display: String, expanded: String, attachments: Vec<Attachment> },
    Assistant(String),
    System(String),
    Error(String),
    Thinking(String),
    Transient(String),
    /// A message of another participant.
    Actor { source: String, text: String },
    ToolCall { id: String, name: String, arguments: String },
    ToolResult { id: String, name: String, content: String, status: ToolResultStatus },
    /// The summary that stands for the entries before it.
    Compaction {
        summary: String,
        tokens_before: usize,
        tokens_after: usize,
        entries_compacted: usize,
        model_used: String,
    },
    /// Citations shown beside an answer.
    Annotation { citations: Vec<UrlCitation> },
}

/// The value of a [`ChatEntryKind`].
pub ghost enum KindView {
    User { display: String, expanded: String, attachments: Seq<AttachmentView> },
    Annotation { citations: Seq<UrlCitation> },
    /// Any other kind, as it is.
    Other(ChatEntryKind),
}

impl View for ChatEntryKind {
    type V = KindView;

    open spec fn view(&self) -> KindView {
        match *self {
            ChatEntryKind::User { display, expanded, attachments } => KindView::User {
                display,
                expanded,
                attachments: attachment_views(attachments@),
            },
            ChatEntryKind::Annotation { citations } => KindView::Annotation {
                citations: citations@,
            },
            other => KindView::Other(other),
        }
    }
}

/// An equal copy of the attachments.
fn copy_attachments(attachments: &Vec<Attachment>) -> (copy: Vec<Attachment>)
    ensures
        attachment_views(copy@) == attachment_views(attachments@),
{
    let mut copy: Vec<Attachment> = Vec::new();
    let mut i: usize = 0;
    while i < attachments.len()
        invariant
            i <= attachments@.len(),
            copy@.len() == i,
            forall|k: int| 0 <= k < i ==> (#[trigger] copy@[k])@ == attachments@[k]@,
        decreases attachments@.len() - i,
    {
        copy.push(attachments[i].copy());
        i += 1;
    }
    assert(attachment_views(copy@) =~= attachment_views(attachments@));
    copy
}

/// An equal copy of the citations.
fn copy_citations(citations: &Vec<UrlCitation>) -> (copy: Vec<UrlCitation>)
    ensures
        copy@ == citations@,
{
    let mut copy: Vec<UrlCitation> = Vec::new();
    let mut i: usize = 0;
    while i < citations.len()
        invariant
            i <= citations@.len(),
            copy@ == citations@.take(i as int),
        decreases citations@.len() - i,
    {
        copy.push(citations[i].copy());
        assert(citations@.take(i + 1) =~= citations@.take(i as int).push(citations@[i as int]));
        i += 1;
    }
    assert(citations@.take(i as int) =~= citations@);
    copy
}

impl ChatEntryKind {
    /// An equal copy.
    pub fn copy(&self) -> (copy: ChatEntryKind)
        ensures
            copy@ == self@,
    {
        match self {
            ChatEntryKind::User { display, expanded, attachments } => ChatEntryKind::User {
                display: display.clone(),
                expanded: expanded.clone(),
                attachments: copy_attachments(attachments),
            },
            ChatEntryKind::Assistant(text) => ChatEntryKind::Assistant(text.clone()),
            ChatEntryKind::System(text) => ChatEntryKind::System(text.clone()),
            ChatEntryKind::Error(text) => ChatEntryKind::Error(text.clone()),
            ChatEntryKind::Thinking(text) => ChatEntryKind::Thinking(text.clone()),
            ChatEntryKind::Transient(text) => ChatEntryKind::Transient(text.clone()),
            ChatEntryKind::Actor { source, text } => ChatEntryKind::Actor {
                source: source.clone(),
                text: text.clone(),
            },
            ChatEntryKind::ToolCall { id, name, arguments } => ChatEntryKind::ToolCall {
                id: id.clone(),
                name: name.clone(),
                arguments: arguments.clone(),
            },
            ChatEntryKind::ToolResult { id, name, content, status } => ChatEntryKind::ToolResult {
                id: id.clone(),
                name: name.clone(),
                content: content.clone(),
                status: *status,
            },
            ChatEntryKind::Compaction {
                summary,
                tokens_before,
                tokens_after,
                entries_compacted,
                model_used,
            } => ChatEntryKind::Compaction {
                summary: summary.clone(),
                tokens_before: *tokens_before,
                tokens_after: *tokens_after,
                entries_compacted: *entries_compacted,
                model_used: model_used.clone(),
            },
            ChatEntryKind::Annotation { citations } => ChatEntryKind::Annotation {
                citations: copy_citations(citations),
            },
        }
    }
}

/// One entry of a chat history.
#[derive(Clone, Debug, PartialEq, Eq)]
pub struct ChatEntry {
    pub id: ChatEntryId,
    pub kind: ChatEntryKind,
    pub pin_position: Option<PinPosition>,
    pub context_override: ContextOverride,
    /// Every change of `context_override`, oldest first.
    pub context_history: Vec<ContextChange>,
    /// The recorded token count of the content, once known.
    pub token_count: Option<u32>,
}

/// The value of a [`ChatEntry`].
pub ghost struct EntryView {
    pub id: ChatEntryId,
    pub kind: KindView,
    pub pin_position: Option<PinPosition>,
    pub context_override: ContextOverride,
    pub context_history: Seq<ContextChange>,
    pub token_count: Option<u32>,
}

impl View for ChatEntry {
    type V = EntryView;

    open spec fn view(&self) -> EntryView {
        EntryView {
            id: self.id,
            kind: self.kind@,
            pin_position: self.pin_position,
            context_override: self.context_override,
            context_history: self.context_history@,
            token_count: self.token_count,
        }
    }
}

/// The values of a sequence of entries.
pub open spec fn entry_views(entries: Seq<ChatEntry>) -> Seq<EntryView> {
    entries.map_values(|e: ChatEntry| e@)
}

/// An equal copy of the changes.
fn copy_changes(changes: &Vec<ContextChange>) -> (copy: Vec<ContextChange>)
    ensures
        copy@ == changes@,
{
    let mut copy: Vec<ContextChange> = Vec::new();
    let mut i: usize = 0;
    while i < changes.len()
        invariant
            i <= changes@.len(),
            copy@ == changes@.take(i as int),
        decreases changes@.len() - i,
    {
        copy.push(changes[i].copy());
        assert(changes@.take(i + 1) =~= changes@.take(i as int).push(changes@[i as int]));
        i += 1;
    }
    assert(changes@.take(i as int) =~= changes@);
    copy
}

/// An equal copy of the entries.
pub fn copy_entries(entries: &[ChatEntry]) -> (copy: Vec<ChatEntry>)
    ensures
        entry_views(copy@) == entry_views(entries@),
{
    let mut copy: Vec<ChatEntry> = Vec::new();
    let mut i: usize = 0;
    while i < entries.len()
        invariant
            i <= entries@.len(),
            copy@.len() == i,
            forall|k: int| 0 <= k < i ==> (#[trigger] copy@[k])@ == entries@[k]@,
        decreases entries@.len() - i,
    {
        copy.push(entries[i].copy());
        i += 1;
    }
    assert(entry_views(copy@) =~= entry_views(entries@));
    copy
}

/// Whether entries of this kind are part of the prompt unless overridden:
/// user messages, non-empty assistant messages, tool traffic and compaction
/// summaries.
pub open spec fn in_context_by_default(kind: ChatEntryKind) -> bool {
    match kind {
        ChatEntryKind::User { .. } => true,
        ChatEntryKind::Assistant(text) => text@.len() > 0,
        ChatEntryKind::ToolCall { .. } => true,
        ChatEntryKind::ToolResult { .. } => true,
        ChatEntryKind::Compaction { .. } => true,
        _ => false,
    }
}

impl ChatEntry {
    /// Whether the entry is pinned.
    pub open spec fn pinned(self) -> bool {
        self.pin_position is Some
    }

    /// Whether the entry is part of the assembled prompt: a pin puts it in,
    /// then the override decides, then the kind.
    pub open spec fn in_context(self) -> bool {
        self.pinned() || match self.context_override {
            ContextOverride::ForcedInclude => true,
            ContextOverride::ForcedExclude => false,
            ContextOverride::Default => in_context_by_default(self.kind),
        }
    }

    /// Whether an override is already set, so that pruning leaves it alone.
    pub open spec fn protected_from_prune(self) -> bool {
        self.context_override != ContextOverride::Default
    }

    /// Whether the user was the last to change the override and excluded the
    /// entry.
    pub open spec fn user_force_excluded(self) -> bool {
        &&& self.context_override == ContextOverride::ForcedExclude
        &&& self.context_history@.len() > 0
        &&& self.context_history@.last().source is User
    }

    /// Whether the entry is a new one: with a random id, and without pin,
    /// override, history or count.
    pub open spec fn is_fresh(self) -> bool {
        &&& is_random_uuid(self.id.0)
        &&& self.pin_position is None
        &&& self.context_override == ContextOverride::Default
        &&& self.context_history@.len() == 0
        &&& self.token_count is None
    }

    /// An equal copy.
    pub fn copy(&self) -> (copy: ChatEntry)
        ensures
            copy@ == self@,
    {
        ChatEntry {
            id: self.id,
            kind: self.kind.copy(),
            pin_position: self.pin_position,
            context_override: self.context_override,
            context_history: copy_changes(&self.context_history),
            token_count: self.token_count,
        }
    }

    /// A new entry with a random id.
    pub fn new(kind: ChatEntryKind) -> (entry: ChatEntry)
        ensures
            entry.kind == kind,
            entry.is_fresh(),
    {
        ChatEntry {
            id: ChatEntryId::new(),
            kind,
            pin_position: None,
            context_override: ContextOverride::Default,
            context_history: Vec::new(),
            token_count: None,
        }
    }

    /// A user message that is sent as it is shown.
    pub fn user(text: &str) -> (entry: ChatEntry)
        ensures
            entry.is_fresh(),
            entry.kind matches ChatEntryKind::User { display, expanded, attachments }
                && display@ == text@ && expanded@ == text@ && attachments@.len() == 0,
    {
        ChatEntry::new(
            ChatEntryKind::User {
                display: text.to_owned(),
                expanded: text.to_owned(),
                attachments: Vec::new(),
            },
        )
    }

    /// An assistant message.
    pub fn assistant(text: &str) -> (entry: ChatEntry)
        ensures
            entry.is_fresh(),
            entry.kind matches ChatEntryKind::Assistant(t) && t@ == text@,
    {
        ChatEntry::new(ChatEntryKind::Assistant(text.to_owned()))
    }

    /// A system notice.
    pub fn system(text: &str) -> (entry: ChatEntry)
        ensures
            entry.is_fresh(),
            entry.kind matches ChatEntryKind::System(t) && t@ == text@,
    {
        ChatEntry::new(ChatEntryKind::System(text.to_owned()))
    }

    /// An error notice.
    pub fn error(text: &str) -> (entry: ChatEntry)
        ensures
            entry.is_fresh(),
            entry.kind matches ChatEntryKind::Error(t) && t@ == text@,
    {
        ChatEntry::new(ChatEntryKind::Error(text.to_owned()))
    }

    /// A piece of model reasoning.
    pub fn thinking(text: &str) -> (entry: ChatEntry)
        ensures
            entry.is_fresh(),
            entry.kind matches ChatEntryKind::Thinking(t) && t@ == text@,
    {
        ChatEntry::new(ChatEntryKind::Thinking(text.to_owned()))
    }

    /// A short-lived notice.
    pub fn transient(text: &str) -> (entry: ChatEntry)
        ensures
            entry.is_fresh(),
            entry.kind matches ChatEntryKind::Transient(t) && t@ == text@,
    {
        ChatEntry::new(ChatEntryKind::Transient(text.to_owned()))
    }

    /// A message of another participant.
    pub fn actor(source: &str, text: &str) -> (entry: ChatEntry)
        ensures
            entry.is_fresh(),
            entry.kind matches ChatEntryKind::Actor { source: s, text: t } && s@ == source@
                && t@ == text@,
    {
        ChatEntry::new(ChatEntryKind::Actor { source: source.to_owned(), text: text.to_owned() })
    }

    /// A tool invocation.
    pub fn tool_call(id: &str, name: &str, arguments: &str) -> (entry: ChatEntry)
        ensures
            entry.is_fresh(),
            entry.kind matches ChatEntryKind::ToolCall { id: i, name: n, arguments: a } && i@ == id@
                && n@ == name@ && a@ == arguments@,
    {
        ChatEntry::new(
            ChatEntryKind::ToolCall {
                id: id.to_owned(),
                name: name.to_owned(),
                arguments: arguments.to_owned(),
            },
        )
    }

    /// The outcome of a tool invocation.
    pub fn tool_result(id: &str, name: &str, content: &str, status: ToolResultStatus) -> (entry:
        ChatEntry)
        ensures
            entry.is_fresh(),
            entry.kind matches ChatEntryKind::ToolResult { id: i, name: n, content: c, status: s }
                && i@ == id@ && n@ == name@ && c@ == content@ && s == status,
    {
        ChatEntry::new(
            ChatEntryKind::ToolResult {
                id: id.to_owned(),
                name: name.to_owned(),
                content: content.to_owned(),
                status,
            },
        )
    }

    /// Citations shown beside an answer.
    pub fn annotation(citations: Vec<UrlCitation>) -> (entry: ChatEntry)
        ensures
            entry.is_fresh(),
            entry.kind == (ChatEntryKind::Annotation { citations }),
    {
        ChatEntry::new(ChatEntryKind::Annotation { citations })
    }

    /// The same entry, pinned.
    pub fn with_pin(self, position: PinPosition) -> (entry: ChatEntry)
        ensures
            entry == (ChatEntry { pin_position: Some(position), ..self }),
    {
        let mut entry = self;
        entry.pin_position = Some(position);
        entry
    }

    /// The same entry with the given override and no recorded change.
    pub fn with_context_override(self, value: ContextOverride) -> (entry: ChatEntry)
        ensures
            entry == (ChatEntry { context_override: value, ..self }),
    {
        let mut entry = self;
        entry.context_override = value;
        entry
    }

    /// The same entry, excluded from the prompt or back to its default.
    pub fn with_ignored(self, ignored: bool) -> (entry: ChatEntry)
        ensures
            ignored ==> entry == (ChatEntry {
                context_override: ContextOverride::ForcedExclude,
                ..self
            }),
            !ignored ==> entry == (ChatEntry { context_override: ContextOverride::Default, ..self }),
    {
        if ignored {
            self.with_context_override(ContextOverride::ForcedExclude)
        } else {
            self.with_context_override(ContextOverride::Default)
        }
    }

    /// Whether `later` is this entry after its override was set to `value`
    /// by `source`.
    pub open spec fn overridden_to(
        self,
        value: ContextOverride,
        source: ChangeSource,
        later: ChatEntry,
    ) -> bool {
        &&& later.id == self.id
        &&& later.kind == self.kind
        &&& later.pin_position == self.pin_position
        &&& later.token_count == self.token_count
        &&& later.context_override == value
        &&& later.context_history@ == self.context_history@.push(
            ContextChange { to: value, source },
        )
    }

    /// Sets the override and records who set it.
    pub fn apply_context_override(&mut self, value: ContextOverride, source: ChangeSource)
        ensures
            old(self).overridden_to(value, source, *final(self)),
    {
        self.context_override = value;
        self.context_history.push(ContextChange { to: value, source });
    }

    /// The entry's context override.
    pub fn context_override(&self) -> (value: ContextOverride)
        ensures
            value == self.context_override,
    {
        self.context_override
    }

    /// Whether the entry is pinned.
    pub fn is_pinned(&self) -> (pinned: bool)
        ensures
            pinned == self.pinned(),
    {
        self.pin_position.is_some()
    }

    /// Whether the entry is part of the assembled prompt.
    pub fn is_in_context(&self) -> (in_context: bool)
        ensures
            in_context == self.in_context(),
    {
        if self.is_pinned() {
            return true;
        }
        match self.context_override {
            ContextOverride::ForcedInclude => true,
            ContextOverride::ForcedExclude => false,
            ContextOverride::Default => match &self.kind {
                ChatEntryKind::User { .. }
                | ChatEntryKind::ToolCall { .. }
                | ChatEntryKind::ToolResult { .. }
                | ChatEntryKind::Compaction { .. } => true,
                ChatEntryKind::Assistant(text) => !text.as_str().is_empty(),
                _ => false,
            },
        }
    }

    /// Whether the override is set, so that pruning leaves the entry alone.
    pub fn is_protected_from_prune(&self) -> (protected: bool)
        ensures
            protected == self.protected_from_prune(),
    {
        self.context_override != ContextOverride::Default
    }

    /// Whether the user was the last to change the override and excluded the
    /// entry.
    pub fn is_user_force_excluded(&self) -> (excluded: bool)
        ensures
            excluded == self.user_force_excluded(),
    {
        let n: usize = self.context_history.len();
        if self.context_override != ContextOverride::ForcedExclude || n == 0 {
            return false;
        }
        match &self.context_history[n - 1].source {
            ChangeSource::User => true,
            _ => false,
        }
    }

    /// Whether the entry is a compaction summary.
    pub fn is_compaction(&self) -> (compaction: bool)
        ensures
            compaction == (self.kind is Compaction),
    {
        match &self.kind {
            ChatEntryKind::Compaction { .. } => true,
            _ => false,
        }
    }

    /// Whether the entry is an assistant message without text.
    pub fn is_empty_assistant(&self) -> (empty: bool)
        ensures
            empty == (self.kind matches ChatEntryKind::Assistant(text) && text@.len() == 0),
    {
        match &self.kind {
            ChatEntryKind::Assistant(text) => text.as_str().is_empty(),
            _ => false,
        }
    }
}

/// Who decides whether an entry reaches the prompt: a pin before everything
/// else, then the override, and only then the kind.
pub proof fn lemma_prompt_membership(entry: ChatEntry)
    ensures
        entry.pin_position is Some ==> entry.in_context(),
        entry.pin_position is None && entry.context_override == ContextOverride::ForcedInclude
            ==> entry.in_context(),
        entry.pin_position is None && entry.context_override == ContextOverride::ForcedExclude
            ==> !entry.in_context(),
        entry.pin_position is None && entry.context_override == ContextOverride::Default
            ==> entry.in_context() == match entry.kind {
            ChatEntryKind::User { .. }
            | ChatEntryKind::ToolCall { .. }
            | ChatEntryKind::ToolResult { .. }
            | ChatEntryKind::Compaction { .. } => true,
            ChatEntryKind::Assistant(text) => text@.len() > 0,
            ChatEntryKind::System(_)
            | ChatEntryKind::Error(_)
            | ChatEntryKind::Thinking(_)
            | ChatEntryKind::Transient(_)
            | ChatEntryKind::Actor { .. }
            | ChatEntryKind::Annotation { .. } => false,
        },
{
}

/// Pruning leaves alone exactly what has an override, and a user's exclusion
/// is one that the user made last.
pub proof fn lemma_prune_protection(entry: ChatEntry)
    ensures
        entry.protected_from_prune() <==> entry.context_override == ContextOverride::ForcedInclude
            || entry.context_override == ContextOverride::ForcedExclude,
        entry.user_force_excluded() <==> entry.context_override == ContextOverride::ForcedExclude
            && entry.context_history@.len() > 0
            && entry.context_history@[entry.context_history@.len() - 1].source
            == ChangeSource::User,
{
}

/// An entry that is asked of is part of the prompt if it is pinned; otherwise
/// its override decides, and without one its kind.
pub proof fn lemma_asked_membership(entry: &ChatEntry, part: bool)
    requires
        call_ensures(ChatEntry::is_in_context, (entry,), part),
    ensures
        entry.pin_position is Some ==> part,
        entry.pin_position is None && entry.context_override == ContextOverride::ForcedInclude
            ==> part,
        entry.pin_position is None && entry.context_override == ContextOverride::ForcedExclude
            ==> !part,
        entry.pin_position is None && entry.context_override == ContextOverride::Default ==> (part
            <==> match entry.kind {
            ChatEntryKind::User { .. }
            | ChatEntryKind::ToolCall { .. }
            | ChatEntryKind::ToolResult { .. }
            | ChatEntryKind::Compaction { .. } => true,
            ChatEntryKind::Assistant(text) => text@.len() > 0,
            _ => false,
        }),
{
    lemma_prompt_membership(*entry);
}

/// A changed override is the one that was asked for, and who asked for it is
/// noted behind the changes before; nothing else of the entry changes.
pub proof fn lemma_override_is_recorded(value: ContextOverride, source: ChangeSource)
    ensures
        forall|entry: &mut ChatEntry|
            #[trigger] call_ensures(
                ChatEntry::apply_context_override,
                (entry, value, source),
                (),
            ) ==> {
                let before = *entry;
                let after = *final(entry);
                &&& after.context_override == value
                &&& after.context_history@.len() == before.context_history@.len() + 1
                &&& after.context_history@.drop_last() == before.context_history@
                &&& after.context_history@.last().to == value
                &&& after.context_history@.last().source == source
                &&& after.id == before.id
                &&& after.kind == before.kind
                &&& after.pin_position == before.pin_position
                &&& after.token_count == before.token_count
                &&& after.user_force_excluded() <==> value == ContextOverride::ForcedExclude
                    && source is User
            },
{
    assert forall|entry: &mut ChatEntry|
        #[trigger] call_ensures(
            ChatEntry::apply_context_override,
            (entry, value, source),
            (),
        ) implies (*final(entry)).context_history@.drop_last() == (*entry).context_history@ by {
        assert((*final(entry)).context_history@.drop_last() =~= (*entry).context_history@);
    }
}

/// An entry is left alone by pruning where it has an override, and counts as
/// excluded by the user where the user was the last to change it.
pub proof fn lemma_asked_prune_protection(entry: &ChatEntry, protected: bool, excluded: bool)
    requires
        call_ensures(ChatEntry::is_protected_from_prune, (entry,), protected),
        call_ensures(ChatEntry::is_user_force_excluded, (entry,), excluded),
    ensures
        protected <==> entry.context_override != ContextOverride::Default,
        excluded <==> entry.context_override == ContextOverride::ForcedExclude
            && entry.context_history@.len() > 0
            && entry.context_history@[entry.context_history@.len() - 1].source
            == ChangeSource::User,
{
    lemma_prune_protection(*entry);
}

} // verus!
