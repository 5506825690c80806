//! Labelled text of chat entries for the summarising model.
//!
//! Tool traffic and notices are left out: the summary is about the
//! conversation.

use crate::chat_entry::{ChatEntry, ChatEntryKind};
use crate::text;
use vstd::prelude::*;

verus! {

/// The line that stands for an entry, if it is part of the conversation.
pub open spec fn entry_line(entry: ChatEntry) -> Option<Seq<char>> {
    match entry.kind {
        ChatEntryKind::User { display, .. } => Some("[User]: "@ + display@),
        ChatEntryKind::Assistant(text) => Some("[Assistant]: "@ + text@),
        ChatEntryKind::Actor { source, text } => Some("[Actor: "@ + source@ + "]: "@ + text@),
        _ => None,
    }
}

/// The lines of the entries, in order.
pub open spec fn entry_lines(entries: Seq<ChatEntry>) -> Seq<Seq<char>>
    decreases entries.len(),
{
    if entries.len() == 0 {
        Seq::empty()
    } else {
        let before = entry_lines(entries.drop_last());
        match entry_line(entries.last()) {
            Some(line) => before.push(line),
            None => before,
        }
    }
}

/// The labelled lines of the entries as one text.
pub open spec fn serialized_text(entries: Seq<ChatEntry>) -> Seq<char> {
    text::joined(entry_lines(entries), "\n"@)
}

/// The text of two lists of entries is the two texts, with a newline between
/// them where neither is empty.
pub proof fn lemma_serialized_append(first: Seq<ChatEntry>, second: Seq<ChatEntry>)
    ensures
        serialized_text(first + second) == if serialized_text(first).len() > 0 && serialized_text(
            second,
        ).len() > 0 {
            serialized_text(first) + "\n"@ + serialized_text(second)
        } else {
            serialized_text(first) + serialized_text(second)
        },
{
    let (a, b) = (entry_lines(first), entry_lines(second));
    lemma_lines_append(first, second);
    lemma_lines_have_text(first);
    lemma_lines_have_text(second);
    if a.len() == 0 {
        assert(a + b =~= b);
        assert(serialized_text(first) + serialized_text(second) =~= serialized_text(second));
    } else if b.len() == 0 {
        assert(a + b =~= a);
        assert(serialized_text(first) + serialized_text(second) =~= serialized_text(first));
    } else {
        text::lemma_joined_append(a, b, "\n"@);
    }
}

proof fn lemma_lines_append(first: Seq<ChatEntry>, second: Seq<ChatEntry>)
    ensures
        entry_lines(first + second) == entry_lines(first) + entry_lines(second),
    decreases second.len(),
{
    if second.len() == 0 {
        assert(first + second =~= first);
        assert(entry_lines(first) + entry_lines(second) =~= entry_lines(first));
    } else {
        lemma_lines_append(first, second.drop_last());
        assert((first + second).drop_last() =~= first + second.drop_last());
        assert(entry_lines(first + second) =~= entry_lines(first) + entry_lines(second));
    }
}

/// The text is empty only where there is no line.
proof fn lemma_lines_have_text(entries: Seq<ChatEntry>)
    ensures
        serialized_text(entries).len() > 0 <==> entry_lines(entries).len() > 0,
    decreases entries.len(),
{
    if entries.len() > 0 {
        reveal_strlit("[User]: ");
        reveal_strlit("[Assistant]: ");
        reveal_strlit("[Actor: ");
        lemma_lines_have_text(entries.drop_last());
        if let Some(line) = entry_line(entries.last()) {
            assert(line.len() > 0);
            assert(entry_lines(entries).last() == line);
        }
    }
}

/// Serialises entries into labelled lines, one entry after the other.
pub fn serialize_entries_for_compaction(entries: &[ChatEntry]) -> (serialized: String)
    ensures
        serialized@ == serialized_text(entries@),
{
    let mut lines: Vec<String> = Vec::new();
    let mut i: usize = 0;
    while i < entries.len()
        invariant
            i <= entries.len(),
            text::texts(lines@) == entry_lines(entries@.take(i as int)),
        decreases entries.len() - i,
    {
        assert(entries@.take(i + 1).drop_last() =~= entries@.take(i as int));
        let ghost before = lines@;
        match &entries[i].kind {
            ChatEntryKind::User { display, .. } => {
                let mut line = "[User]: ".to_owned();
                line.append(display.as_str());
                lines.push(line);
            },
            ChatEntryKind::Assistant(text) => {
                let mut line = "[Assistant]: ".to_owned();
                line.append(text.as_str());
                lines.push(line);
            },
            ChatEntryKind::Actor { source, text } => {
                let mut line = "[Actor: ".to_owned();
                line.append(source.as_str());
                line.append("]: ");
                line.append(text.as_str());
                lines.push(line);
            },
            ChatEntryKind::System(_)
            | ChatEntryKind::Error(_)
            | ChatEntryKind::Thinking(_)
            | ChatEntryKind::Transient(_)
            | ChatEntryKind::Compaction { .. }
            | ChatEntryKind::Annotation { .. }
            | ChatEntryKind::ToolCall { .. }
            | ChatEntryKind::ToolResult { .. } => {},
        }
        proof {
            if lines@.len() > before.len() {
                assert(text::texts(lines@) =~= text::texts(before).push(lines@.last()@));
            }
        }
        i += 1;
    }
    assert(entries@.take(i as int) =~= entries@);
    text::join(lines.as_slice(), "\n")
}

/// The part of a history that is a conversation: what the user, the model and
/// the other participants said.
pub open spec fn spoken(entries: Seq<ChatEntry>) -> Seq<ChatEntry> {
    entries.filter(
        |entry: ChatEntry|
            entry.kind is User || entry.kind is Assistant || entry.kind is Actor,
    )
}

/// There is one line for each entry of the conversation, in order. It carries
/// the label of the one who spoke and the text as it was shown.
pub proof fn lemma_lines_are_what_was_spoken(entries: Seq<ChatEntry>)
    ensures
        entry_lines(entries).len() == spoken(entries).len(),
        forall|k: int|
            #![trigger entry_lines(entries)[k]]
            0 <= k < spoken(entries).len() ==> match spoken(entries)[k].kind {
                ChatEntryKind::User { display, .. } => entry_lines(entries)[k] == "[User]: "@
                    + display@,
                ChatEntryKind::Assistant(text) => entry_lines(entries)[k] == "[Assistant]: "@
                    + text@,
                ChatEntryKind::Actor { source, text } => entry_lines(entries)[k] == "[Actor: "@
                    + source@ + "]: "@ + text@,
                _ => false,
            },
    decreases entries.len(),
{
    reveal(Seq::filter);
    if entries.len() > 0 {
        lemma_lines_are_what_was_spoken(entries.drop_last());
        let before = spoken(entries.drop_last());
        let after = spoken(entries);
        let lines = entry_lines(entries);
        assert forall|k: int|
            #![trigger lines[k]]
            0 <= k < after.len() implies match after[k].kind {
            ChatEntryKind::User { display, .. } => lines[k] == "[User]: "@ + display@,
            ChatEntryKind::Assistant(text) => lines[k] == "[Assistant]: "@ + text@,
            ChatEntryKind::Actor { source, text } => lines[k] == "[Actor: "@ + source@ + "]: "@
                + text@,
            _ => false,
        } by {
            if k < before.len() {
                assert(after[k] == before[k]);
                assert(lines[k] == entry_lines(entries.drop_last())[k]);
            }
        }
    }
}

/// Every line that speaks for the model is the text of an assistant message.
pub proof fn lemma_assistant_lines(entries: Seq<ChatEntry>, k: int)
    requires
        0 <= k < entry_lines(entries).len(),
        "[Assistant]: "@.is_prefix_of(entry_lines(entries)[k]),
    ensures
        exists|i: int|
            0 <= i < entries.len() && ((#[trigger] entries[i]).kind matches ChatEntryKind::Assistant(
                text,
            ) && entry_lines(entries)[k] == "[Assistant]: "@ + text@),
{
    reveal_strlit("[User]: ");
    reveal_strlit("[Assistant]: ");
    reveal_strlit("[Actor: ");
    lemma_lines_are_what_was_spoken(entries);
    let line = entry_lines(entries)[k];
    let entry = spoken(entries)[k];
    let head = line.subrange(0, "[Assistant]: "@.len() as int);
    assert(head[1] == line[1] && head[2] == line[2]);
    lemma_spoken_is_from(entries, k);
    assert(entry.kind is Assistant);
}

proof fn lemma_spoken_is_from(entries: Seq<ChatEntry>, k: int)
    requires
        0 <= k < spoken(entries).len(),
    ensures
        exists|i: int| 0 <= i < entries.len() && #[trigger] entries[i] == spoken(entries)[k],
    decreases entries.len(),
{
    reveal(Seq::filter);
    if entries.len() > 0 {
        let init = entries.drop_last();
        let before = spoken(init);
        if k < before.len() {
            lemma_spoken_is_from(init, k);
            let i = choose|i: int| 0 <= i < init.len() && #[trigger] init[i] == before[k];
            assert(entries[i] == spoken(entries)[k]);
        } else {
            assert(entries[entries.len() - 1] == spoken(entries)[k]);
        }
    }
}

/// A single entry of the conversation gives its labelled text; any other entry
/// gives nothing.
pub proof fn lemma_single_entry_text(entry: ChatEntry)
    ensures
        serialized_text(seq![entry]) == match entry.kind {
            ChatEntryKind::User { display, .. } => "[User]: "@ + display@,
            ChatEntryKind::Assistant(text) => "[Assistant]: "@ + text@,
            ChatEntryKind::Actor { source, text } => "[Actor: "@ + source@ + "]: "@ + text@,
            ChatEntryKind::System(_)
            | ChatEntryKind::Error(_)
            | ChatEntryKind::Thinking(_)
            | ChatEntryKind::Transient(_)
            | ChatEntryKind::ToolCall { .. }
            | ChatEntryKind::ToolResult { .. }
            | ChatEntryKind::Compaction { .. }
            | ChatEntryKind::Annotation { .. } => Seq::empty(),
        },
{
    assert(seq![entry].drop_last() =~= Seq::empty());
    assert(seq![entry].last() == entry);
    assert(entry_lines(Seq::<ChatEntry>::empty()) =~= Seq::empty());
}

/// Entries that are no part of the conversation leave no trace in the text.
pub proof fn lemma_unspoken_entries_are_silent(entries: Seq<ChatEntry>)
    requires
        forall|i: int|
            0 <= i < entries.len() ==> !((#[trigger] entries[i]).kind is User) && !(
            entries[i].kind is Assistant) && !(entries[i].kind is Actor),
    ensures
        serialized_text(entries).len() == 0,
{
    lemma_lines_are_what_was_spoken(entries);
    lemma_lines_have_text(entries);
    if spoken(entries).len() > 0 {
        lemma_spoken_is_from(entries, 0);
        assert(entry_lines(entries)[0] == entry_lines(entries)[0]);
    }
}

/// What one entry is serialised to: what the user, the assistant or an actor
/// said, behind who said it, and nothing of any other entry.
pub proof fn lemma_serialize_one_entry(entries: &[ChatEntry], serialized: String)
    requires
        call_ensures(serialize_entries_for_compaction, (entries,), serialized),
        entries@.len() == 1,
    ensures
        serialized@ == match entries@[0].kind {
            ChatEntryKind::User { display, .. } => "[User]: "@ + display@,
            ChatEntryKind::Assistant(text) => "[Assistant]: "@ + text@,
            ChatEntryKind::Actor { source, text } => "[Actor: "@ + source@ + "]: "@ + text@,
            ChatEntryKind::System(_)
            | ChatEntryKind::Error(_)
            | ChatEntryKind::Thinking(_)
            | ChatEntryKind::Transient(_)
            | ChatEntryKind::ToolCall { .. }
            | ChatEntryKind::ToolResult { .. }
            | ChatEntryKind::Compaction { .. }
            | ChatEntryKind::Annotation { .. } => Seq::empty(),
        },
{
    assert(entries@ =~= seq![entries@[0]]);
    lemma_single_entry_text(entries@[0]);
}

/// What two parts of a history are serialised to is what each of them is, with
/// a line break between the two where both say something.
pub proof fn lemma_serialize_parts(
    first: &[ChatEntry],
    second: &[ChatEntry],
    whole: &[ChatEntry],
    of_first: String,
    of_second: String,
    of_whole: String,
)
    requires
        whole@ == first@ + second@,
        call_ensures(serialize_entries_for_compaction, (first,), of_first),
        call_ensures(serialize_entries_for_compaction, (second,), of_second),
        call_ensures(serialize_entries_for_compaction, (whole,), of_whole),
    ensures
        of_first@.len() > 0 && of_second@.len() > 0 ==> of_whole@ == of_first@ + "\n"@ + of_second@,
        of_first@.len() == 0 ==> of_whole@ == of_second@,
        of_second@.len() == 0 ==> of_whole@ == of_first@,
{
    lemma_serialized_append(first@, second@);
    if of_first@.len() == 0 {
        assert(of_first@ + of_second@ =~= of_second@);
    }
    if of_second@.len() == 0 {
        assert(of_first@ + of_second@ =~= of_first@);
    }
}

} // verus!
