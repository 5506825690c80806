//! Tool calls and the results that answer them.

use crate::chat_entry::{ChatEntry, ChatEntryId, ChatEntryKind, ContextOverride};
use crate::history;
use vstd::prelude::*;

verus! {

/// Whether the entry is the result of the tool call with this id.
pub open spec fn answers(entry: ChatEntry, tool_call_id: Seq<char>) -> bool {
    entry.kind matches ChatEntryKind::ToolResult { id, .. } && id@ == tool_call_id
}

/// The index of the first result of the tool call at or after `from`.
pub open spec fn result_from(
    history: Seq<ChatEntry>,
    from: int,
    tool_call_id: Seq<char>,
) -> Option<int>
    decreases history.len() - from,
{
    if from < 0 || from >= history.len() {
        None
    } else if answers(history[from], tool_call_id) {
        Some(from)
    } else {
        result_from(history, from + 1, tool_call_id)
    }
}

/// Finds the first result of the tool call at or after `from`.
pub fn find_result_from(history: &[ChatEntry], from: usize, tool_call_id: &String) -> (found: Option<
    usize,
>)
    ensures
        found matches Some(index) ==> result_from(history@, from as int, tool_call_id@) == Some(
            index as int,
        ),
        found is None ==> result_from(history@, from as int, tool_call_id@) is None,
        found matches Some(index) ==> from <= index < history@.len() && answers(
            history@[index as int],
            tool_call_id@,
        ),
{
    let mut i: usize = from;
    while i < history.len()
        invariant
            from <= i,
            result_from(history@, from as int, tool_call_id@) == result_from(
                history@,
                i as int,
                tool_call_id@,
            ),
        decreases history@.len() - i,
    {
        if let ChatEntryKind::ToolResult { id, .. } = &history[i].kind {
            if *id == *tool_call_id {
                return Some(i);
            }
        }
        i += 1;
    }
    None
}

/// Whether the first entry at or after `from` with this id has its override
/// set.
pub open spec fn id_protected(history: Seq<ChatEntry>, from: int, id: ChatEntryId) -> bool
    decreases history.len() - from,
{
    if from < 0 || from >= history.len() {
        false
    } else if history[from].id == id {
        history[from].protected_from_prune()
    } else {
        id_protected(history, from + 1, id)
    }
}

/// Whether the first entry at or after `from` with this id has its override
/// set.
pub fn is_id_protected(history: &[ChatEntry], from: usize, id: ChatEntryId) -> (protected: bool)
    ensures
        protected == id_protected(history@, from as int, id),
{
    let mut i: usize = from;
    while i < history.len()
        invariant
            from <= i,
            id_protected(history@, from as int, id) == id_protected(history@, i as int, id),
        decreases history@.len() - i,
    {
        if history[i].id == id {
            return history[i].is_protected_from_prune();
        }
        i += 1;
    }
    false
}

/// Whether `later` is `history` with some overrides set: the entries keep
/// their ids and kinds, and no override is taken back.
pub open spec fn more_overridden(history: Seq<ChatEntry>, later: Seq<ChatEntry>) -> bool {
    &&& later.len() == history.len()
    &&& forall|i: int|
        #![trigger history[i]]
        #![trigger later[i]]
        0 <= i < history.len() ==> {
            &&& later[i].id == history[i].id
            &&& later[i].kind == history[i].kind
            &&& history[i].protected_from_prune() ==> later[i].protected_from_prune()
        }
}

/// Whether `later` holds entries of the same kinds in the same places.
pub open spec fn same_kinds(history: Seq<ChatEntry>, later: Seq<ChatEntry>) -> bool {
    &&& later.len() == history.len()
    &&& forall|i: int|
        #![trigger history[i]]
        #![trigger later[i]]
        0 <= i < history.len() ==> later[i].kind == history[i].kind
}

/// The pairing of calls and results depends on the kinds alone.
pub proof fn lemma_result_from_stable(
    history: Seq<ChatEntry>,
    later: Seq<ChatEntry>,
    from: int,
    tool_call_id: Seq<char>,
)
    requires
        same_kinds(history, later),
    ensures
        result_from(history, from, tool_call_id) == result_from(later, from, tool_call_id),
    decreases history.len() - from,
{
    if 0 <= from < history.len() {
        assert(history[from].kind == later[from].kind);
        if !answers(history[from], tool_call_id) {
            lemma_result_from_stable(history, later, from + 1, tool_call_id);
        }
    }
}

/// Setting overrides takes no protection away.
pub proof fn lemma_id_protected_grows(
    history: Seq<ChatEntry>,
    later: Seq<ChatEntry>,
    from: int,
    id: ChatEntryId,
)
    requires
        more_overridden(history, later),
        id_protected(history, from, id),
    ensures
        id_protected(later, from, id),
    decreases history.len() - from,
{
    if 0 <= from < history.len() {
        assert(history[from].id == later[from].id);
        if history[from].id != id {
            lemma_id_protected_grows(history, later, from + 1, id);
        }
    }
}

/// If every entry of an id has its override set, and there is one, the id is
/// protected.
pub proof fn lemma_id_protected_when_all_are(
    history: Seq<ChatEntry>,
    from: int,
    id: ChatEntryId,
    at: int,
)
    requires
        0 <= from <= at < history.len(),
        history[at].id == id,
        forall|i: int|
            0 <= i < history.len() && (#[trigger] history[i]).id == id
                ==> history[i].protected_from_prune(),
    ensures
        id_protected(history, from, id),
    decreases history.len() - from,
{
    if history[from].id != id {
        lemma_id_protected_when_all_are(history, from + 1, id, at);
    }
}

/// The result found lies in the searched part and answers the call.
pub proof fn lemma_result_from(history: Seq<ChatEntry>, from: int, tool_call_id: Seq<char>)
    requires
        0 <= from,
    ensures
        result_from(history, from, tool_call_id) matches Some(index) ==> from <= index
            < history.len() && answers(history[index], tool_call_id) && forall|j: int|
            from <= j < index ==> !answers(#[trigger] history[j], tool_call_id),
        result_from(history, from, tool_call_id) is None ==> forall|j: int|
            from <= j < history.len() ==> !answers(#[trigger] history[j], tool_call_id),
    decreases history.len() - from,
{
    if from < history.len() && !answers(history[from], tool_call_id) {
        lemma_result_from(history, from + 1, tool_call_id);
    }
}

/// Whether the entry at `r` is the result of the tool call at `c`: the first
/// result behind the call that carries the call's id.
pub open spec fn answered_by(history: Seq<ChatEntry>, c: int, r: int) -> bool {
    &&& 0 <= c < r < history.len()
    &&& history[c].kind matches ChatEntryKind::ToolCall { id: asked, .. } && {
        &&& history[r].kind matches ChatEntryKind::ToolResult { id, .. } && id@ == asked@
        &&& forall|j: int|
            c < j < r ==> !((#[trigger] history[j]).kind matches ChatEntryKind::ToolResult {
                id,
                ..
            } && id@ == asked@)
    }
}

/// The search for a result finds the one that answers the call, and finds none
/// only where the call has no answer.
pub proof fn lemma_answered_by(history: Seq<ChatEntry>, c: int)
    requires
        0 <= c < history.len(),
        history[c].kind is ToolCall,
    ensures
        forall|r: int| #[trigger]
            answered_by(history, c, r) <==> result_from(
                history,
                c + 1,
                history[c].kind->ToolCall_id@,
            ) == Some(r),
{
    let asked = history[c].kind->ToolCall_id@;
    lemma_result_from(history, c + 1, asked);
    assert forall|r: int| #[trigger]
        answered_by(history, c, r) <==> result_from(history, c + 1, asked) == Some(r) by {
        if answered_by(history, c, r) {
            assert(answers(history[r], asked));
            let found = result_from(history, c + 1, asked).unwrap();
            assert(answers(history[found], asked));
            assert(found <= r);
        }
        if result_from(history, c + 1, asked) == Some(r) {
            assert(answers(history[r], asked));
            assert forall|j: int| c < j < r implies !((
            #[trigger] history[j]).kind matches ChatEntryKind::ToolResult { id, .. } && id@
                == asked) by {
                assert(!answers(history[j], asked));
            }
        }
    }
}

/// Where no two entries share an id, an id is protected exactly if the entry
/// that carries it has an override.
pub proof fn lemma_id_protected_distinct(history: Seq<ChatEntry>, from: int, at: int)
    requires
        history::distinct_ids(history),
        0 <= from <= at < history.len(),
    ensures
        id_protected(history, from, history[at].id) <==> history[at].context_override
            != ContextOverride::Default,
    decreases at - from,
{
    if from < at {
        assert(history[from].id != history[at].id);
        lemma_id_protected_distinct(history, from + 1, at);
    }
}

/// The result that is found for a call is the first one behind it with the
/// call's id, and one is found wherever there is one.
pub proof fn lemma_found_result_is_the_first(
    history: &[ChatEntry],
    from: usize,
    tool_call_id: &String,
    found: Option<usize>,
    j: int,
)
    requires
        call_ensures(find_result_from, (history, from, tool_call_id), found),
        from <= j < history@.len(),
        history@[j].kind matches ChatEntryKind::ToolResult { id, .. } && id@ == tool_call_id@,
    ensures
        found is Some,
        from <= found.unwrap() <= j,
        history@[found.unwrap() as int].kind matches ChatEntryKind::ToolResult { id, .. } && id@
            == tool_call_id@,
{
    lemma_result_from(history@, from as int, tool_call_id@);
    assert(answers(history@[j], tool_call_id@));
}

/// An entry is protected exactly where it has an override.
pub proof fn lemma_asked_protection(
    history: &[ChatEntry],
    from: usize,
    at: int,
    id: ChatEntryId,
    protected: bool,
)
    requires
        history::distinct_ids(history@),
        call_ensures(is_id_protected, (history, from, id), protected),
        from <= at < history@.len(),
        history@[at].id == id,
    ensures
        protected <==> history@[at].context_override != ContextOverride::Default,
{
    lemma_id_protected_distinct(history@, from as int, at);
}

} // verus!
