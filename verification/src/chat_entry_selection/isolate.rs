//! Isolation: the selected chunk stays in the prompt, and every other chunk is
//! excluded unless it holds a pinned entry.

use crate::app_state;
use crate::app_state::AppState;
use crate::chat_entry::{ChatEntry, ChatEntryId, ContextOverride, SessionId};
use crate::chat_entry_selection::validator;
use crate::chat_entry_selection::validator::validate_chat_entry_isolate_selected;
use crate::context::protocol::ContextOverrideChanged;
use crate::intent_result::{IntentMessage, IntentResult, PersistSession};
use crate::session::chat_log;
use crate::session::chat_log::{tool_group_end, ChatLog};
use vstd::prelude::*;

verus! {

/// The override that isolating `highlight` sets on the chunk that holds `k`.
pub open spec fn target_of(entries: Seq<ChatEntry>, highlight: int, k: int) -> ContextOverride {
    if chat_log::chunk_start(entries, k) == chat_log::chunk_start(entries, highlight) {
        ContextOverride::ForcedInclude
    } else {
        ContextOverride::ForcedExclude
    }
}

/// Whether `later` is the entry at `k` after `highlight` was isolated.
pub open spec fn isolated_entry(
    entries: Seq<ChatEntry>,
    highlight: int,
    k: int,
    later: ChatEntry,
) -> bool {
    let target = target_of(entries, highlight, k);
    if chat_log::refuses(entries, k, target) {
        later == entries[k]
    } else {
        chat_log::user_set(entries[k], target, later)
    }
}

/// Whether `later` are the entries after `highlight` was isolated.
pub open spec fn isolated(entries: Seq<ChatEntry>, highlight: int, later: Seq<ChatEntry>) -> bool {
    &&& later.len() == entries.len()
    &&& forall|k: int|
        0 <= k < entries.len() ==> isolated_entry(entries, highlight, k, #[trigger] later[k])
}

/// The first entries of the chunks below `n` that isolating `highlight`
/// changes.
pub open spec fn changed_below(entries: Seq<ChatEntry>, highlight: int, n: int) -> Seq<ChatEntryId>
    decreases n,
{
    if n <= 0 {
        Seq::empty()
    } else {
        let before = changed_below(entries, highlight, n - 1);
        if !chat_log::continues_chunk(entries, n - 1) && chat_log::chunk_changes(
            entries,
            n - 1,
            target_of(entries, highlight, n - 1),
        ) {
            before.push(entries[n - 1].id)
        } else {
            before
        }
    }
}

/// Whether the messages save the session and then name the changed entries in
/// order.
pub open spec fn saves_and_tells(
    messages: Seq<IntentMessage>,
    session_id: SessionId,
    changed: Seq<ChatEntryId>,
) -> bool {
    messages == seq![IntentMessage::PersistSession(PersistSession { session_id })]
        + changed.map_values(
        |entry_id: ChatEntryId|
            IntentMessage::ContextOverrideChanged(ContextOverrideChanged { session_id, entry_id }),
    )
}

/// Saves the session and names the changed entries.
pub fn save_and_tell(session_id: SessionId, changed: Vec<ChatEntryId>) -> (result: IntentResult)
    ensures
        saves_and_tells(result.messages@, session_id, changed@),
{
    let mut messages: Vec<IntentMessage> = Vec::new();
    messages.push(IntentMessage::PersistSession(PersistSession { session_id }));
    let ghost head = seq![IntentMessage::PersistSession(PersistSession { session_id })];
    let ghost event = |entry_id: ChatEntryId|
        IntentMessage::ContextOverrideChanged(ContextOverrideChanged { session_id, entry_id });
    assert(messages@ =~= head + changed@.take(0).map_values(event));
    let mut i: usize = 0;
    while i < changed.len()
        invariant
            i <= changed@.len(),
            messages@ == head + changed@.take(i as int).map_values(event),
            event == (|entry_id: ChatEntryId|
                IntentMessage::ContextOverrideChanged(
                    ContextOverrideChanged { session_id, entry_id },
                )),
        decreases changed@.len() - i,
    {
        let ghost before = messages@;
        messages.push(
            IntentMessage::ContextOverrideChanged(
                ContextOverrideChanged { session_id, entry_id: changed[i] },
            ),
        );
        assert(messages@ =~= head + changed@.take(i + 1).map_values(event));
        i += 1;
    }
    assert(changed@.take(i as int) =~= changed@);
    IntentResult { messages }
}

/// Isolation removes no entry and changes nothing but overrides.
pub proof fn lemma_isolated_keeps_entries(
    entries: Seq<ChatEntry>,
    highlight: int,
    later: Seq<ChatEntry>,
)
    requires
        isolated(entries, highlight, later),
    ensures
        chat_log::same_shape(entries, later),
{
    assert forall|k: int|
        #![trigger entries[k]]
        #![trigger later[k]]
        0 <= k < entries.len() implies entries[k].id == later[k].id && entries[k].kind
        == later[k].kind && entries[k].pin_position == later[k].pin_position by {
        assert(isolated_entry(entries, highlight, k, later[k]));
    }
}

/// The selected chunk is in the prompt afterwards; every other entry is out of
/// it, unless a pinned entry keeps its chunk as it was.
pub proof fn lemma_isolated_context(
    entries: Seq<ChatEntry>,
    highlight: int,
    later: Seq<ChatEntry>,
    k: int,
)
    requires
        isolated(entries, highlight, later),
        0 <= highlight < entries.len(),
        0 <= k < entries.len(),
    ensures
        chat_log::chunk_start(entries, k) == chat_log::chunk_start(entries, highlight)
            ==> later[k].in_context(),
        chat_log::chunk_start(entries, k) != chat_log::chunk_start(entries, highlight) ==> if chat_log::any_pinned(
            entries,
            chat_log::chunk_start(entries, k),
            chat_log::chunk_end(entries, k),
        ) {
            later[k] == entries[k]
        } else {
            !later[k].in_context()
        },
{
    assert(isolated_entry(entries, highlight, k, later[k]));
    chat_log::lemma_chunk(entries, k);
    if !chat_log::any_pinned(
        entries,
        chat_log::chunk_start(entries, k),
        chat_log::chunk_end(entries, k),
    ) {
        assert(!entries[k].pinned());
    }
}

proof fn lemma_targets_keep(a: Seq<ChatEntry>, b: Seq<ChatEntry>, highlight: int, k: int)
    requires
        chat_log::same_shape(a, b),
        0 <= highlight < a.len(),
        0 <= k < a.len(),
    ensures
        target_of(a, highlight, k) == target_of(b, highlight, k),
        chat_log::refuses(a, k, target_of(a, highlight, k)) == chat_log::refuses(
            b,
            k,
            target_of(b, highlight, k),
        ),
        chat_log::chunk_start(a, k) == chat_log::chunk_start(b, k),
        chat_log::chunk_end(a, k) == chat_log::chunk_end(b, k),
{
    chat_log::lemma_chunks_keep(a, b, highlight);
    chat_log::lemma_chunks_keep(a, b, k);
    let v = target_of(a, highlight, k);
    assert(chat_log::refuses(a, k, v) == chat_log::refuses(b, k, v));
}

proof fn lemma_same_target(entries: Seq<ChatEntry>, highlight: int, i: int, k: int)
    requires
        0 <= i < entries.len(),
        chat_log::chunk_start(entries, i) <= k < chat_log::chunk_end(entries, i),
    ensures
        0 <= k < entries.len(),
        target_of(entries, highlight, k) == target_of(entries, highlight, i),
        chat_log::refuses(entries, k, target_of(entries, highlight, k)) == chat_log::refuses(
            entries,
            i,
            target_of(entries, highlight, i),
        ),
{
    chat_log::lemma_same_chunk(entries, i, k);
}

/// Isolating the same entry again changes nothing.
pub proof fn lemma_isolating_twice(
    entries: Seq<ChatEntry>,
    highlight: int,
    later: Seq<ChatEntry>,
    n: int,
)
    requires
        isolated(entries, highlight, later),
        0 <= highlight < entries.len(),
        n <= entries.len(),
    ensures
        changed_below(later, highlight, n).len() == 0,
        isolated(later, highlight, later),
    decreases n,
{
    lemma_isolated_keeps_entries(entries, highlight, later);
    assert forall|k: int| 0 <= k < later.len() implies isolated_entry(
        later,
        highlight,
        k,
        #[trigger] later[k],
    ) by {
        assert(isolated_entry(entries, highlight, k, later[k]));
        lemma_targets_keep(entries, later, highlight, k);
    }
    if n > 0 {
        lemma_isolating_twice(entries, highlight, later, n - 1);
        let i = n - 1;
        let target = target_of(later, highlight, i);
        lemma_targets_keep(entries, later, highlight, i);
        if chat_log::chunk_changes(later, i, target) {
            let k = choose|k: int|
                chat_log::chunk_start(later, i) <= k < chat_log::chunk_end(later, i) && (
                #[trigger] later[k]).context_override != target;
            lemma_same_target(later, highlight, i, k);
            assert(isolated_entry(later, highlight, k, later[k]));
            lemma_targets_keep(entries, later, highlight, k);
            assert(isolated_entry(entries, highlight, k, later[k]));
        }
    }
}

/// Whether the entries below `n` are isolated and the others as they were.
#[verifier::opaque]
spec fn isolated_below(
    entries: Seq<ChatEntry>,
    now: Seq<ChatEntry>,
    highlight: int,
    n: int,
) -> bool {
    &&& chat_log::same_shape(entries, now)
    &&& forall|k: int| 0 <= k < n ==> isolated_entry(entries, highlight, k, #[trigger] now[k])
    &&& forall|k: int| n <= k < entries.len() ==> #[trigger] now[k] == entries[k]
}

proof fn lemma_isolated_below(
    entries: Seq<ChatEntry>,
    now: Seq<ChatEntry>,
    highlight: int,
    n: int,
)
    ensures
        isolated_below(entries, entries, highlight, 0),
        isolated_below(entries, now, highlight, n) ==> now.len() == entries.len(),
        isolated_below(entries, now, highlight, n) && n == entries.len() ==> isolated(
            entries,
            highlight,
            now,
        ),
{
    reveal(isolated_below);
}

proof fn lemma_chunk_of(entries: Seq<ChatEntry>, now: Seq<ChatEntry>, highlight: int, i: int)
    requires
        isolated_below(entries, now, highlight, i),
        0 <= i < entries.len(),
        0 <= highlight < entries.len(),
        !chat_log::continues_chunk(entries, i),
    ensures
        now[i] == entries[i],
        chat_log::chunk_start(entries, i) == i,
        chat_log::chunk_start(now, i) == i,
        i < chat_log::chunk_end(entries, i) <= entries.len(),
        chat_log::chunk_end(now, i) == chat_log::chunk_end(entries, i),
        !chat_log::continues_chunk(entries, chat_log::chunk_end(entries, i)),
        target_of(entries, highlight, i) == (if i <= highlight < chat_log::chunk_end(entries, i) {
            ContextOverride::ForcedInclude
        } else {
            ContextOverride::ForcedExclude
        }),
        forall|v: ContextOverride| #[trigger]
            chat_log::refuses(entries, i, v) == chat_log::refuses(now, i, v),
        forall|v: ContextOverride| #[trigger]
            chat_log::chunk_changes(now, i, v) == chat_log::chunk_changes(entries, i, v),
{
    reveal(isolated_below);
    chat_log::lemma_chunk(entries, i);
    chat_log::lemma_chunk(entries, highlight);
    chat_log::lemma_chunks_keep(entries, now, i);
    if i <= highlight < chat_log::chunk_end(entries, i) {
        chat_log::lemma_same_chunk(entries, i, highlight);
    } else if chat_log::chunk_start(entries, highlight) == i {
        chat_log::lemma_same_chunk(entries, highlight, i);
    }
    assert forall|v: ContextOverride| #[trigger]
        chat_log::chunk_changes(now, i, v) == chat_log::chunk_changes(entries, i, v) by {
        lemma_changes_agree(entries, now, i, v);
    }
}

proof fn lemma_chunk_isolated(
    entries: Seq<ChatEntry>,
    now: Seq<ChatEntry>,
    new: Seq<ChatEntry>,
    highlight: int,
    i: int,
)
    requires
        isolated_below(entries, now, highlight, i),
        0 <= i < entries.len(),
        0 <= highlight < entries.len(),
        !chat_log::continues_chunk(entries, i),
        chat_log::chunk_set(now, i, target_of(entries, highlight, i), new),
        chat_log::same_shape(now, new),
    ensures
        isolated_below(entries, new, highlight, chat_log::chunk_end(entries, i)),
{
    reveal(isolated_below);
    lemma_chunk_of(entries, now, highlight, i);
    let end = chat_log::chunk_end(entries, i);
    let target = target_of(entries, highlight, i);
    assert(chat_log::refuses(entries, i, target) == chat_log::refuses(now, i, target));
    assert forall|k: int|
        #![trigger entries[k]]
        #![trigger new[k]]
        0 <= k < entries.len() implies entries[k].id == new[k].id && entries[k].kind == new[k].kind
        && entries[k].pin_position == new[k].pin_position by {
        assert(now[k].id == new[k].id);
    }
    assert forall|k: int| 0 <= k < end implies isolated_entry(
        entries,
        highlight,
        k,
        #[trigger] new[k],
    ) by {
        if k >= i {
            lemma_same_target(entries, highlight, i, k);
            assert(now[k] == entries[k]);
        } else {
            assert(new[k] == now[k]);
            assert(isolated_entry(entries, highlight, k, now[k]));
        }
    }
    assert forall|k: int| end <= k < entries.len() implies #[trigger] new[k] == entries[k] by {
        assert(new[k] == now[k]);
    }
}

/// Sets the override of every chunk: the one that holds `highlight_idx` is
/// included, all others are excluded. Returns the first entries of the chunks
/// that changed.
fn isolate_all_but_highlighted_chunk(log: &mut ChatLog, highlight_idx: usize) -> (changed: Vec<
    ChatEntryId,
>)
    requires
        old(log).wf(),
        highlight_idx < old(log).entries@.len(),
    ensures
        final(log).wf(),
        isolated(old(log).entries@, highlight_idx as int, final(log).entries@),
        final(log).cursor == old(log).cursor,
        final(log).shown_blocks == old(log).shown_blocks,
        final(log).ignore_sweep == old(log).ignore_sweep,
        changed@ == changed_below(
            old(log).entries@,
            highlight_idx as int,
            old(log).entries@.len() as int,
        ),
{
    let ghost entries = log.entries@;
    let ghost h = highlight_idx as int;
    let mut changed: Vec<ChatEntryId> = Vec::new();
    let mut idx: usize = 0;
    proof {
        lemma_isolated_below(entries, entries, h, 0);
    }
    while idx < log.entries.len()
        invariant
            entries == old(log).entries@,
            h == highlight_idx,
            0 <= h < entries.len(),
            idx <= entries.len(),
            !chat_log::continues_chunk(entries, idx as int),
            log.wf(),
            log.cursor == old(log).cursor,
            log.shown_blocks == old(log).shown_blocks,
            log.ignore_sweep == old(log).ignore_sweep,
            isolated_below(entries, log.entries@, h, idx as int),
            log.entries@.len() == entries.len(),
            changed@ == changed_below(entries, h, idx as int),
        decreases entries.len() - idx,
    {
        let ghost now = log.entries@;
        proof {
            lemma_chunk_of(entries, now, h, idx as int);
        }
        let end: usize = match tool_group_end(log.entries.as_slice(), idx) {
            Some(end) => end,
            None => idx + 1,
        };
        let target = if idx <= highlight_idx && highlight_idx < end {
            ContextOverride::ForcedInclude
        } else {
            ContextOverride::ForcedExclude
        };
        if let Some(id) = log.set_entry_context_override_at(idx, target) {
            changed.push(id);
        }
        proof {
            lemma_chunk_isolated(entries, now, log.entries@, h, idx as int);
            lemma_changed_skips(entries, h, idx as int, end as int);
        }
        idx = end;
    }
    proof {
        lemma_isolated_below(entries, log.entries@, h, idx as int);
    }
    changed
}

proof fn lemma_changes_agree(
    entries: Seq<ChatEntry>,
    now: Seq<ChatEntry>,
    i: int,
    value: ContextOverride,
)
    requires
        0 <= i < entries.len(),
        chat_log::same_shape(entries, now),
        chat_log::chunk_start(entries, i) == i,
        forall|k: int| i <= k < entries.len() ==> #[trigger] now[k] == entries[k],
    ensures
        chat_log::chunk_changes(now, i, value) == chat_log::chunk_changes(entries, i, value),
{
    chat_log::lemma_chunk(entries, i);
    chat_log::lemma_chunks_keep(entries, now, i);
    assert(chat_log::refuses(entries, i, value) == chat_log::refuses(now, i, value));
    let hi = chat_log::chunk_end(entries, i);
    if exists|k: int| i <= k < hi && (#[trigger] entries[k]).context_override != value {
        let k = choose|k: int| i <= k < hi && (#[trigger] entries[k]).context_override != value;
        assert(now[k].context_override != value);
    }
    if exists|k: int| i <= k < hi && (#[trigger] now[k]).context_override != value {
        let k = choose|k: int| i <= k < hi && (#[trigger] now[k]).context_override != value;
        assert(entries[k].context_override != value);
    }
}

proof fn lemma_changed_skips(entries: Seq<ChatEntry>, highlight: int, i: int, end: int)
    requires
        0 <= i < entries.len(),
        !chat_log::continues_chunk(entries, i),
        end <= chat_log::chunk_end(entries, i),
        i < end,
    ensures
        changed_below(entries, highlight, end) == (if chat_log::chunk_changes(
            entries,
            i,
            target_of(entries, highlight, i),
        ) {
            changed_below(entries, highlight, i).push(entries[i].id)
        } else {
            changed_below(entries, highlight, i)
        }),
    decreases end,
{
    chat_log::lemma_chunk(entries, i);
    if end > i + 1 {
        assert(chat_log::chunk_start(entries, i) == i);
        assert(chat_log::continues_chunk(entries, end - 1));
        lemma_changed_skips(entries, highlight, i, end - 1);
    }
}

/// Whether nothing but the active log changed.
pub open spec fn only_log(before: AppState, after: AppState) -> bool {
    after == (AppState {
        session: app_state::SessionStore {
            active: app_state::ChatSessionState {
                log: after.session.active.log,
                ..before.session.active
            },
            ..before.session
        },
        ..before
    })
}

/// Handles isolation: nothing happens without an unpinned selected entry. The
/// cursor stays on it. Where no chunk changed, nothing is saved.
pub fn handle_isolate_selected(state: &mut AppState) -> (result: IntentResult)
    requires
        old(state).wf(),
    ensures
        final(state).wf(),
        match validator::selected(*old(state)) {
            Some(entry) if !entry.pinned() => {
                let before = old(state).session.active.log;
                let after = final(state).session.active.log;
                let highlight = before.selected().unwrap();
                let changed = changed_below(
                    before.entries@,
                    highlight,
                    before.entries@.len() as int,
                );
                &&& only_log(*old(state), *final(state))
                &&& isolated(before.entries@, highlight, after.entries@)
                &&& after.cursor == before.cursor
                &&& after.ignore_sweep == before.ignore_sweep
                &&& after.shown_blocks@ == chat_log::shown_after_unignore(
                    after.entries@,
                    before.shown_blocks@,
                    highlight,
                )
                &&& if changed.len() == 0 {
                    result.messages@.len() == 0
                } else {
                    saves_and_tells(
                        result.messages@,
                        old(state).session.active.session_id,
                        changed,
                    )
                }
            },
            _ => *final(state) == *old(state) && result.messages@.len() == 0,
        },
{
    if validate_chat_entry_isolate_selected(state).is_err() {
        return IntentResult::empty();
    }
    let session_id = state.session.active.session_id;
    let highlight_idx: usize = match state.session.active.log.selected_history_index() {
        Some(i) => i,
        None => {
            return IntentResult::empty();
        },
    };
    let changed = isolate_all_but_highlighted_chunk(&mut state.session.active.log, highlight_idx);
    state.session.active.log.propagate_shown_on_unignore(highlight_idx);
    if changed.len() == 0 {
        IntentResult::empty()
    } else {
        save_and_tell(session_id, changed)
    }
}

/// After isolation, every member of the selected entry's tool loop is
/// force-included. Every other chunk is force-excluded as a whole, unless one
/// of its members is pinned: then it stays as it was. Nothing but overrides
/// changes.
pub proof fn lemma_isolation_spares_pinned_chunks(
    entries: Seq<ChatEntry>,
    highlight: int,
    later: Seq<ChatEntry>,
    k: int,
)
    requires
        isolated(entries, highlight, later),
        0 <= highlight < entries.len(),
        0 <= k < entries.len(),
    ensures
        ({
            let (start, end) = (chat_log::chunk_start(entries, k), chat_log::chunk_end(entries, k));
            let pinned = exists|p: int|
                start <= p < end && (#[trigger] entries[p]).pin_position is Some;
            &&& later.len() == entries.len()
            &&& later[k].id == entries[k].id && later[k].kind == entries[k].kind
                && later[k].pin_position == entries[k].pin_position
            &&& start <= highlight < end ==> later[k].context_override
                == ContextOverride::ForcedInclude
            &&& !(start <= highlight < end) && !pinned ==> later[k].context_override
                == ContextOverride::ForcedExclude
            &&& !(start <= highlight < end) && pinned ==> later[k] == entries[k]
        }),
{
    assert(isolated_entry(entries, highlight, k, later[k]));
    let (start, end) = (chat_log::chunk_start(entries, k), chat_log::chunk_end(entries, k));
    chat_log::lemma_chunk(entries, k);
    chat_log::lemma_chunk(entries, highlight);
    if start <= highlight < end {
        chat_log::lemma_same_chunk(entries, k, highlight);
    } else if chat_log::chunk_start(entries, highlight) == start {
        chat_log::lemma_same_chunk(entries, highlight, start);
        chat_log::lemma_same_chunk(entries, k, start);
    }
    if chat_log::any_pinned(entries, start, end) {
        let p = choose|p: int| start <= p < end && (#[trigger] entries[p]).pinned();
        assert(entries[p].pin_position is Some);
    }
    if exists|p: int| start <= p < end && (#[trigger] entries[p]).pin_position is Some {
        let p = choose|p: int| start <= p < end && (#[trigger] entries[p]).pin_position is Some;
        assert(entries[p].pinned());
    }
}

/// The changed chunks are told by their first entries: an entry is named
/// exactly if a chunk begins with it and one of the chunk's members changed.
pub proof fn lemma_changed_chunks_are_named(
    entries: Seq<ChatEntry>,
    highlight: int,
    later: Seq<ChatEntry>,
    i: int,
)
    requires
        crate::history::distinct_ids(entries),
        isolated(entries, highlight, later),
        0 <= highlight < entries.len(),
        0 <= i < entries.len(),
    ensures
        changed_below(entries, highlight, entries.len() as int).contains(entries[i].id)
            <==> !chat_log::hangs_on(entries, i) && exists|k: int|
            i <= k < chat_log::chunk_end(entries, i) && #[trigger] later[k] != entries[k],
{
    lemma_changed_contains(entries, highlight, entries.len() as int, i);
    if !chat_log::continues_chunk(entries, i) {
        chat_log::lemma_chunk(entries, i);
        let target = target_of(entries, highlight, i);
        let end = chat_log::chunk_end(entries, i);
        if chat_log::chunk_changes(entries, i, target) {
            let k = choose|k: int|
                chat_log::chunk_start(entries, i) <= k < end && (
                #[trigger] entries[k]).context_override != target;
            lemma_same_target(entries, highlight, i, k);
            assert(isolated_entry(entries, highlight, k, later[k]));
            assert(later[k] != entries[k]);
        }
        if exists|k: int| i <= k < end && #[trigger] later[k] != entries[k] {
            let k = choose|k: int| i <= k < end && #[trigger] later[k] != entries[k];
            assert(chat_log::chunk_start(entries, i) == i);
            lemma_same_target(entries, highlight, i, k);
            assert(isolated_entry(entries, highlight, k, later[k]));
            assert(entries[k].context_override != target);
        }
    }
}

proof fn lemma_changed_contains(entries: Seq<ChatEntry>, highlight: int, n: int, i: int)
    requires
        crate::history::distinct_ids(entries),
        0 <= n <= entries.len(),
        0 <= i < entries.len(),
    ensures
        changed_below(entries, highlight, n).contains(entries[i].id) <==> i < n
            && !chat_log::continues_chunk(entries, i) && chat_log::chunk_changes(
            entries,
            i,
            target_of(entries, highlight, i),
        ),
    decreases n,
{
    if n > 0 {
        lemma_changed_contains(entries, highlight, n - 1, i);
        let before = changed_below(entries, highlight, n - 1);
        let after = changed_below(entries, highlight, n);
        let id = entries[i].id;
        if before.contains(id) {
            let k = choose|k: int| 0 <= k < before.len() && before[k] == id;
            assert(after[k] == id);
        }
        if after.contains(id) && !before.contains(id) {
            let k = choose|k: int| 0 <= k < after.len() && after[k] == id;
            if k < before.len() {
                assert(before[k] == id);
            }
            assert(entries[n - 1].id == id);
        }
        if i == n - 1 && after.len() > before.len() {
            assert(after[before.len() as int] == id);
        }
    }
}

/// The session is saved first, and then each changed entry is told in order.
pub proof fn lemma_saves_then_tells(
    messages: Seq<IntentMessage>,
    session_id: SessionId,
    changed: Seq<ChatEntryId>,
)
    requires
        saves_and_tells(messages, session_id, changed),
    ensures
        messages.len() == changed.len() + 1,
        messages[0] matches IntentMessage::PersistSession(m) && m.session_id == session_id,
        forall|k: int|
            0 <= k < changed.len() ==> (#[trigger] messages[k + 1] matches
                IntentMessage::ContextOverrideChanged(m) && m.session_id == session_id
                && m.entry_id == changed[k]),
{
}

/// Only the active log may change.
pub proof fn lemma_only_log(before: AppState, after: AppState)
    requires
        only_log(before, after),
    ensures
        after.session.others == before.session.others,
        after.session.active.input == before.session.active.input,
        after.session.active.cwd == before.session.active.cwd,
        after.session.active.phase == before.session.active.phase,
        after.frontend == before.frontend,
{
}

/// Isolating the selected entry includes its tool loop and excludes every
/// other one that holds no pin. What changed is saved and told of, loop by
/// loop; where nothing does, nothing is said.
pub proof fn lemma_isolating_leaves_one_loop(result: IntentResult, k: int)
    ensures
        forall|state: &mut AppState|
            #[trigger] call_ensures(handle_isolate_selected, (state,), result) && (*state).wf() ==> {
                let before = (*state).session.active.log;
                let after = (*final(state)).session.active.log;
                let entries = before.entries@;
                let target = before.selected();
                let pins = target is Some && entries[target.unwrap()].pin_position is Some;
                &&& target is None || pins ==> *final(state) == *state && result.messages@.len()
                    == 0
                &&& target is Some && !pins && 0 <= k < entries.len() ==> {
                    let (start, end) = (
                        chat_log::chunk_start(entries, k),
                        chat_log::chunk_end(entries, k),
                    );
                    let pinned = exists|p: int|
                        start <= p < end && (#[trigger] entries[p]).pin_position is Some;
                    &&& after.entries@.len() == entries.len()
                    &&& after.entries@[k].id == entries[k].id
                    &&& after.entries@[k].kind == entries[k].kind
                    &&& start <= target.unwrap() < end ==> after.entries@[k].context_override
                        == ContextOverride::ForcedInclude
                    &&& !(start <= target.unwrap() < end) && !pinned
                        ==> after.entries@[k].context_override == ContextOverride::ForcedExclude
                    &&& !(start <= target.unwrap() < end) && pinned ==> after.entries@[k]
                        == entries[k]
                    &&& result.messages@.len() > 0 ==> (result.messages@[0] matches
                        IntentMessage::PersistSession(m) && m.session_id
                        == (*state).session.active.session_id)
                }
            },
{
    assert forall|state: &mut AppState|
        #[trigger] call_ensures(handle_isolate_selected, (state,), result) && (*state).wf() implies ({
        let before = (*state).session.active.log;
        let after = (*final(state)).session.active.log;
        let entries = before.entries@;
        let target = before.selected();
        let pins = target is Some && entries[target.unwrap()].pin_position is Some;
        &&& target is None || pins ==> *final(state) == *state && result.messages@.len() == 0
        &&& target is Some && !pins && 0 <= k < entries.len() ==> {
            let (start, end) = (chat_log::chunk_start(entries, k), chat_log::chunk_end(entries, k));
            let pinned = exists|p: int|
                start <= p < end && (#[trigger] entries[p]).pin_position is Some;
            &&& after.entries@.len() == entries.len()
            &&& after.entries@[k].id == entries[k].id
            &&& after.entries@[k].kind == entries[k].kind
            &&& start <= target.unwrap() < end ==> after.entries@[k].context_override
                == ContextOverride::ForcedInclude
            &&& !(start <= target.unwrap() < end) && !pinned ==> after.entries@[k].context_override
                == ContextOverride::ForcedExclude
            &&& !(start <= target.unwrap() < end) && pinned ==> after.entries@[k] == entries[k]
            &&& result.messages@.len() > 0 ==> (result.messages@[0] matches
                IntentMessage::PersistSession(m) && m.session_id
                == (*state).session.active.session_id)
        }
    }) by {
        let before = (*state).session.active.log;
        let after = (*final(state)).session.active.log;
        let entries = before.entries@;
        if let Some(i) = before.selected() {
            if !entries[i].pinned() && 0 <= k < entries.len() {
                lemma_isolation_spares_pinned_chunks(entries, i, after.entries@, k);
                let changed = changed_below(entries, i, entries.len() as int);
                if changed.len() > 0 {
                    lemma_saves_then_tells(
                        result.messages@,
                        (*state).session.active.session_id,
                        changed,
                    );
                }
            }
        }
    }
}

/// Isolating an entry folds no block and moves no cursor.
pub proof fn lemma_isolating_folds_nothing(result: IntentResult, id: ChatEntryId)
    ensures
        forall|state: &mut AppState|
            #[trigger] call_ensures(handle_isolate_selected, (state,), result) && (*state).wf()
                ==> {
                let before = (*state).session.active.log;
                let after = (*final(state)).session.active.log;
                &&& after.cursor == before.cursor
                &&& after.ignore_sweep == before.ignore_sweep
                &&& before.shown_blocks@.contains(id) ==> after.shown_blocks@.contains(id)
                &&& (*final(state)).frontend == (*state).frontend
                &&& (*final(state)).session.others == (*state).session.others
                &&& (*final(state)).session.active.input == (*state).session.active.input
            },
{
    assert forall|state: &mut AppState|
        #[trigger] call_ensures(handle_isolate_selected, (state,), result)
            && (*state).wf() implies ({
        let before = (*state).session.active.log;
        let after = (*final(state)).session.active.log;
        &&& after.cursor == before.cursor
        &&& after.ignore_sweep == before.ignore_sweep
        &&& before.shown_blocks@.contains(id) ==> after.shown_blocks@.contains(id)
        &&& (*final(state)).frontend == (*state).frontend
        &&& (*final(state)).session.others == (*state).session.others
        &&& (*final(state)).session.active.input == (*state).session.active.input
    }) by {
        let before = (*state).session.active.log;
        let after = (*final(state)).session.active.log;
        if let Some(i) = before.selected() {
            if !before.entries@[i].pinned() {
                lemma_only_log(*state, *final(state));
                chat_log::lemma_unfolding_goes_on(after.entries@, before.shown_blocks@, i);
            }
        }
    }
}

} // verus!
